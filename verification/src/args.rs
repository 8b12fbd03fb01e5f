//! The command line, once parsed: what it must hold, and the form in which
//! the base path is kept.

use vstd::prelude::*;
use crate::text::{spec_trim, text_of, trim};
use crate::util::{is_empty_root_url, spec_is_empty_root_url};

verus! {

/// The options of the command line.
pub struct Args {
    /// The directory to serve.
    pub serve_path: Option<String>,
    /// The address to bind.
    pub host: String,
    /// The port to listen on, or the one to start the search for a free port from.
    pub port: u16,
    /// Whether responses are gzip-encoded on the way out.
    pub gzip: bool,
    /// Whether a browser window is opened once the server runs.
    pub open: bool,
    /// Whether paths that lead to no file are answered with the index file.
    pub html5: bool,
    /// The index file, relative to the served directory.
    pub index: String,
    /// Seconds to wait before each response.
    pub delay: u64,
    /// Whether the served directory is held in memory.
    pub cache_in_memory: bool,
    /// The pattern of the paths whose files are cached forever.
    pub regex_immutable: Option<String>,
    /// The directory that logs are written to.
    pub log_dir: Option<String>,
    /// The path under which the site lives.
    pub base_href: Option<String>,
    /// Whether the access log is switched off.
    pub no_access: bool,
    /// Whether log lines are written without colour.
    pub no_color: bool,
    /// The action to signal to a running process.
    pub signal: Option<String>,
}

/// Why a command line is refused.
#[derive(Clone, Copy, Debug, PartialEq, Eq, Structural)]
pub enum ArgsError {
    /// A pattern of immutable files was given without the in-memory cache.
    ImmutableWithoutCache,
    /// Neither a directory to serve nor a signal to send was given.
    MissingServePath,
}

impl ArgsError {
    /// The message for the user.
    pub fn message(&self) -> (text: &'static str)
        ensures
            text@ == match *self {
                ArgsError::ImmutableWithoutCache => "--regex-immutable only effect with --cache-in-memory"@,
                ArgsError::MissingServePath =>
                    "error: missing serve path\n\nUSAGE:\n    lightstatic [OPTIONS] <PATH>\n\nFor more information try --help\n"@,
            },
    {
        match self {
            ArgsError::ImmutableWithoutCache => "--regex-immutable only effect with --cache-in-memory",
            ArgsError::MissingServePath =>
                "error: missing serve path\n\nUSAGE:\n    lightstatic [OPTIONS] <PATH>\n\nFor more information try --help\n",
        }
    }
}

/// `base` with a `/` in front and behind, where it has none there.
pub open spec fn with_slashes(base: Seq<char>) -> Seq<char> {
    let closed = if base.len() > 0 && base.last() == '/' {
        base
    } else {
        base.push('/')
    };
    if closed[0] == '/' {
        closed
    } else {
        seq!['/'] + closed
    }
}

/// The base path as it is kept: none where the given one, white space
/// aside, is empty or `/`; else the given one between slashes.
pub open spec fn spec_base_href(base: Option<Seq<char>>) -> Option<Seq<char>> {
    match base {
        Some(given) => if spec_is_empty_root_url(spec_trim(given)) {
            None
        } else {
            Some(with_slashes(given))
        },
        None => None,
    }
}

/// Brings a base path into the form in which it is kept.
pub fn normalize_base_href(base: Option<String>) -> (kept: Option<String>)
    ensures
        text_of(kept) == spec_base_href(text_of(base)),
{
    match base {
        Some(given) => {
            if is_empty_root_url(trim(given.as_str())) {
                return None;
            }
            let n = given.as_str().unicode_len();
            proof {
                reveal_strlit("/");
            }
            let mut kept = if n > 0 && given.as_str().get_char(0) == '/' {
                String::new()
            } else {
                String::from_str("/")
            };
            kept.append(given.as_str());
            if !(n > 0 && given.as_str().get_char(n - 1) == '/') {
                kept.append("/");
            }
            assert(kept@ =~= with_slashes(given@));
            Some(kept)
        },
        None => None,
    }
}

/// Whether log lines are to be written without colour: where they go to
/// files, or where the user said so.
pub fn plain_output(args: &Args) -> (plain: bool)
    ensures
        plain == (args.log_dir is Some || args.no_color),
{
    args.log_dir.is_some() || args.no_color
}

/// What is wrong with a parsed command line, if anything.
pub open spec fn spec_args_error(args: Args) -> Option<ArgsError> {
    if args.regex_immutable is Some && !args.cache_in_memory {
        Some(ArgsError::ImmutableWithoutCache)
    } else if args.signal is None && args.serve_path is None {
        Some(ArgsError::MissingServePath)
    } else {
        None
    }
}

/// Checks a parsed command line and brings its base path into the form in
/// which it is kept. Nothing else of it is changed.
pub fn get_args(parsed: Args) -> (checked: Result<Args, ArgsError>)
    ensures
        match checked {
            Ok(args) => spec_args_error(parsed) is None && text_of(args.base_href) == spec_base_href(
                text_of(parsed.base_href),
            ) && args == (Args { base_href: args.base_href, ..parsed }),
            Err(error) => spec_args_error(parsed) == Some(error),
        },
{
    if parsed.regex_immutable.is_some() && !parsed.cache_in_memory {
        return Err(ArgsError::ImmutableWithoutCache);
    }
    if parsed.signal.is_none() && parsed.serve_path.is_none() {
        return Err(ArgsError::MissingServePath);
    }
    let Args {
        serve_path,
        host,
        port,
        gzip,
        open,
        html5,
        index,
        delay,
        cache_in_memory,
        regex_immutable,
        log_dir,
        base_href,
        no_access,
        no_color,
        signal,
    } = parsed;
    Ok(
        Args {
            serve_path,
            host,
            port,
            gzip,
            open,
            html5,
            index,
            delay,
            cache_in_memory,
            regex_immutable,
            log_dir,
            base_href: normalize_base_href(base_href),
            no_access,
            no_color,
            signal,
        },
    )
}

} // verus!
