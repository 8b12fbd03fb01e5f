//! What the server is run with.

use vstd::prelude::*;
use crate::args::Args;
use crate::path::{join, spec_join};
use crate::text::clone_text;
use crate::util::{resolve_path, resolves_to, spec_path_kind, spec_resolvable, PathKind};

verus! {

/// The configuration of a running server.
pub struct Config {
    /// Seconds to wait before each response.
    pub delay: u64,
    pub should_log_access: bool,
    /// The served directory, resolved.
    pub root_dir: String,
    /// The path under which the site lives, between slashes.
    pub base_href: Option<String>,
    /// Whether paths that lead to no file are answered with the index file.
    pub html5: bool,
    /// The index file, relative to the served directory.
    pub index: String,
    /// The index file, resolved.
    pub index_href: String,
    /// Whether responses are gzip-encoded on the way out.
    pub gzip: bool,
}

impl Config {
    /// The configuration that a command line asks for, with the served
    /// directory resolved against `cwd`. `None` only where the served
    /// directory is taken from a home directory that cannot be found.
    pub fn new(args: &Args, cwd: &str) -> (made: Option<Config>)
        requires
            args.serve_path matches Some(served) && spec_resolvable(cwd@, served@),
        ensures
            spec_path_kind(args.serve_path->0@) != PathKind::Home ==> made is Some,
            made matches Some(config) ==> {
                &&& config.delay == args.delay
                &&& config.should_log_access == !args.no_access
                &&& resolves_to(cwd@, args.serve_path->0@, config.root_dir@)
                &&& config.base_href == args.base_href
                &&& config.html5 == args.html5
                &&& config.index == args.index
                &&& config.index_href@ == spec_join(config.root_dir@, args.index@)
                &&& config.gzip == args.gzip
            },
    {
        let served = match &args.serve_path {
            Some(served) => served,
            None => {
                return None;
            },
        };
        match resolve_path(cwd, served.as_str()) {
            Some(root_dir) => Some(
                Config {
                    delay: args.delay,
                    should_log_access: !args.no_access,
                    base_href: clone_text(&args.base_href),
                    html5: args.html5,
                    index_href: join(root_dir.as_str(), args.index.as_str()),
                    index: args.index.clone(),
                    root_dir,
                    gzip: args.gzip,
                },
            ),
            None => None,
        }
    }
}

} // verus!
