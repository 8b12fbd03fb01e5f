//! The calls that leave this crate. Verus does not read the bodies in this
//! file: each contract here is taken on trust, and says what the called
//! crate's source shows of the call.

use vstd::prelude::*;
use std::io::Write;
use flate2::write::GzEncoder;
use flate2::Compression;
use http_types::Mime;
use path_absolutize::Absolutize;
use regex::Regex;
use crate::text::text_of;

verus! {

/// The view of an optional byte buffer.
pub open spec fn bytes_of(v: Option<Vec<u8>>) -> Option<Seq<u8>> {
    match v {
        Some(b) => Some(b@),
        None => None,
    }
}

/// The gzip stream that flate2 writes for `raw` at its best compression
/// level, or `None` where the encoder reports an error.
pub uninterp spec fn gzip_best(raw: Seq<u8>) -> Option<Seq<u8>>;

/// `flate2::write::GzEncoder` over a `Vec`, at `Compression::best()`, fed
/// `raw` in one `write_all` and closed with `finish`. The encoder writes a
/// fixed header (no name, no time, no operating system), so its output is a
/// function of `raw` alone; the contract gives that output its name and
/// claims nothing else of it.
#[verifier::external_body]
pub(crate) fn gzip_compress(raw: &Vec<u8>) -> (packed: Option<Vec<u8>>)
    ensures
        bytes_of(packed) == gzip_best(raw@),
{
    let mut encoder = GzEncoder::new(Vec::new(), Compression::best());
    match encoder.write_all(raw) {
        Ok(()) => encoder.finish().ok(),
        Err(_) => None,
    }
}

/// Whether the regex crate accepts `pattern` as a regular expression.
pub uninterp spec fn regex_valid(pattern: Seq<char>) -> bool;

/// Whether the regular expression `pattern`, which the regex crate accepts,
/// matches somewhere in `text`.
pub uninterp spec fn regex_matches(pattern: Seq<char>, text: Seq<char>) -> bool;

/// `regex::Regex::new` on `pattern`, then `Regex::is_match` on `text`. The
/// first depends on the pattern alone and the second on the pattern and
/// the text alone; the contract names the two outcomes and claims nothing
/// else of them. `None` where the pattern is not accepted.
#[verifier::external_body]
pub(crate) fn regex_is_match(pattern: &str, text: &str) -> (found: Option<bool>)
    ensures
        found == if regex_valid(pattern@) {
            Some(regex_matches(pattern@, text@))
        } else {
            None
        },
{
    match Regex::new(pattern) {
        Ok(regex) => Some(regex.is_match(text)),
        Err(_) => None,
    }
}

/// The media type that http-types guesses from a file extension.
pub open spec fn mime_of_extension(ext: Seq<char>) -> Option<Seq<char>> {
    if ext == "html"@ {
        Some("text/html;charset=utf-8"@)
    } else if ext == "js"@ || ext == "mjs"@ || ext == "jsonp"@ {
        Some("application/javascript;charset=utf-8"@)
    } else if ext == "json"@ {
        Some("application/json"@)
    } else if ext == "css"@ {
        Some("text/css;charset=utf-8"@)
    } else if ext == "svg"@ {
        Some("image/svg+xml"@)
    } else if ext == "xml"@ {
        Some("application/xml;charset=utf-8"@)
    } else {
        None
    }
}

/// `http_types::Mime::from_extension`, its result written out in full. The
/// function is a table of eight extensions; the contract repeats the table,
/// each media type as `Mime` displays it.
#[verifier::external_body]
pub(crate) fn mime_from_extension(ext: &str) -> (mime: Option<String>)
    ensures
        text_of(mime) == mime_of_extension(ext@),
{
    match Mime::from_extension(ext) {
        Some(mime) => Some(mime.to_string()),
        None => None,
    }
}

/// `http_types::mime::BYTE_STREAM`, written out in full: the media type of
/// bytes of no known kind.
#[verifier::external_body]
pub(crate) fn byte_stream_mime() -> (mime: String)
    ensures
        mime@ == "application/octet-stream"@,
{
    http_types::mime::BYTE_STREAM.to_string()
}

/// `path` made absolute against `cwd` by path-absolutize, which rewrites
/// the text and does not look at the file system.
pub uninterp spec fn absolutized(path: Seq<char>, cwd: Seq<char>) -> Seq<char>;

/// `path_absolutize::Absolutize::absolutize_from` on `path` with `cwd` as the
/// directory to start from, on Unix. With a `cwd` that starts at the root
/// the function always finds a first component to build on and returns
/// `Ok`, and what it returns is put together from pieces of the two texts,
/// so it is text again. Without such a `cwd` it may find nothing to build
/// on and panic, which is why one is required. The contract names the
/// outcome and claims nothing else of it.
#[verifier::external_body]
pub(crate) fn absolutize_from(path: &str, cwd: &str) -> (absolute: Option<String>)
    requires
        cwd@.len() > 0 && cwd@[0] == '/',
    ensures
        text_of(absolute) == Some(absolutized(path@, cwd@)),
{
    match std::path::Path::new(path).absolutize_from(std::path::Path::new(cwd)) {
        Ok(found) => found.to_str().map(String::from),
        Err(_) => None,
    }
}

/// `dirs::home_dir`: the home directory of the user who runs the process,
/// where it can be found and is valid UTF-8. It depends on the environment,
/// so nothing is claimed of it.
#[verifier::external_body]
pub(crate) fn home_dir() -> (home: Option<String>) {
    match dirs::home_dir() {
        Some(found) => found.to_str().map(String::from),
        None => None,
    }
}

} // verus!
