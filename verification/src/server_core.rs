//! From a request path to a response: the base path, the file that the
//! path stands for, and what is served for it.

use vstd::prelude::*;
use crate::config::Config;
use crate::helper::{
    send_file, should_send_file, spec_mime, spec_should_send, FileKind, FileReply, FileReplyView, FileStat,
};
use crate::path::{
    join, looks_like_file, normal_form, skip_chars, spec_extension, spec_join, spec_looks_like_file,
    spec_skip, spec_starts_with, starts_with,
};
use crate::response::{spec_status, Response, ResponseView};
use crate::store::{send_cache_file, spec_reply, spec_send_cache_file, FileCacheStore, StoreView};
use crate::text::{as_opt_str, decimal, decimal_string, str_of, text_of};
use crate::util::{is_empty_root_url, spec_is_empty_root_url};

verus! {

/// Where a request path leads before any file is looked at.
pub enum Route {
    /// The path is the site root while the site lives under a base path.
    Redirect { location: String },
    /// The path lies outside the base path.
    Forbidden,
    /// The path stands for the file at `file_path`; `url` is the path
    /// without the base path.
    File { url: String, file_path: String },
}

/// What a `Route` stands for.
pub enum RouteView {
    Redirect { location: Seq<char> },
    Forbidden,
    File { url: Seq<char>, file_path: Seq<char> },
}

impl View for Route {
    type V = RouteView;

    open spec fn view(&self) -> RouteView {
        match *self {
            Route::Redirect { location } => RouteView::Redirect { location: location@ },
            Route::Forbidden => RouteView::Forbidden,
            Route::File { url, file_path } => RouteView::File { url: url@, file_path: file_path@ },
        }
    }
}

/// The base path that is in force: the configured one, unless there is none
/// or it names the site root.
pub open spec fn spec_base(base_href: Option<Seq<char>>) -> Option<Seq<char>> {
    match base_href {
        Some(base) => if spec_is_empty_root_url(base) {
            None
        } else {
            Some(base)
        },
        None => None,
    }
}

/// Where `path` leads. Under a base path the site root is redirected to the
/// base path, a path outside the base path is forbidden, and any other path
/// loses as many characters as the base path has. Without a base path the
/// path loses its first character. What is left is joined to `root_dir`.
pub open spec fn spec_route(base_href: Option<Seq<char>>, root_dir: Seq<char>, path: Seq<char>) -> RouteView {
    match spec_base(base_href) {
        Some(base) => {
            if spec_is_empty_root_url(path) {
                RouteView::Redirect { location: base }
            } else if !spec_starts_with(path, base) {
                RouteView::Forbidden
            } else {
                RouteView::File {
                    url: spec_skip(path, base.len() as int),
                    file_path: spec_join(root_dir, spec_skip(path, base.len() as int)),
                }
            }
        },
        None => RouteView::File { url: spec_skip(path, 1), file_path: spec_join(root_dir, spec_skip(path, 1)) },
    }
}

/// Finds where a request path leads.
pub fn route_request(base_href: Option<&str>, root_dir: &str, path: &str) -> (route: Route)
    ensures
        route@ == spec_route(str_of(base_href), root_dir@, path@),
{
    let url = match base_href {
        Some(base) if !is_empty_root_url(base) => {
            if is_empty_root_url(path) {
                return Route::Redirect { location: String::from_str(base) };
            } else if !starts_with(path, base) {
                return Route::Forbidden;
            } else {
                skip_chars(path, base.unicode_len())
            }
        },
        _ => skip_chars(path, 1),
    };
    Route::File { url: String::from_str(url), file_path: join(root_dir, url) }
}

/// Whether a miss on `path` may be answered with the fallback entry: where
/// fallback routing is on and the path does not look like a file's.
pub open spec fn spec_fallback_enabled(html5: bool, path: Seq<char>) -> bool {
    html5 && !spec_looks_like_file(path)
}

/// The answer of a store to a request for `path`.
pub open spec fn spec_resolve(
    store: StoreView,
    base_href: Option<Seq<char>>,
    path: Seq<char>,
    token: Option<Seq<char>>,
    html5: bool,
) -> ResponseView {
    match spec_route(base_href, store.root_dir, path) {
        RouteView::Redirect { location } => ResponseView::Redirect { location },
        RouteView::Forbidden => ResponseView::Forbidden,
        RouteView::File { url, file_path } => spec_send_cache_file(
            store,
            file_path,
            token,
            spec_fallback_enabled(html5, path),
        ),
    }
}

/// Answers a request for `path` from a store: routes the path under the
/// base path, looks the file up, and serves it, the fallback entry, or
/// nothing, as the store and the validation token `if_none_match` decide.
pub fn resolve(
    store: &FileCacheStore,
    base_href: Option<&str>,
    path: &str,
    if_none_match: Option<&str>,
    html5: bool,
) -> (response: Response)
    ensures
        response@ == spec_resolve(store@, str_of(base_href), path@, str_of(if_none_match), html5),
{
    let root_dir = store.root_dir();
    match route_request(base_href, root_dir, path) {
        Route::Redirect { location } => Response::Redirect { location },
        Route::Forbidden => Response::Forbidden,
        Route::File { url, file_path } => {
            let fallback_enabled = html5 && !looks_like_file(path);
            send_cache_file(store, file_path.as_str(), if_none_match, fallback_enabled)
        },
    }
}

/// A request that leads to no entry is answered with the fallback entry
/// only where fallback routing is on and the request path does not look
/// like a file's, that is, holds no `.` behind its last `/`. Any other
/// request that leads to no entry is not found.
pub proof fn lemma_fallback_boundary(
    store: StoreView,
    base_href: Option<Seq<char>>,
    path: Seq<char>,
    token: Option<Seq<char>>,
    html5: bool,
)
    requires
        spec_route(base_href, store.root_dir, path) matches RouteView::File { url, file_path }
            && !store.entries.contains_key(normal_form(file_path)),
    ensures
        html5 && !spec_looks_like_file(path) ==> spec_resolve(store, base_href, path, token, html5)
            == spec_reply(store.fallback, token),
        !html5 || spec_looks_like_file(path) ==> spec_resolve(store, base_href, path, token, html5)
            == ResponseView::NotFound,
{
}

/// The status code that the access log records for a response: its own,
/// but for a redirect, which is recorded as 200.
pub open spec fn spec_logged_status(response: ResponseView) -> u16 {
    match response {
        ResponseView::Redirect { .. } => 200,
        _ => spec_status(response),
    }
}

/// The status code that the access log records for a response.
pub fn logged_status(response: &Response) -> (code: u16)
    ensures
        code == spec_logged_status(response@),
{
    match response {
        Response::Redirect { .. } => 200,
        _ => response.status(),
    }
}

/// What is to be done for a request.
pub enum Handling {
    /// The request is answered.
    Respond(Response),
    /// The file at `file_path` has to be examined on disk first.
    Examine { url: String, file_path: String },
}

/// What a `Handling` stands for.
pub enum HandlingView {
    Respond(ResponseView),
    Examine { url: Seq<char>, file_path: Seq<char> },
}

impl View for Handling {
    type V = HandlingView;

    open spec fn view(&self) -> HandlingView {
        match *self {
            Handling::Respond(response) => HandlingView::Respond(response@),
            Handling::Examine { url, file_path } => HandlingView::Examine { url: url@, file_path: file_path@ },
        }
    }
}

/// The view of an optional store.
pub open spec fn store_of(store: Option<&FileCacheStore>) -> Option<StoreView> {
    match store {
        Some(s) => Some(s@),
        None => None,
    }
}

/// What is to be done for a request for `path`: the redirect or the refusal
/// that the base path calls for; else the answer of the store, where there
/// is one; else a look at the file on disk.
pub open spec fn spec_handle_request(
    config: Config,
    store: Option<StoreView>,
    path: Seq<char>,
    token: Option<Seq<char>>,
) -> HandlingView {
    match spec_route(text_of(config.base_href), config.root_dir@, path) {
        RouteView::Redirect { location } => HandlingView::Respond(ResponseView::Redirect { location }),
        RouteView::Forbidden => HandlingView::Respond(ResponseView::Forbidden),
        RouteView::File { url, file_path } => match store {
            Some(held) => HandlingView::Respond(
                spec_send_cache_file(held, file_path, token, spec_fallback_enabled(config.html5, path)),
            ),
            None => HandlingView::Examine { url, file_path },
        },
    }
}

/// Decides what is to be done for a request for `path` that carries the
/// validation token `if_none_match`.
pub fn handle_request(
    config: &Config,
    store: Option<&FileCacheStore>,
    path: &str,
    if_none_match: Option<&str>,
) -> (handling: Handling)
    ensures
        handling@ == spec_handle_request(*config, store_of(store), path@, str_of(if_none_match)),
{
    match route_request(as_opt_str(&config.base_href), config.root_dir.as_str(), path) {
        Route::Redirect { location } => Handling::Respond(Response::Redirect { location }),
        Route::Forbidden => Handling::Respond(Response::Forbidden),
        Route::File { url, file_path } => match store {
            Some(held) => {
                let fallback_enabled = config.html5 && !looks_like_file(path);
                Handling::Respond(send_cache_file(held, file_path.as_str(), if_none_match, fallback_enabled))
            },
            None => Handling::Examine { url, file_path },
        },
    }
}

/// What is served for a path once it has been examined on disk.
#[derive(Clone, Copy, Debug, PartialEq, Eq, Structural)]
pub enum Examined {
    /// The path is a directory: its listing is served.
    ListDirectory,
    /// The path is a file: it is served.
    SendFile,
    NotFound,
    /// The path leads nowhere and the index file stands in, if it is there.
    TryIndex,
}

/// What is served for a request for `path`, given what the file system says
/// of the file it stands for, if anything.
pub open spec fn spec_examined(kind: Option<FileKind>, html5: bool, path: Seq<char>) -> Examined {
    match kind {
        Some(FileKind::Directory) => Examined::ListDirectory,
        Some(FileKind::File) => Examined::SendFile,
        Some(FileKind::Other) => Examined::NotFound,
        None => if spec_fallback_enabled(html5, path) {
            Examined::TryIndex
        } else {
            Examined::NotFound
        },
    }
}

/// Decides what is served for a request for `path` once the file it stands
/// for has been examined.
pub fn examine(kind: Option<FileKind>, html5: bool, path: &str) -> (examined: Examined)
    ensures
        examined == spec_examined(kind, html5, path@),
{
    match kind {
        Some(FileKind::Directory) => Examined::ListDirectory,
        Some(FileKind::File) => Examined::SendFile,
        Some(FileKind::Other) => Examined::NotFound,
        None => {
            if html5 && !looks_like_file(path) {
                Examined::TryIndex
            } else {
                Examined::NotFound
            }
        },
    }
}

/// The answer for the file at `file_path`, given what the file system says
/// of it: an error where it has no usable modification time; nothing to
/// send where the request's token is the file's tag; else the file, its
/// length stated unless it is encoded on the way out.
pub open spec fn spec_send_file_304(
    stat: FileStat,
    token: Option<Seq<char>>,
    file_path: Seq<char>,
    gzip: bool,
) -> FileReplyView {
    match stat.modified_secs {
        Some(secs) => if spec_should_send(token, decimal(secs as nat)) {
            FileReplyView::Send {
                tag: decimal(secs as nat),
                gzip,
                mime: spec_mime(spec_extension(file_path)),
                length: if gzip {
                    None
                } else {
                    Some(stat.size)
                },
            }
        } else {
            FileReplyView::NotModified
        },
        None => FileReplyView::InternalError,
    }
}

/// Answers a request for a file that is served from disk.
pub fn send_file_304(stat: &FileStat, if_none_match: Option<&str>, file_path: &str, gzip: bool) -> (reply: FileReply)
    ensures
        reply@ == spec_send_file_304(*stat, str_of(if_none_match), file_path@, gzip),
{
    match stat.modified_secs {
        Some(secs) => {
            let mtime = decimal_string(secs);
            if should_send_file(if_none_match, mtime.as_str()) {
                send_file(file_path, stat, mtime, gzip)
            } else {
                FileReply::NotModified
            }
        },
        None => FileReply::InternalError,
    }
}

/// The answer where the index file stands in: that of the index file where
/// it is there, else an error.
pub fn send_index_304(stat: Option<&FileStat>, if_none_match: Option<&str>, index_href: &str, gzip: bool) -> (reply:
    FileReply)
    ensures
        reply@ == match stat {
            Some(found) => spec_send_file_304(*found, str_of(if_none_match), index_href@, gzip),
            None => FileReplyView::InternalError,
        },
{
    match stat {
        Some(found) => send_file_304(found, if_none_match, index_href, gzip),
        None => FileReply::InternalError,
    }
}

/// The status code that the access log records for a request: that of the
/// response, or 500 where there is none.
pub fn send(status: Option<u16>, should_log_access: bool) -> (logged: Option<u16>)
    ensures
        logged == if !should_log_access {
            None
        } else {
            match status {
                Some(code) => Some(code),
                None => Some(500u16),
            }
        },
{
    if !should_log_access {
        return None;
    }
    match status {
        Some(code) => Some(code),
        None => Some(500),
    }
}

} // verus!
