//! What a response says of a file: its media type, and whether its body has
//! to be sent at all.

use vstd::prelude::*;
use crate::outside::{byte_stream_mime, mime_from_extension, mime_of_extension};
use crate::path::{extension, spec_extension};
use crate::text::{as_opt_str, same_text, str_of};

verus! {

/// The media type for a file with extension `ext`: the one known for the
/// extension, else that of plain bytes.
pub open spec fn spec_mime(ext: Option<Seq<char>>) -> Seq<char> {
    match ext {
        Some(e) => match mime_of_extension(e) {
            Some(m) => m,
            None => "application/octet-stream"@,
        },
        None => "application/octet-stream"@,
    }
}

/// The media type for a file with extension `ext`.
pub fn get_mime_from_ext(ext: Option<&str>) -> (mime: String)
    ensures
        mime@ == spec_mime(str_of(ext)),
{
    match ext {
        Some(e) => match mime_from_extension(e) {
            Some(m) => m,
            None => byte_stream_mime(),
        },
        None => byte_stream_mime(),
    }
}

/// The media type for the file at `file`, by its extension.
pub fn get_mime(file: &str) -> (mime: String)
    ensures
        mime@ == spec_mime(spec_extension(file@)),
{
    let ext = extension(file);
    get_mime_from_ext(as_opt_str(&ext))
}

/// Whether a file with validation token `tag` has to be sent to a client
/// that presents `token`: unless the two are equal.
pub open spec fn spec_should_send(token: Option<Seq<char>>, tag: Seq<char>) -> bool {
    token != Some(tag)
}

/// Tells whether the body has to be sent: whether the request carries no
/// validation token, or one that differs from `mtime`.
pub fn should_send_file(if_none_match: Option<&str>, mtime: &str) -> (send: bool)
    ensures
        send == spec_should_send(str_of(if_none_match), mtime@),
{
    match if_none_match {
        Some(token) => !same_text(token, mtime),
        None => true,
    }
}

/// The separator between a directory's path and a name in it: none where
/// the path ends with one.
pub open spec fn spec_dir_separator(path: Seq<char>) -> Seq<char> {
    if path.len() > 0 && path.last() == '/' {
        Seq::empty()
    } else {
        seq!['/']
    }
}

/// The line of a directory listing that links to `name`.
pub open spec fn spec_dir_item(path: Seq<char>, name: Seq<char>) -> Seq<char> {
    "  <li><a href=\""@ + path + spec_dir_separator(path) + name + "\">"@ + name + "</a></li>\n"@
}

/// The lines of a directory listing, one for each name, in order.
pub open spec fn spec_dir_items(path: Seq<char>, names: Seq<String>) -> Seq<char>
    decreases names.len(),
{
    if names.len() == 0 {
        Seq::empty()
    } else {
        spec_dir_items(path, names.drop_last()) + spec_dir_item(path, names.last()@)
    }
}

/// The page that lists the directory at `path`.
pub open spec fn spec_dir_page(path: Seq<char>, names: Seq<String>) -> Seq<char> {
    "<!DOCTYPE html>\n<html>\n<head>\n<meta charset=\"utf-8\"/>\n<title>Index of "@ + path
        + "</title>\n<style>\nli { padding: 6px; }\n</style>\n</head>\n<body>\n<h1>Index of "@ + path
        + "</h1>\n<ul>\n"@ + spec_dir_items(path, names) + "\n</ul>\n</body>\n</html>"@
}

/// Writes the page that lists a directory: `path` is the request path of
/// the directory, `names` what it holds. Neither is escaped.
pub fn send_dir(names: &Vec<String>, path: &str) -> (page: String)
    ensures
        page@ == spec_dir_page(path@, names@),
{
    let n = path.unicode_len();
    let ends_with_slash = n > 0 && path.get_char(n - 1) == '/';
    proof {
        reveal_strlit("/");
        reveal_strlit("");
    }
    let separator = if ends_with_slash {
        ""
    } else {
        "/"
    };
    assert(separator@ =~= spec_dir_separator(path@));
    let mut cnt = String::new();
    let mut i: usize = 0;
    while i < names.len()
        invariant
            i <= names.len(),
            separator@ == spec_dir_separator(path@),
            cnt@ == spec_dir_items(path@, names@.take(i as int)),
        decreases names.len() - i,
    {
        let ghost before = cnt@;
        let name = names[i].as_str();
        cnt.append("  <li><a href=\"");
        cnt.append(path);
        cnt.append(separator);
        cnt.append(name);
        cnt.append("\">");
        cnt.append(name);
        cnt.append("</a></li>\n");
        assert(names@.take(i as int + 1).drop_last() =~= names@.take(i as int));
        assert(names@.take(i as int + 1).last() == names@[i as int]);
        assert(cnt@ =~= before + spec_dir_item(path@, name@));
        i += 1;
    }
    assert(names@.take(i as int) =~= names@);
    let mut page = String::from_str(
        "<!DOCTYPE html>\n<html>\n<head>\n<meta charset=\"utf-8\"/>\n<title>Index of ",
    );
    page.append(path);
    page.append("</title>\n<style>\nli { padding: 6px; }\n</style>\n</head>\n<body>\n<h1>Index of ");
    page.append(path);
    page.append("</h1>\n<ul>\n");
    page.append(cnt.as_str());
    page.append("\n</ul>\n</body>\n</html>");
    page
}

/// What a path on disk is.
#[derive(Clone, Copy, Debug, PartialEq, Eq, Structural)]
pub enum FileKind {
    Directory,
    File,
    /// Neither a directory nor a regular file.
    Other,
}

/// What the file system says of a path.
#[derive(Clone, Copy)]
pub struct FileStat {
    pub kind: FileKind,
    /// The size in bytes.
    pub size: u64,
    /// The modification time in whole seconds since the epoch, where the
    /// file system gave one at or after the epoch.
    pub modified_secs: Option<u64>,
}

/// The answer for a file that is served from disk.
pub enum FileReply {
    /// The file is sent: with `tag` as its validation token, gzip-encoded on
    /// the way out where `gzip`, and with its length where that is known.
    Send { tag: String, gzip: bool, mime: String, length: Option<u64> },
    /// The client's copy is current: nothing is sent.
    NotModified,
    /// The file cannot be served.
    InternalError,
}

/// What a `FileReply` stands for.
pub enum FileReplyView {
    Send { tag: Seq<char>, gzip: bool, mime: Seq<char>, length: Option<u64> },
    NotModified,
    InternalError,
}

impl View for FileReply {
    type V = FileReplyView;

    open spec fn view(&self) -> FileReplyView {
        match *self {
            FileReply::Send { tag, gzip, mime, length } => FileReplyView::Send {
                tag: tag@,
                gzip,
                mime: mime@,
                length,
            },
            FileReply::NotModified => FileReplyView::NotModified,
            FileReply::InternalError => FileReplyView::InternalError,
        }
    }
}

/// The answer that sends the file at `filepath` with `mtime` as its tag.
pub fn send_file(filepath: &str, stat: &FileStat, mtime: String, gzip: bool) -> (reply: FileReply)
    ensures
        reply@ == (FileReplyView::Send {
            tag: mtime@,
            gzip,
            mime: spec_mime(spec_extension(filepath@)),
            length: if gzip {
                None
            } else {
                Some(stat.size)
            },
        }),
{
    FileReply::Send {
        tag: mtime,
        gzip,
        mime: get_mime(filepath),
        length: if gzip {
            None
        } else {
            Some(stat.size)
        },
    }
}

} // verus!
