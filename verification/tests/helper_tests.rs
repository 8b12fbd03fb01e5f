use lightstatic::helper::{
    get_mime, get_mime_from_ext, send_dir, send_file, should_send_file, FileKind, FileReply,
    FileStat,
};
use lightstatic::server_core::{
    examine, handle_request, logged_status, send, send_file_304, send_index_304, Examined,
    Handling,
};
use lightstatic::config::Config;
use lightstatic::response::Response;
use lightstatic::store::{init_cache_store, DirEntry, RawFile};

#[test]
fn mime_is_known_for_eight_extensions() {
    assert_eq!("text/html;charset=utf-8", get_mime_from_ext(Some("html")));
    assert_eq!("application/javascript;charset=utf-8", get_mime_from_ext(Some("js")));
    assert_eq!("application/javascript;charset=utf-8", get_mime_from_ext(Some("mjs")));
    assert_eq!("application/javascript;charset=utf-8", get_mime_from_ext(Some("jsonp")));
    assert_eq!("application/json", get_mime_from_ext(Some("json")));
    assert_eq!("text/css;charset=utf-8", get_mime_from_ext(Some("css")));
    assert_eq!("image/svg+xml", get_mime_from_ext(Some("svg")));
    assert_eq!("application/xml;charset=utf-8", get_mime_from_ext(Some("xml")));
}

#[test]
fn mime_of_anything_else_is_that_of_plain_bytes() {
    assert_eq!("application/octet-stream", get_mime_from_ext(None));
    assert_eq!("application/octet-stream", get_mime_from_ext(Some("")));
    assert_eq!("application/octet-stream", get_mime_from_ext(Some("png")));
    assert_eq!("application/octet-stream", get_mime_from_ext(Some("HTML")));
    assert_eq!("application/octet-stream", get_mime_from_ext(Some("htm")));
    assert_eq!("application/octet-stream", get_mime_from_ext(Some(".html")));
}

#[test]
fn mime_of_a_path_goes_by_its_extension() {
    assert_eq!("text/html;charset=utf-8", get_mime("/srv/www/index.html"));
    assert_eq!("text/css;charset=utf-8", get_mime("style.css"));
    assert_eq!("application/octet-stream", get_mime("/srv/www.html/readme"));
    assert_eq!("application/octet-stream", get_mime("/srv/.html"));
    assert_eq!("application/json", get_mime("/srv/a.b.json/"));
}

#[test]
fn body_is_sent_unless_the_token_is_the_tag() {
    assert!(should_send_file(None, "123"));
    assert!(should_send_file(Some("122"), "123"));
    assert!(should_send_file(Some(""), "123"));
    assert!(should_send_file(Some("1234"), "123"));
    assert!(!should_send_file(Some("123"), "123"));
    assert!(!should_send_file(Some(""), ""));
}

#[test]
fn directory_page_lists_every_name() {
    let names = vec!["a.txt".to_string(), "sub".to_string()];
    let expected = "<!DOCTYPE html>
<html>
<head>
<meta charset=\"utf-8\"/>
<title>Index of /files</title>
<style>
li { padding: 6px; }
</style>
</head>
<body>
<h1>Index of /files</h1>
<ul>
  <li><a href=\"/files/a.txt\">a.txt</a></li>
  <li><a href=\"/files/sub\">sub</a></li>

</ul>
</body>
</html>";
    assert_eq!(expected, send_dir(&names, "/files"));
}

#[test]
fn directory_page_adds_no_second_slash() {
    let names = vec!["a.txt".to_string()];
    let page = send_dir(&names, "/files/");
    assert!(page.contains("  <li><a href=\"/files/a.txt\">a.txt</a></li>\n"));
    assert!(page.contains("<title>Index of /files/</title>"));
    let page = send_dir(&names, "");
    assert!(page.contains("  <li><a href=\"/a.txt\">a.txt</a></li>\n"));
}

#[test]
fn directory_page_of_an_empty_directory() {
    let page = send_dir(&Vec::new(), "/");
    assert!(page.contains("<h1>Index of /</h1>\n<ul>\n\n</ul>\n</body>\n</html>"));
    assert!(!page.contains("<li>"));
}

fn stat(kind: FileKind, size: u64, modified_secs: Option<u64>) -> FileStat {
    FileStat {
        kind,
        size,
        modified_secs,
    }
}

#[test]
fn examined_path_is_listed_sent_or_not_found() {
    assert_eq!(Examined::ListDirectory, examine(Some(FileKind::Directory), false, "/a"));
    assert_eq!(Examined::SendFile, examine(Some(FileKind::File), false, "/a.txt"));
    assert_eq!(Examined::NotFound, examine(Some(FileKind::Other), true, "/a"));
    assert_eq!(Examined::NotFound, examine(None, false, "/users/42"));
    assert_eq!(Examined::TryIndex, examine(None, true, "/users/42"));
    assert_eq!(Examined::NotFound, examine(None, true, "/logo.png"));
    assert_eq!(Examined::TryIndex, examine(None, true, "/v1.2/users"));
    assert_eq!(Examined::TryIndex, examine(None, true, ""));
}

#[test]
fn file_from_disk_is_sent_with_its_tag_and_length() {
    let found = stat(FileKind::File, 321, Some(1_700_000_000));
    match send_file_304(&found, None, "/srv/www/index.html", false) {
        FileReply::Send {
            tag,
            gzip,
            mime,
            length,
        } => {
            assert_eq!("1700000000", tag);
            assert!(!gzip);
            assert_eq!("text/html;charset=utf-8", mime);
            assert_eq!(Some(321), length);
        }
        _ => panic!("not sent"),
    }
    match send_file_304(&found, Some("1699999999"), "/srv/www/data.bin", true) {
        FileReply::Send {
            tag,
            gzip,
            mime,
            length,
        } => {
            assert_eq!("1700000000", tag);
            assert!(gzip);
            assert_eq!("application/octet-stream", mime);
            assert_eq!(None, length);
        }
        _ => panic!("not sent"),
    }
    match send_file("/srv/www/a.svg", &found, "9".to_string(), false) {
        FileReply::Send {
            tag, mime, length, ..
        } => {
            assert_eq!("9", tag);
            assert_eq!("image/svg+xml", mime);
            assert_eq!(Some(321), length);
        }
        _ => panic!("not sent"),
    }
}

#[test]
fn file_from_disk_is_not_sent_to_a_client_that_has_it() {
    let found = stat(FileKind::File, 321, Some(1_700_000_000));
    assert!(matches!(
        send_file_304(&found, Some("1700000000"), "/srv/www/index.html", false),
        FileReply::NotModified
    ));
}

#[test]
fn file_without_a_modification_time_is_an_error() {
    let found = stat(FileKind::File, 321, None);
    assert!(matches!(
        send_file_304(&found, None, "/srv/www/index.html", false),
        FileReply::InternalError
    ));
    assert!(matches!(
        send_index_304(None, None, "/srv/www/index.html", false),
        FileReply::InternalError
    ));
    let index = stat(FileKind::File, 5, Some(7));
    assert!(matches!(
        send_index_304(Some(&index), Some("7"), "/srv/www/index.html", false),
        FileReply::NotModified
    ));
    assert!(matches!(
        send_index_304(Some(&index), None, "/srv/www/index.html", false),
        FileReply::Send { .. }
    ));
}

#[test]
fn access_log_records_the_status_or_500() {
    assert_eq!(None, send(Some(200), false));
    assert_eq!(None, send(None, false));
    assert_eq!(Some(200), send(Some(200), true));
    assert_eq!(Some(404), send(Some(404), true));
    assert_eq!(Some(500), send(None, true));
    assert_eq!(
        200,
        logged_status(&Response::Redirect {
            location: "/app/".to_string()
        })
    );
    assert_eq!(403, logged_status(&Response::Forbidden));
    assert_eq!(404, logged_status(&Response::NotFound));
    assert_eq!(304, logged_status(&Response::NotModified));
}

fn config(base_href: Option<&str>, html5: bool) -> Config {
    Config {
        delay: 0,
        should_log_access: true,
        root_dir: "/srv/www".to_string(),
        base_href: base_href.map(String::from),
        html5,
        index: "index.html".to_string(),
        index_href: "/srv/www/index.html".to_string(),
        gzip: false,
    }
}

#[test]
fn request_without_a_store_asks_for_a_look_at_the_disk() {
    match handle_request(&config(None, false), None, "/a/b.txt", None) {
        Handling::Examine { url, file_path } => {
            assert_eq!("a/b.txt", url);
            assert_eq!("/srv/www/a/b.txt", file_path);
        }
        _ => panic!("answered"),
    }
    match handle_request(&config(Some("/app/"), false), None, "/app/a/b.txt", None) {
        Handling::Examine { url, file_path } => {
            assert_eq!("a/b.txt", url);
            assert_eq!("/srv/www/a/b.txt", file_path);
        }
        _ => panic!("answered"),
    }
    assert!(matches!(
        handle_request(&config(Some("/app/"), false), None, "/", None),
        Handling::Respond(Response::Redirect { .. })
    ));
    assert!(matches!(
        handle_request(&config(Some("/app/"), false), None, "/b.txt", None),
        Handling::Respond(Response::Forbidden)
    ));
}

#[test]
fn request_with_a_store_is_answered_from_it() {
    let store = init_cache_store(
        "/srv/www/index.html".to_string(),
        "/srv/www".to_string(),
        None,
        &Some(RawFile {
            content: b"home".to_vec(),
            modified_secs: Some(5),
        }),
        &Some(vec![DirEntry::File {
            path: "/srv/www/a.css".to_string(),
            file: Some(RawFile {
                content: b"a{}".to_vec(),
                modified_secs: Some(6),
            }),
        }]),
    )
    .unwrap();
    match handle_request(&config(None, true), Some(&store), "/a.css", None) {
        Handling::Respond(Response::Hit { tag, mime, .. }) => {
            assert_eq!("6", tag);
            assert_eq!("text/css;charset=utf-8", mime);
        }
        _ => panic!("no hit"),
    }
    assert!(matches!(
        handle_request(&config(None, true), Some(&store), "/a.css", Some("6")),
        Handling::Respond(Response::NotModified)
    ));
    match handle_request(&config(None, true), Some(&store), "/users/42", None) {
        Handling::Respond(Response::Hit { tag, .. }) => assert_eq!("5", tag),
        _ => panic!("no hit"),
    }
    assert!(matches!(
        handle_request(&config(None, true), Some(&store), "/b.css", None),
        Handling::Respond(Response::NotFound)
    ));
    assert!(matches!(
        handle_request(&config(None, false), Some(&store), "/users/42", None),
        Handling::Respond(Response::NotFound)
    ));
}
