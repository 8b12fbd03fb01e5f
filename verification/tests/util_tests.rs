use lightstatic::util::{is_empty_root_url, path_kind, resolve_from, resolve_path, PathKind};
use std::path::PathBuf;

#[test]
fn test_resolve_path() {
    let home = PathBuf::from(dirs::home_dir().unwrap());
    let cwd = PathBuf::from("/pa/pb/pc/");
    let base = "/pa/pb/pc/";
    assert_eq!("/a/b/c", resolve_path(base, "/a/b/c").unwrap());
    assert_eq!(
        home.join("a/b/c"),
        PathBuf::from(resolve_path(base, "~a/b/c").unwrap())
    );
    assert_eq!(
        cwd.join("a/b/c"),
        PathBuf::from(resolve_path(base, "a/b/c").unwrap())
    );
    assert_eq!(
        cwd.join("a/b/c"),
        PathBuf::from(resolve_path(base, "./a/b/c").unwrap())
    );
    assert_eq!("/pa/pb/a/b/c", resolve_path(base, "../a/b/c").unwrap());
    assert_eq!("/pa/a/b/c", resolve_path(base, "../../a/b/c").unwrap());
    assert_eq!("/a/b/c", resolve_path(base, "../../../a/b/c").unwrap());
    assert_eq!("/a/b/c", resolve_path(base, "../../../../a/b/c").unwrap());
}

#[test]
fn resolve_path_absolutizes_relative_paths() {
    assert_eq!("/pa/pb/pc/a/b/c", resolve_path("/pa/pb/pc/", "a/b/c").unwrap());
    assert_eq!("/pa/pb/pc/a/b/c", resolve_path("/pa/pb/pc", "./a/b/c").unwrap());
    assert_eq!("/pa/x", resolve_path("/pa/pb", "../x").unwrap());
}

#[test]
fn resolve_from_uses_what_it_is_given() {
    assert_eq!(Some("/a/b".to_string()), resolve_from("/a/b", None, None));
    assert_eq!(
        Some("/home/u/docs".to_string()),
        resolve_from("~docs", Some("/home/u"), None)
    );
    assert_eq!(
        Some("/home/u/docs".to_string()),
        resolve_from("~docs", Some("/home/u/"), None)
    );
    assert_eq!(None, resolve_from("~docs", None, Some("/x".to_string())));
    assert_eq!(
        Some("/cwd/rel".to_string()),
        resolve_from("rel", Some("/home/u"), Some("/cwd/rel".to_string()))
    );
    assert_eq!(None, resolve_from("rel", Some("/home/u"), None));
}

#[test]
fn path_kind_goes_by_the_first_character() {
    assert_eq!(PathKind::Absolute, path_kind("/a"));
    assert_eq!(PathKind::Home, path_kind("~a"));
    assert_eq!(PathKind::Relative, path_kind("a"));
    assert_eq!(PathKind::Relative, path_kind("./a"));
    assert_eq!(PathKind::Relative, path_kind("é"));
}

#[test]
fn empty_root_url_is_empty_or_a_lone_slash() {
    assert!(is_empty_root_url(""));
    assert!(is_empty_root_url("/"));
    assert!(!is_empty_root_url("a"));
    assert!(!is_empty_root_url("//"));
    assert!(!is_empty_root_url("/a"));
    assert!(!is_empty_root_url(" "));
    assert!(!is_empty_root_url("é"));
}

#[test]
fn resolve_path_always_resolves_what_needs_no_home() {
    for (base, file) in [
        ("/", "."),
        ("/", ".."),
        ("/", "../.."),
        ("/a", ".."),
        ("/a/b", "../../.."),
        ("//", "x"),
        ("/a/", "./"),
        ("", "/abs"),
        ("rel", "/abs/./x"),
    ] {
        assert!(resolve_path(base, file).is_some(), "{:?} against {:?}", file, base);
    }
    assert_eq!("/", resolve_path("/", "..").unwrap());
    assert_eq!("/", resolve_path("/a", "..").unwrap());
    assert_eq!("/a", resolve_path("/a", ".").unwrap());
    assert_eq!("/abs/./x", resolve_path("rel", "/abs/./x").unwrap());
}
