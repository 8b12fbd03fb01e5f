use lightstatic::path::{
    extension, is_absolute, join, looks_like_file, normalize, skip_chars, starts_with,
};
use lightstatic::text::{chars_of, decimal_string, same_text, trim};
use std::path::{Path, PathBuf};

fn normal(p: &str) -> String {
    normalize(p).into_iter().collect()
}

#[test]
fn normalize_drops_empty_and_dot_segments() {
    assert_eq!("/a/b", normal("/a/b"));
    assert_eq!("/a/b", normal("/a//b"));
    assert_eq!("/a/b", normal("/a/./b"));
    assert_eq!("/a/b", normal("/a/b/"));
    assert_eq!("/a/b", normal("/a/b/."));
    assert_eq!("/a/b", normal("//a/b"));
    assert_eq!("/", normal("/"));
    assert_eq!("/", normal("/."));
    assert_eq!("", normal(""));
    assert_eq!("a/b", normal("a/b"));
    assert_eq!("a/b", normal("a/./b/"));
    assert_eq!(".", normal("."));
    assert_eq!(".", normal("./"));
    assert_eq!("./a", normal("./a"));
    assert_eq!("./a", normal(".//a/."));
    assert_eq!("/a/../b", normal("/a/../b"));
    assert_eq!("..", normal(".."));
    assert_eq!(".a", normal(".a"));
    assert_eq!("/srv/é/x.txt", normal("/srv//é/./x.txt"));
}

#[test]
fn normalize_agrees_with_path_components() {
    let samples = [
        "", "/", ".", "./", "..", "a", "/a", "a/", "./a", "a/.", "/a//b/./c/", "//", "/./a", ".a/b",
        "a/../b", "./.", "/..", "a//", ".//.", "/a/b.txt", "x/./y/../z/",
    ];
    for s in samples {
        let expected: PathBuf = Path::new(s).components().collect();
        assert_eq!(expected.to_str().unwrap(), normal(s), "for {:?}", s);
    }
}

#[test]
fn starts_with_counts_whole_components() {
    assert!(starts_with("/etc/passwd", "/etc"));
    assert!(starts_with("/etc/passwd", "/etc/"));
    assert!(starts_with("/etc/passwd", "/etc/passwd"));
    assert!(starts_with("/etc/passwd", "/etc/passwd/"));
    assert!(starts_with("/etc/passwd", "/etc//passwd"));
    assert!(!starts_with("/etc/passwd", "/e"));
    assert!(!starts_with("/etc/passwd", "/etc/passwd.txt"));
    assert!(!starts_with("/etc", "/etc/passwd"));
    assert!(!starts_with("/application/x", "/app/"));
    assert!(starts_with("/app/users/42", "/app/"));
    assert!(starts_with("/app", "/app/"));
    assert!(starts_with("/a", ""));
    assert!(starts_with("", ""));
    assert!(!starts_with("", "/"));
    assert!(!starts_with("a/b", "/a"));
    assert!(!starts_with("/a/b", "a"));
    assert!(starts_with("./a", "."));
    assert!(!starts_with("a", "."));
}

#[test]
fn starts_with_agrees_with_std() {
    let samples = [
        "", "/", ".", "./", "a", "/a", "a/", "./a", "/a/b", "/a//b/", "a/b", "/ab", "/a/./b", "..",
        "/a/..", "./a/b", "/app/", "/app/users/42", "/application",
    ];
    for p in samples {
        for b in samples {
            assert_eq!(
                Path::new(p).starts_with(b),
                starts_with(p, b),
                "for {:?} and {:?}",
                p,
                b
            );
        }
    }
}

#[test]
fn join_follows_the_rules_of_push() {
    assert_eq!("/etc/passwd", join("/etc", "passwd"));
    assert_eq!("/etc/passwd", join("/etc/", "passwd"));
    assert_eq!("/passwd", join("/etc", "/passwd"));
    assert_eq!("passwd", join("", "passwd"));
    assert_eq!("/etc/", join("/etc", ""));
    assert_eq!("/", join("/", ""));
    assert_eq!("", join("", ""));
    assert_eq!("/srv/www/a//b", join("/srv/www", "a//b"));
}

#[test]
fn join_agrees_with_std() {
    let samples = ["", "/", "a", "/a", "a/", "/a/b", "/a/b/", "x/y", "/x", "."];
    for b in samples {
        for r in samples {
            assert_eq!(
                Path::new(b).join(r).to_str().unwrap(),
                join(b, r),
                "for {:?} and {:?}",
                b,
                r
            );
        }
    }
}

#[test]
fn extension_is_what_follows_the_last_dot_of_the_file_name() {
    assert_eq!(Some("txt".to_string()), extension("/a/b.txt"));
    assert_eq!(Some("gz".to_string()), extension("/a/b.tar.gz"));
    assert_eq!(Some("html".to_string()), extension("index.html"));
    assert_eq!(None, extension("/a/b"));
    assert_eq!(None, extension("/a/.bashrc"));
    assert_eq!(Some("d".to_string()), extension("/a/.bashrc.d"));
    assert_eq!(Some("".to_string()), extension("/a/b."));
    assert_eq!(None, extension("/a/.."));
    assert_eq!(None, extension("/"));
    assert_eq!(None, extension(""));
    assert_eq!(Some("txt".to_string()), extension("/a/b.txt/"));
    assert_eq!(Some("txt".to_string()), extension("/a/b.txt/."));
    assert_eq!(None, extension("/a.d/b"));
    assert_eq!(Some("é".to_string()), extension("/a/ü.é"));
}

#[test]
fn extension_agrees_with_std() {
    let samples = [
        "", "/", ".", "..", "a", "a.b", ".a", ".a.b", "a.", "a..", "/x/a.b.c", "/x.y/a", "/x/a.b/",
        "/x/a.b/.", "/x/..", "a.b/..", "...", "/x/.../", "ü.é",
    ];
    for s in samples {
        let expected = Path::new(s)
            .extension()
            .map(|e| e.to_str().unwrap().to_string());
        assert_eq!(expected, extension(s), "for {:?}", s);
    }
}

#[test]
fn looks_like_file_needs_a_dot_behind_the_last_slash() {
    assert!(looks_like_file("/app/logo.png"));
    assert!(!looks_like_file("/app/users/42"));
    assert!(!looks_like_file("/app.v2/users"));
    assert!(looks_like_file("/app.v2"));
    assert!(looks_like_file("."));
    assert!(looks_like_file("/a/."));
    assert!(!looks_like_file("/a./"));
    assert!(!looks_like_file(""));
    assert!(!looks_like_file("/"));
    assert!(looks_like_file("a.b"));
}

#[test]
fn skip_chars_counts_characters() {
    assert_eq!("users/42", skip_chars("/app/users/42", 5));
    assert_eq!("", skip_chars("/app/", 5));
    assert_eq!("", skip_chars("/app", 5));
    assert_eq!("", skip_chars("", 1));
    assert_eq!("a", skip_chars("/a", 1));
    assert_eq!("x", skip_chars("éx", 1));
    assert_eq!("/a", skip_chars("/a", 0));
}

#[test]
fn decimal_string_writes_numbers() {
    assert_eq!("0", decimal_string(0));
    assert_eq!("7", decimal_string(7));
    assert_eq!("10", decimal_string(10));
    assert_eq!("1700000000", decimal_string(1_700_000_000));
    assert_eq!("18446744073709551615", decimal_string(u64::MAX));
    for n in [1u64, 9, 11, 99, 100, 101, 12345, 1 << 40] {
        assert_eq!(n.to_string(), decimal_string(n));
    }
}

#[test]
fn trim_removes_white_space_at_both_ends() {
    assert_eq!("a", trim(" a "));
    assert_eq!("a b", trim("\t a b\n"));
    assert_eq!("", trim(""));
    assert_eq!("", trim("   "));
    assert_eq!("/", trim(" / "));
    assert_eq!("x", trim("\u{3000}x\u{a0}"));
    for s in ["", " ", "a", " a", "a ", "\r\n a \u{2028}", "\u{85}b\u{1680}", "\u{200b}c"] {
        assert_eq!(s.trim(), trim(s), "for {:?}", s);
    }
}

#[test]
fn same_text_and_chars() {
    assert!(same_text("abc", "abc"));
    assert!(!same_text("abc", "abd"));
    assert!(!same_text("abc", "ab"));
    assert!(same_text("", ""));
    assert_eq!(vec!['a', 'é', 'z'], chars_of("aéz"));
}

const SPELLINGS: [&str; 24] = [
    "", "/", ".", "./", "..", "a", "/a", "a/", "./a", "a/.", "/a/b", "/a//b/", "//a/b", "/a/./b",
    "a/b", "/ab", "/a/..", "./a/b", "/app/", "/app/users/42", "/application", "/a/b.txt",
    "/a/b.txt/.", "/x/.hidden",
];

#[test]
fn paths_agree_with_async_std() {
    for p in SPELLINGS {
        let theirs = async_std::path::Path::new(p);
        assert_eq!(
            theirs.extension().map(|e| e.to_str().unwrap().to_string()),
            extension(p),
            "extension of {:?}",
            p
        );
        assert_eq!(theirs.is_absolute(), is_absolute(p), "is_absolute of {:?}", p);
        for q in SPELLINGS {
            assert_eq!(theirs.starts_with(q), starts_with(p, q), "{:?} starts with {:?}", p, q);
            assert_eq!(theirs.join(q).to_str().unwrap(), join(p, q), "{:?} joined by {:?}", p, q);
            assert_eq!(
                async_std::path::PathBuf::from(p) == async_std::path::PathBuf::from(q),
                normalize(p) == normalize(q),
                "{:?} against {:?}",
                p,
                q
            );
        }
    }
}

#[test]
fn absolute_path_starts_at_the_root() {
    assert!(is_absolute("/"));
    assert!(is_absolute("/a/b"));
    assert!(is_absolute("//a"));
    assert!(!is_absolute(""));
    assert!(!is_absolute("a/b"));
    assert!(!is_absolute("./a"));
    assert!(!is_absolute("~a"));
}
