use lightstatic::args::{get_args, normalize_base_href, plain_output, Args, ArgsError};
use lightstatic::config::Config;
use lightstatic::logger::{
    binds_all, initialize_log, log_access, log_files, log_listening, log_startup_info, LogTarget,
    Piece, Tone,
};

fn args() -> Args {
    Args {
        serve_path: Some("/srv/www".to_string()),
        host: "0.0.0.0".to_string(),
        port: 8080,
        gzip: false,
        open: false,
        html5: false,
        index: "index.html".to_string(),
        delay: 0,
        cache_in_memory: false,
        regex_immutable: None,
        log_dir: None,
        base_href: None,
        no_access: false,
        no_color: false,
        signal: None,
    }
}

#[test]
fn base_path_is_kept_between_slashes() {
    assert_eq!(Some("/app/".to_string()), normalize_base_href(Some("app".to_string())));
    assert_eq!(Some("/app/".to_string()), normalize_base_href(Some("/app".to_string())));
    assert_eq!(Some("/app/".to_string()), normalize_base_href(Some("app/".to_string())));
    assert_eq!(Some("/app/".to_string()), normalize_base_href(Some("/app/".to_string())));
    assert_eq!(Some("/a/b/".to_string()), normalize_base_href(Some("a/b".to_string())));
    assert_eq!(Some("/ app /".to_string()), normalize_base_href(Some(" app ".to_string())));
    assert_eq!(Some("//".to_string()), normalize_base_href(Some("//".to_string())));
}

#[test]
fn base_path_of_the_root_is_none() {
    assert_eq!(None, normalize_base_href(None));
    assert_eq!(None, normalize_base_href(Some("".to_string())));
    assert_eq!(None, normalize_base_href(Some("/".to_string())));
    assert_eq!(None, normalize_base_href(Some(" / ".to_string())));
    assert_eq!(None, normalize_base_href(Some("   ".to_string())));
}

#[test]
fn command_line_with_a_pattern_needs_the_cache() {
    let mut given = args();
    given.regex_immutable = Some("x".to_string());
    match get_args(given) {
        Err(error) => {
            assert_eq!(ArgsError::ImmutableWithoutCache, error);
            assert_eq!("--regex-immutable only effect with --cache-in-memory", error.message());
        }
        Ok(_) => panic!("accepted"),
    }
    let mut given = args();
    given.regex_immutable = Some("x".to_string());
    given.cache_in_memory = true;
    assert!(get_args(given).is_ok());
}

#[test]
fn command_line_needs_a_path_or_a_signal() {
    let mut given = args();
    given.serve_path = None;
    match get_args(given) {
        Err(error) => {
            assert_eq!(ArgsError::MissingServePath, error);
            assert_eq!(
                "error: missing serve path\n\nUSAGE:\n    lightstatic [OPTIONS] <PATH>\n\nFor more information try --help\n",
                error.message()
            );
        }
        Ok(_) => panic!("accepted"),
    }
    let mut given = args();
    given.serve_path = None;
    given.signal = Some("stop".to_string());
    assert!(get_args(given).is_ok());
    let mut given = args();
    given.serve_path = None;
    given.regex_immutable = Some("x".to_string());
    assert!(matches!(get_args(given), Err(ArgsError::ImmutableWithoutCache)));
}

#[test]
fn checked_command_line_differs_in_the_base_path_only() {
    let mut given = args();
    given.base_href = Some("app".to_string());
    given.port = 9000;
    given.html5 = true;
    given.log_dir = Some("/var/log".to_string());
    let checked = get_args(given).unwrap();
    assert_eq!(Some("/app/".to_string()), checked.base_href);
    assert_eq!(9000, checked.port);
    assert!(checked.html5);
    assert_eq!(Some("/var/log".to_string()), checked.log_dir);
    assert_eq!(Some("/srv/www".to_string()), checked.serve_path);
    assert_eq!("index.html", checked.index);
    let mut given = args();
    given.base_href = Some("/".to_string());
    assert_eq!(None, get_args(given).unwrap().base_href);
}

#[test]
fn output_is_plain_for_files_and_on_request() {
    let mut given = args();
    assert!(!plain_output(&given));
    given.no_color = true;
    assert!(plain_output(&given));
    given.no_color = false;
    given.log_dir = Some("/var/log".to_string());
    assert!(plain_output(&given));
}

#[test]
fn config_takes_over_the_command_line() {
    let mut given = args();
    given.no_access = true;
    given.delay = 3;
    given.gzip = true;
    given.html5 = true;
    given.base_href = Some("/app/".to_string());
    let config = Config::new(&given, "/home/u").unwrap();
    assert_eq!(3, config.delay);
    assert!(!config.should_log_access);
    assert_eq!("/srv/www", config.root_dir);
    assert_eq!(Some("/app/".to_string()), config.base_href);
    assert!(config.html5);
    assert_eq!("index.html", config.index);
    assert_eq!("/srv/www/index.html", config.index_href);
    assert!(config.gzip);
}

#[test]
fn config_resolves_the_served_directory() {
    let mut given = args();
    given.serve_path = Some("site/../public".to_string());
    given.index = "/elsewhere/index.html".to_string();
    let config = Config::new(&given, "/home/u").unwrap();
    assert_eq!("/home/u/public", config.root_dir);
    assert_eq!("/elsewhere/index.html", config.index_href);
    assert!(config.should_log_access);
}

fn shown(line: &[Piece]) -> Vec<(String, Tone)> {
    line.iter().map(|p| (p.text.clone(), p.tone)).collect()
}

fn piece(text: &str, tone: Tone) -> (String, Tone) {
    (text.to_string(), tone)
}

#[test]
fn access_line_is_green_below_400_and_red_from_there() {
    assert_eq!(
        vec![
            piece("GET", Tone::Yellow),
            piece(" ", Tone::Plain),
            piece("200", Tone::Green),
            piece(" ", Tone::Plain),
            piece("/a/b.txt", Tone::Cyan),
        ],
        shown(&log_access(200, "/a/b.txt"))
    );
    assert_eq!(piece("399", Tone::Green), shown(&log_access(399, "/"))[2]);
    assert_eq!(piece("400", Tone::Red), shown(&log_access(400, "/"))[2]);
    assert_eq!(piece("404", Tone::Red), shown(&log_access(404, "/"))[2]);
    assert_eq!(piece("500", Tone::Red), shown(&log_access(500, "/"))[2]);
    assert_eq!(piece("304", Tone::Green), shown(&log_access(304, "/"))[2]);
}

#[test]
fn listening_line_names_the_base_path_where_one_is_in_force() {
    assert_eq!(
        vec![piece("  http://127.0.0.1:8080", Tone::Plain)],
        shown(&log_listening("127.0.0.1", 8080, &None))
    );
    assert_eq!(
        vec![piece("  http://127.0.0.1:8080", Tone::Plain)],
        shown(&log_listening("127.0.0.1", 8080, &Some("/".to_string())))
    );
    assert_eq!(
        vec![
            piece("  http://10.0.0.7:80  with base href ", Tone::Plain),
            piece("/app/", Tone::Yellow),
        ],
        shown(&log_listening("10.0.0.7", 80, &Some("/app/".to_string())))
    );
}

#[test]
fn startup_log_of_a_server_on_every_address() {
    let mut given = args();
    given.html5 = true;
    given.open = true;
    assert!(binds_all(&given));
    let log = log_startup_info(&given, Some(12), Some("192.168.1.5"));
    let lines: Vec<Vec<(String, Tone)>> = log.lines.iter().map(|l| shown(l)).collect();
    assert_eq!(
        vec![
            vec![
                piece("Starting up lightstatic, serving: ", Tone::Yellow),
                piece("/srv/www", Tone::Cyan),
                piece(", with 12 files cached.", Tone::Yellow),
            ],
            vec![piece("Available on:", Tone::Yellow)],
            vec![piece("  http://192.168.1.5:8080", Tone::Plain)],
            vec![piece("  http://127.0.0.1:8080", Tone::Plain)],
            vec![
                piece("Html5 route mode rewrite to ", Tone::Plain),
                piece("index.html", Tone::Cyan),
            ],
            vec![
                piece("Press ", Tone::Plain),
                piece("ctrl+c", Tone::Yellow),
                piece(" to stop it.", Tone::Plain),
            ],
        ],
        lines
    );
    assert_eq!(Some("http://127.0.0.1:8080".to_string()), log.open_url);
}

#[test]
fn startup_log_of_a_server_on_one_address() {
    let mut given = args();
    given.host = "10.1.2.3".to_string();
    given.port = 3000;
    given.base_href = Some("/app/".to_string());
    assert!(!binds_all(&given));
    let log = log_startup_info(&given, None, None);
    let lines: Vec<Vec<(String, Tone)>> = log.lines.iter().map(|l| shown(l)).collect();
    assert_eq!(
        vec![
            vec![
                piece("Starting up lightstatic, serving: ", Tone::Yellow),
                piece("/srv/www", Tone::Cyan),
                piece("", Tone::Yellow),
            ],
            vec![piece("Available on:", Tone::Yellow)],
            vec![
                piece("  http://10.1.2.3:3000  with base href ", Tone::Plain),
                piece("/app/", Tone::Yellow),
            ],
            vec![
                piece("Press ", Tone::Plain),
                piece("ctrl+c", Tone::Yellow),
                piece(" to stop it.", Tone::Plain),
            ],
        ],
        lines
    );
    assert_eq!(None, log.open_url);
    given.open = true;
    assert_eq!(
        Some("http://10.1.2.3:3000".to_string()),
        log_startup_info(&given, None, None).open_url
    );
}

#[test]
fn logs_go_to_the_terminal_or_to_files_under_the_log_directory() {
    let mut given = args();
    assert!(matches!(initialize_log(&given, "/home/u"), Some(LogTarget::Console)));
    given.log_dir = Some("/var/log/site".to_string());
    match initialize_log(&given, "/home/u") {
        Some(LogTarget::Files {
            info,
            error,
            access,
        }) => {
            assert_eq!("/var/log/site/info.", info);
            assert_eq!("/var/log/site/error.", error);
            assert_eq!("/var/log/site/access.", access);
        }
        _ => panic!("no files"),
    }
    given.log_dir = Some("logs".to_string());
    match initialize_log(&given, "/home/u") {
        Some(LogTarget::Files { info, .. }) => assert_eq!("/home/u/logs/info.", info),
        _ => panic!("no files"),
    }
    match log_files("/l") {
        LogTarget::Files {
            info,
            error,
            access,
        } => {
            assert_eq!("/l/info.", info);
            assert_eq!("/l/error.", error);
            assert_eq!("/l/access.", access);
        }
        LogTarget::Console => panic!("no files"),
    }
}
