//! The lines that the server logs. A line is a row of pieces of text, each
//! with the colour it is shown in; writing it out is left to the caller.

use vstd::prelude::*;
use crate::args::Args;
use crate::text::{decimal, decimal_string, same_text, str_of, text_of};
use crate::util::{
    is_empty_root_url, resolve_path, resolves_to, spec_is_empty_root_url, spec_path_kind, spec_resolvable,
    PathKind,
};

verus! {

/// The colour of a piece of a log line.
#[derive(Clone, Copy, Debug, PartialEq, Eq, Structural)]
pub enum Tone {
    Plain,
    Yellow,
    Green,
    Red,
    Cyan,
}

/// A piece of a log line.
pub struct Piece {
    pub text: String,
    pub tone: Tone,
}

/// What a `Piece` stands for.
pub struct PieceView {
    pub text: Seq<char>,
    pub tone: Tone,
}

impl View for Piece {
    type V = PieceView;

    open spec fn view(&self) -> PieceView {
        PieceView { text: self.text@, tone: self.tone }
    }
}

/// What a log line stands for.
pub open spec fn line_view(line: Seq<Piece>) -> Seq<PieceView> {
    Seq::new(line.len(), |i: int| line[i]@)
}

/// What a row of log lines stands for.
pub open spec fn lines_view(lines: Seq<Vec<Piece>>) -> Seq<Seq<PieceView>> {
    Seq::new(lines.len(), |i: int| line_view(lines[i]@))
}

fn piece(text: &str, tone: Tone) -> (made: Piece)
    ensures
        made@ == (PieceView { text: text@, tone }),
{
    Piece { text: String::from_str(text), tone }
}

/// The line of the access log for a request: the method in yellow, the
/// status in green below 400 and in red from there on, the path in cyan.
pub open spec fn spec_access_line(status: u16, url: Seq<char>) -> Seq<PieceView> {
    seq![
        PieceView { text: "GET"@, tone: Tone::Yellow },
        PieceView { text: " "@, tone: Tone::Plain },
        PieceView {
            text: decimal(status as nat),
            tone: if status < 400 {
                Tone::Green
            } else {
                Tone::Red
            },
        },
        PieceView { text: " "@, tone: Tone::Plain },
        PieceView { text: url, tone: Tone::Cyan },
    ]
}

/// Writes the line of the access log for a request.
pub fn log_access(status: u16, url: &str) -> (line: Vec<Piece>)
    ensures
        line_view(line@) == spec_access_line(status, url@),
{
    let mut line: Vec<Piece> = Vec::new();
    line.push(piece("GET", Tone::Yellow));
    line.push(piece(" ", Tone::Plain));
    let tone = if status < 400 {
        Tone::Green
    } else {
        Tone::Red
    };
    line.push(Piece { text: decimal_string(status as u64), tone });
    line.push(piece(" ", Tone::Plain));
    line.push(piece(url, Tone::Cyan));
    assert(line_view(line@) =~= spec_access_line(status, url@));
    line
}

/// The address `http://ip:port`, indented by two spaces.
pub open spec fn spec_address(ip: Seq<char>, port: u16) -> Seq<char> {
    "  http://"@ + ip + ":"@ + decimal(port as nat)
}

/// The line that names an address the server listens on, with the base
/// path in yellow where one is in force.
pub open spec fn spec_listening_line(ip: Seq<char>, port: u16, base: Option<Seq<char>>) -> Seq<PieceView> {
    match base {
        Some(href) if !spec_is_empty_root_url(href) => seq![
            PieceView { text: spec_address(ip, port) + "  with base href "@, tone: Tone::Plain },
            PieceView { text: href, tone: Tone::Yellow },
        ],
        _ => seq![PieceView { text: spec_address(ip, port), tone: Tone::Plain }],
    }
}

/// Writes the line that names an address the server listens on.
pub fn log_listening(ip: &str, port: u16, base: &Option<String>) -> (line: Vec<Piece>)
    ensures
        line_view(line@) == spec_listening_line(ip@, port, text_of(*base)),
{
    let mut address = String::from_str("  http://");
    address.append(ip);
    address.append(":");
    address.append(decimal_string(port as u64).as_str());
    let mut line: Vec<Piece> = Vec::new();
    match base {
        Some(href) if !is_empty_root_url(href.as_str()) => {
            address.append("  with base href ");
            line.push(Piece { text: address, tone: Tone::Plain });
            line.push(piece(href.as_str(), Tone::Yellow));
            assert(line_view(line@) =~= spec_listening_line(ip@, port, text_of(*base)));
        },
        _ => {
            line.push(Piece { text: address, tone: Tone::Plain });
            assert(line_view(line@) =~= spec_listening_line(ip@, port, text_of(*base)));
        },
    }
    line
}

/// What is logged when the server has started, and the address to open in
/// a browser, if one is to be opened.
pub struct StartupLog {
    pub lines: Vec<Vec<Piece>>,
    pub open_url: Option<String>,
}

/// Whether the server listens on every address of the machine.
pub open spec fn spec_binds_all(host: Seq<char>) -> bool {
    host == "0.0.0.0"@
}

/// Tells whether the server listens on every address of the machine, so
/// that the address of the machine in its network is worth naming.
pub fn binds_all(args: &Args) -> (all: bool)
    ensures
        all == spec_binds_all(args.host@),
{
    same_text(args.host.as_str(), "0.0.0.0")
}

/// The line that says what is served, and how many files are held in
/// memory where they are.
pub open spec fn spec_serving_line(serve_path: Seq<char>, cached: Option<usize>) -> Seq<PieceView> {
    seq![
        PieceView { text: "Starting up lightstatic, serving: "@, tone: Tone::Yellow },
        PieceView { text: serve_path, tone: Tone::Cyan },
        PieceView {
            text: match cached {
                Some(count) => ", with "@ + decimal(count as nat) + " files cached."@,
                None => Seq::empty(),
            },
            tone: Tone::Yellow,
        },
    ]
}

/// The lines that name the addresses the server listens on: the address of
/// the machine in its network and the loopback address where it listens on
/// every address, else the address it was given.
pub open spec fn spec_listening_lines(args: Args, local_ip: Option<Seq<char>>) -> Seq<Seq<PieceView>> {
    if spec_binds_all(args.host@) {
        seq![
            spec_listening_line(local_ip->0, args.port, text_of(args.base_href)),
            spec_listening_line("127.0.0.1"@, args.port, text_of(args.base_href)),
        ]
    } else {
        seq![spec_listening_line(args.host@, args.port, text_of(args.base_href))]
    }
}

/// The line that says where fallback routing leads, where it is on.
pub open spec fn spec_html5_lines(args: Args) -> Seq<Seq<PieceView>> {
    if args.html5 {
        seq![
            seq![
                PieceView { text: "Html5 route mode rewrite to "@, tone: Tone::Plain },
                PieceView { text: args.index@, tone: Tone::Cyan },
            ],
        ]
    } else {
        Seq::empty()
    }
}

/// Everything that is logged when the server has started.
pub open spec fn spec_startup_lines(args: Args, cached: Option<usize>, local_ip: Option<Seq<char>>) -> Seq<
    Seq<PieceView>,
> {
    seq![
        spec_serving_line(args.serve_path->0@, cached),
        seq![PieceView { text: "Available on:"@, tone: Tone::Yellow }],
    ] + spec_listening_lines(args, local_ip) + spec_html5_lines(args) + seq![
        seq![
            PieceView { text: "Press "@, tone: Tone::Plain },
            PieceView { text: "ctrl+c"@, tone: Tone::Yellow },
            PieceView { text: " to stop it."@, tone: Tone::Plain },
        ],
    ]
}

/// The address to open in a browser: the loopback address where the server
/// listens on every address, else the address it was given. `None` where no
/// browser is to be opened.
pub open spec fn spec_open_url(args: Args) -> Option<Seq<char>> {
    if args.open {
        Some(
            "http://"@ + (if spec_binds_all(args.host@) {
                "127.0.0.1"@
            } else {
                args.host@
            }) + ":"@ + decimal(args.port as nat),
        )
    } else {
        None
    }
}

/// Writes what is logged when the server has started. `local_ip` is the
/// address of the machine in its network, which is named where the server
/// listens on every address.
pub fn log_startup_info(args: &Args, cached_store_file_size: Option<usize>, local_ip: Option<&str>) -> (log:
    StartupLog)
    requires
        args.serve_path is Some,
        spec_binds_all(args.host@) ==> local_ip is Some,
    ensures
        lines_view(log.lines@) == spec_startup_lines(*args, cached_store_file_size, str_of(local_ip)),
        text_of(log.open_url) == spec_open_url(*args),
{
    let mut cached = String::new();
    match cached_store_file_size {
        Some(count) => {
            cached.append(", with ");
            cached.append(decimal_string(count as u64).as_str());
            cached.append(" files cached.");
        },
        None => {},
    }
    let served = match &args.serve_path {
        Some(path) => path.as_str(),
        None => "",
    };
    let mut serving: Vec<Piece> = Vec::new();
    serving.push(piece("Starting up lightstatic, serving: ", Tone::Yellow));
    serving.push(piece(served, Tone::Cyan));
    serving.push(Piece { text: cached, tone: Tone::Yellow });
    assert(line_view(serving@) =~= spec_serving_line(args.serve_path->0@, cached_store_file_size));
    let mut available: Vec<Piece> = Vec::new();
    available.push(piece("Available on:", Tone::Yellow));
    assert(line_view(available@) =~= seq![PieceView { text: "Available on:"@, tone: Tone::Yellow }]);
    let mut lines: Vec<Vec<Piece>> = Vec::new();
    lines.push(serving);
    lines.push(available);
    let bind_all = binds_all(args);
    if bind_all {
        let ip = match local_ip {
            Some(ip) => ip,
            None => "",
        };
        lines.push(log_listening(ip, args.port, &args.base_href));
        lines.push(log_listening("127.0.0.1", args.port, &args.base_href));
    } else {
        lines.push(log_listening(args.host.as_str(), args.port, &args.base_href));
    }
    if args.html5 {
        let mut rewrite: Vec<Piece> = Vec::new();
        rewrite.push(piece("Html5 route mode rewrite to ", Tone::Plain));
        rewrite.push(piece(args.index.as_str(), Tone::Cyan));
        assert(line_view(rewrite@) =~= spec_html5_lines(*args)[0]);
        lines.push(rewrite);
    }
    let mut press: Vec<Piece> = Vec::new();
    press.push(piece("Press ", Tone::Plain));
    press.push(piece("ctrl+c", Tone::Yellow));
    press.push(piece(" to stop it.", Tone::Plain));
    assert(line_view(press@) =~= seq![
        PieceView { text: "Press "@, tone: Tone::Plain },
        PieceView { text: "ctrl+c"@, tone: Tone::Yellow },
        PieceView { text: " to stop it."@, tone: Tone::Plain },
    ]);
    lines.push(press);
    assert(lines_view(lines@) =~= spec_startup_lines(*args, cached_store_file_size, str_of(local_ip)));
    let open_url = if args.open {
        let mut url = String::from_str("http://");
        if bind_all {
            url.append("127.0.0.1");
        } else {
            url.append(args.host.as_str());
        }
        url.append(":");
        url.append(decimal_string(args.port as u64).as_str());
        Some(url)
    } else {
        None
    };
    StartupLog { lines, open_url }
}

/// Where log lines go.
pub enum LogTarget {
    /// To the terminal: errors to standard error, all else to standard output.
    Console,
    /// To files, one a day for each kind of line; each field is the path
    /// of its files up to the date.
    Files { info: String, error: String, access: String },
}

/// The files that log lines go to under the directory `prefix`.
pub fn log_files(prefix: &str) -> (target: LogTarget)
    ensures
        target matches LogTarget::Files { info, error, access } && info@ == prefix@ + "/info."@ && error@
            == prefix@ + "/error."@ && access@ == prefix@ + "/access."@,
{
    let mut info = String::from_str(prefix);
    info.append("/info.");
    let mut error = String::from_str(prefix);
    error.append("/error.");
    let mut access = String::from_str(prefix);
    access.append("/access.");
    LogTarget::Files { info, error, access }
}

/// Decides where log lines go: to files under the log directory, resolved
/// against `cwd`, where one is given, else to the terminal. `None` only
/// where the log directory is taken from a home directory that cannot be
/// found.
pub fn initialize_log(args: &Args, cwd: &str) -> (target: Option<LogTarget>)
    requires
        args.log_dir matches Some(dir) ==> spec_resolvable(cwd@, dir@),
    ensures
        args.log_dir is None ==> target matches Some(LogTarget::Console),
        args.log_dir matches Some(dir) ==> (target matches Some(found) ==> found matches LogTarget::Files {
            info,
            error,
            access,
        } && exists|prefix: Seq<char>|
            resolves_to(cwd@, dir@, prefix) && info@ == prefix + "/info."@ && error@ == prefix
                + "/error."@ && access@ == prefix + "/access."@),
        args.log_dir matches Some(dir) ==> (spec_path_kind(dir@) != PathKind::Home ==> target is Some),
{
    match &args.log_dir {
        Some(dir) => match resolve_path(cwd, dir.as_str()) {
            Some(prefix) => {
                let target = log_files(prefix.as_str());
                assert(resolves_to(cwd@, dir@, prefix@));
                Some(target)
            },
            None => None,
        },
        None => Some(LogTarget::Console),
    }
}

} // verus!
