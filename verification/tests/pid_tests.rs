use lightstatic::pid::{
    handle_arg_signal, handle_pids, keep_pid, parse_pid, remove_pid, signal_for, signal_targets,
    write_pid, PidFileUpdate, Signal, PID_FILE,
};
use lightstatic::text::split;

fn written(update: PidFileUpdate) -> Option<String> {
    match update {
        PidFileUpdate::Remove => None,
        PidFileUpdate::Write(content) => Some(content),
    }
}

#[test]
fn action_means_a_signal_in_any_case() {
    assert_eq!(Some(Signal::Stop), signal_for("stop"));
    assert_eq!(Some(Signal::Stop), signal_for("STOP"));
    assert_eq!(Some(Signal::Stop), signal_for("Stop"));
    assert_eq!(Some(Signal::Refresh), signal_for("refresh"));
    assert_eq!(Some(Signal::Refresh), signal_for("ReFresh"));
    assert_eq!(None, signal_for(""));
    assert_eq!(None, signal_for("stop "));
    assert_eq!(None, signal_for("sto"));
    assert_eq!(None, signal_for("reload"));
    assert_eq!(None, signal_for("STOp!"));
    assert_eq!(None, signal_for("\u{13}TOP"));
    for action in ["stop", "sTOP", "Refresh", "REFRESH", "st0p", "ſtop", "refreſh", "STOP\n"] {
        let lower = action.to_lowercase();
        let expected = match lower.as_str() {
            "stop" => Some(Signal::Stop),
            "refresh" => Some(Signal::Refresh),
            _ => None,
        };
        assert_eq!(expected, signal_for(action), "for {:?}", action);
    }
}

#[test]
fn line_writes_a_process_number() {
    assert_eq!(Some(1234), parse_pid("1234"));
    assert_eq!(Some(0), parse_pid("0"));
    assert_eq!(Some(7), parse_pid("+7"));
    assert_eq!(Some(-7), parse_pid("-7"));
    assert_eq!(Some(7), parse_pid("0007"));
    assert_eq!(Some(0), parse_pid("-0"));
    assert_eq!(Some(2147483647), parse_pid("2147483647"));
    assert_eq!(Some(-2147483648), parse_pid("-2147483648"));
    assert_eq!(Some(1), parse_pid("00000000000000000000000001"));
}

#[test]
fn line_that_writes_no_process_number() {
    assert_eq!(None, parse_pid(""));
    assert_eq!(None, parse_pid("+"));
    assert_eq!(None, parse_pid("-"));
    assert_eq!(None, parse_pid(" 12"));
    assert_eq!(None, parse_pid("12 "));
    assert_eq!(None, parse_pid("12a"));
    assert_eq!(None, parse_pid("1.2"));
    assert_eq!(None, parse_pid("--1"));
    assert_eq!(None, parse_pid("2147483648"));
    assert_eq!(None, parse_pid("-2147483649"));
    assert_eq!(None, parse_pid("99999999999999999999999999"));
    assert_eq!(None, parse_pid("٣"));
}

#[test]
fn parse_pid_agrees_with_std() {
    for s in [
        "", "0", "1", "-1", "+1", "+-1", "12345", "012", "2147483647", "2147483648", "-2147483648",
        "-2147483649", "4294967296", "1e3", "0x10", " 1", "1\r", "+", "-", "٣", "１",
    ] {
        assert_eq!(s.parse::<i32>().ok(), parse_pid(s), "for {:?}", s);
    }
}

#[test]
fn signalled_process_stays_unless_it_was_stopped_or_is_gone() {
    assert!(keep_pid(0, Signal::Refresh));
    assert!(!keep_pid(-1, Signal::Refresh));
    assert!(!keep_pid(0, Signal::Stop));
    assert!(!keep_pid(-1, Signal::Stop));
    assert!(!keep_pid(1, Signal::Refresh));
}

#[test]
fn targets_are_the_lines_that_write_a_number() {
    assert_eq!(vec![Some(12), Some(34)], signal_targets("12\n34"));
    assert_eq!(vec![Some(12), None, Some(34), None], signal_targets("12\n\n34\n"));
    assert_eq!(vec![None], signal_targets(""));
    assert_eq!(vec![None, Some(5)], signal_targets("x\n5"));
}

#[test]
fn file_after_a_refresh_keeps_the_processes_that_took_the_signal() {
    let content = "12\nabc\n34\n56";
    let outcomes = vec![Some(0), None, Some(-1), Some(0)];
    assert_eq!(
        Some("12\n56".to_string()),
        written(handle_arg_signal(content, &outcomes, Signal::Refresh))
    );
    assert_eq!(None, written(handle_arg_signal(content, &outcomes, Signal::Stop)));
    let gone = vec![Some(-1), None, Some(-1), Some(3)];
    assert_eq!(None, written(handle_arg_signal(content, &gone, Signal::Refresh)));
    assert_eq!(
        Some("7".to_string()),
        written(handle_arg_signal("7", &vec![Some(0)], Signal::Refresh))
    );
    assert_eq!(None, written(handle_arg_signal("", &vec![None], Signal::Refresh)));
}

#[test]
fn file_is_removed_when_no_line_is_left() {
    assert_eq!(None, written(handle_pids(&vec![])));
    assert_eq!(Some("1".to_string()), written(handle_pids(&vec!["1".to_string()])));
    assert_eq!(
        Some("1\n22\n333".to_string()),
        written(handle_pids(&vec!["1".to_string(), "22".to_string(), "333".to_string()]))
    );
    assert_eq!(
        Some("\n".to_string()),
        written(handle_pids(&vec!["".to_string(), "".to_string()]))
    );
}

#[test]
fn starting_server_adds_its_number_on_a_line_of_its_own() {
    assert_eq!("4242", write_pid(4242, 0));
    assert_eq!("\n4242", write_pid(4242, 5));
    assert_eq!("\n0", write_pid(0, 1));
    assert_eq!("4294967295", write_pid(u32::MAX, 0));
}

#[test]
fn leaving_server_takes_its_line_and_the_blank_ones() {
    assert_eq!(Some("12\n56".to_string()), written(remove_pid("12\n34\n56", 34)));
    assert_eq!(Some("12\n56".to_string()), written(remove_pid("12\n\n34\n  \n56\n", 34)));
    assert_eq!(None, written(remove_pid("34", 34)));
    assert_eq!(None, written(remove_pid("", 34)));
    assert_eq!(None, written(remove_pid("34\n34\n", 34)));
    assert_eq!(Some("12\n 34".to_string()), written(remove_pid("12\n 34", 34)));
    assert_eq!(Some("12\n56".to_string()), written(remove_pid("12\n56", 34)));
    assert_eq!(Some("034".to_string()), written(remove_pid("034\n34", 34)));
}

#[test]
fn split_cuts_at_every_separator() {
    assert_eq!(vec!["a", "b"], split("a\nb", '\n'));
    assert_eq!(vec!["a", "", "b", ""], split("a\n\nb\n", '\n'));
    assert_eq!(vec![""], split("", '\n'));
    assert_eq!(vec!["", ""], split("\n", '\n'));
    assert_eq!(vec!["é", "ü"], split("é/ü", '/'));
    for s in ["", "a", "\n", "a\nb\n", "\n\n", "x\ny\n\nz"] {
        let expected: Vec<&str> = s.split('\n').collect();
        assert_eq!(expected, split(s, '\n'), "for {:?}", s);
    }
}

#[test]
fn pid_file_has_a_name() {
    assert_eq!("lightstatic.pid", PID_FILE);
}
