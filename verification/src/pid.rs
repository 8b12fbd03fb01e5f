//! The file in which running servers record their process numbers, one to
//! a line, and the signals that are sent to them. Reading and writing the
//! file and sending the signals are left to the caller; what is decided
//! here is which signal an action means, which lines name a process, and
//! what the file holds afterwards.

use vstd::prelude::*;
use crate::text::{
    chars_of, decimal, decimal_string, same_text, spec_split, spec_trim, split, texts, trim,
};

verus! {

/// The name of the file, in the directory for temporary files.
pub const PID_FILE: &'static str = "lightstatic.pid";

/// A signal that a running server acts on.
#[derive(Clone, Copy, Debug, PartialEq, Eq, Structural)]
pub enum Signal {
    /// The server is to stop.
    Stop,
    /// The server is to read its files anew.
    Refresh,
}

/// Whether two characters are the same letter, the case of the letters
/// from `a` to `z` aside.
pub open spec fn same_letter(x: char, y: char) -> bool {
    ||| x == y
    ||| 'A' as u32 <= x as u32 <= 'Z' as u32 && y as u32 == x as u32 + 32
    ||| 'A' as u32 <= y as u32 <= 'Z' as u32 && x as u32 == y as u32 + 32
}

/// Whether two texts are the same, the case of their letters aside.
pub open spec fn same_word(a: Seq<char>, b: Seq<char>) -> bool {
    a.len() == b.len() && forall|i: int| 0 <= i < a.len() ==> same_letter(a[i], b[i])
}

fn is_word(action: &Vec<char>, word: &str) -> (same: bool)
    ensures
        same == same_word(action@, word@),
{
    let letters = chars_of(word);
    if action.len() != letters.len() {
        return false;
    }
    let mut i: usize = 0;
    while i < action.len()
        invariant
            i <= action.len() == letters.len(),
            letters@ == word@,
            forall|j: int| 0 <= j < i ==> same_letter(action@[j], word@[j]),
        decreases action.len() - i,
    {
        let x = action[i];
        let y = letters[i];
        let a = x as u32;
        let b = y as u32;
        let same = x == y || ('A' as u32 <= a && a <= 'Z' as u32 && b == a + 32) || ('A' as u32 <= b && b
            <= 'Z' as u32 && a == b + 32);
        if !same {
            assert(!same_letter(action@[i as int], word@[i as int]));
            return false;
        }
        i += 1;
    }
    true
}

/// The signal that an action means: `stop` or `refresh`, in any case.
pub open spec fn spec_signal_for(action: Seq<char>) -> Option<Signal> {
    if same_word(action, "stop"@) {
        Some(Signal::Stop)
    } else if same_word(action, "refresh"@) {
        Some(Signal::Refresh)
    } else {
        None
    }
}

/// Tells which signal an action means, if any.
pub fn signal_for(action: &str) -> (signal: Option<Signal>)
    ensures
        signal == spec_signal_for(action@),
{
    let letters = chars_of(action);
    if is_word(&letters, "stop") {
        Some(Signal::Stop)
    } else if is_word(&letters, "refresh") {
        Some(Signal::Refresh)
    } else {
        None
    }
}

/// Whether `c` is one of the digits from `0` to `9`.
pub open spec fn is_digit(c: char) -> bool {
    '0' as u32 <= c as u32 <= '9' as u32
}

/// The number that a row of digits writes.
pub open spec fn digits_value(digits: Seq<char>) -> nat
    decreases digits.len(),
{
    if digits.len() == 0 {
        0
    } else {
        digits_value(digits.drop_last()) * 10 + (digits.last() as u32 - '0' as u32) as nat
    }
}

/// The digits of a numeral: what follows its sign, if it has one.
pub open spec fn numeral_digits(s: Seq<char>) -> Seq<char> {
    if s.len() > 0 && (s[0] == '-' || s[0] == '+') {
        s.skip(1)
    } else {
        s
    }
}

/// The number that `s` writes: a `+` or a `-` or neither, then at least one
/// digit and nothing else, with a value that fits. `None` for anything else.
pub open spec fn spec_parse_pid(s: Seq<char>) -> Option<i32> {
    let digits = numeral_digits(s);
    if digits.len() == 0 || !(forall|i: int| 0 <= i < digits.len() ==> is_digit(digits[i])) {
        None
    } else if s[0] == '-' {
        if digits_value(digits) <= 0x8000_0000 {
            Some((-(digits_value(digits) as int)) as i32)
        } else {
            None
        }
    } else {
        if digits_value(digits) <= 0x7fff_ffff {
            Some(digits_value(digits) as i32)
        } else {
            None
        }
    }
}

proof fn lemma_digits_value_grows(digits: Seq<char>, k: int)
    requires
        0 <= k <= digits.len(),
        forall|i: int| 0 <= i < digits.len() ==> is_digit(digits[i]),
    ensures
        digits_value(digits.take(k)) <= digits_value(digits),
    decreases digits.len(),
{
    if k == digits.len() {
        assert(digits.take(k) =~= digits);
    } else {
        lemma_digits_value_grows(digits.drop_last(), k);
        assert(digits.drop_last().take(k) =~= digits.take(k));
    }
}

/// Reads the process number that a line of the file writes.
pub fn parse_pid(line: &str) -> (pid: Option<i32>)
    ensures
        pid == spec_parse_pid(line@),
{
    let chars = chars_of(line);
    let n = chars.len();
    let negative = n > 0 && chars[0] == '-';
    let from: usize = if n > 0 && (chars[0] == '-' || chars[0] == '+') {
        1
    } else {
        0
    };
    let ghost digits = numeral_digits(line@);
    assert(digits =~= line@.subrange(from as int, n as int));
    if from == n {
        return None;
    }
    let limit: u64 = if negative {
        0x8000_0000
    } else {
        0x7fff_ffff
    };
    let mut value: u64 = 0;
    let mut i: usize = from;
    assert(digits.take(0) =~= Seq::<char>::empty());
    while i < n
        invariant
            from <= i <= n == chars.len(),
            chars@ == line@,
            digits == line@.subrange(from as int, n as int),
            digits == numeral_digits(line@),
            from < n,
            negative == (line@[0] == '-'),
            limit == if negative {
                0x8000_0000u64
            } else {
                0x7fff_ffffu64
            },
            value <= limit,
            value == digits_value(digits.take(i - from)),
            forall|j: int| 0 <= j < i - from ==> is_digit(digits[j]),
        decreases n - i,
    {
        let c = chars[i] as u32;
        if c < '0' as u32 || c > '9' as u32 {
            assert(!is_digit(digits[i - from]));
            return None;
        }
        assert(is_digit(digits[i - from]));
        assert(digits.take(i - from + 1).drop_last() =~= digits.take(i - from));
        assert(digits.take(i - from + 1).last() == digits[i - from]);
        let next = value * 10 + (c - '0' as u32) as u64;
        if next > limit {
            proof {
                if forall|j: int| 0 <= j < digits.len() ==> is_digit(digits[j]) {
                    lemma_digits_value_grows(digits, i - from + 1);
                }
            }
            return None;
        }
        value = next;
        i += 1;
    }
    assert(digits.take(n - from) =~= digits);
    if negative {
        Some((-(value as i64)) as i32)
    } else {
        Some(value as i32)
    }
}

/// Whether the line of a process stays in the file once the process was
/// signalled: where the signal was delivered and does not stop the process.
pub open spec fn spec_keep_pid(outcome: i32, signal: Signal) -> bool {
    outcome == 0 && signal != Signal::Stop
}

/// Tells whether the line of a process stays in the file, given what
/// sending the signal returned.
pub fn keep_pid(outcome: i32, signal: Signal) -> (keep: bool)
    ensures
        keep == spec_keep_pid(outcome, signal),
{
    outcome == 0 && signal != Signal::Stop
}

/// What is to become of the file.
pub enum PidFileUpdate {
    /// The file is removed, if it is there.
    Remove,
    /// The file is written anew with this content.
    Write(String),
}

/// What a `PidFileUpdate` stands for.
pub enum PidFileUpdateView {
    Remove,
    Write(Seq<char>),
}

impl View for PidFileUpdate {
    type V = PidFileUpdateView;

    open spec fn view(&self) -> PidFileUpdateView {
        match *self {
            PidFileUpdate::Remove => PidFileUpdateView::Remove,
            PidFileUpdate::Write(content) => PidFileUpdateView::Write(content@),
        }
    }
}

/// The lines `pids`, each on a line of its own.
pub open spec fn spec_join_lines(pids: Seq<Seq<char>>) -> Seq<char>
    decreases pids.len(),
{
    if pids.len() == 0 {
        Seq::empty()
    } else if pids.len() == 1 {
        pids[0]
    } else {
        spec_join_lines(pids.drop_last()) + seq!['\n'] + pids.last()
    }
}

/// What becomes of the file when `pids` are the lines to keep: it is
/// removed where there are none, else written with one of them to a line.
pub open spec fn spec_handle_pids(pids: Seq<Seq<char>>) -> PidFileUpdateView {
    if pids.len() == 0 {
        PidFileUpdateView::Remove
    } else {
        PidFileUpdateView::Write(spec_join_lines(pids))
    }
}

/// Decides what becomes of the file when `pids` are the lines to keep.
pub fn handle_pids(pids: &Vec<String>) -> (update: PidFileUpdate)
    ensures
        update@ == spec_handle_pids(texts(pids@)),
{
    if pids.len() == 0 {
        return PidFileUpdate::Remove;
    }
    let mut content = String::from_str(pids[0].as_str());
    let mut i: usize = 1;
    assert(texts(pids@).take(1) =~= seq![pids@[0]@]);
    while i < pids.len()
        invariant
            1 <= i <= pids.len(),
            content@ == spec_join_lines(texts(pids@).take(i as int)),
        decreases pids.len() - i,
    {
        assert(texts(pids@).take(i as int + 1).drop_last() =~= texts(pids@).take(i as int));
        assert(texts(pids@).take(i as int + 1).last() == pids@[i as int]@);
        proof {
            reveal_strlit("\n");
        }
        content.append("\n");
        content.append(pids[i].as_str());
        i += 1;
    }
    assert(texts(pids@).take(i as int) =~= texts(pids@));
    PidFileUpdate::Write(content)
}

/// The lines of the file whose processes stay recorded once they were
/// signalled. `outcomes` holds, for each line, what sending the signal
/// returned, or `None` where the line names no process.
pub open spec fn spec_survivors(lines: Seq<Seq<char>>, outcomes: Seq<Option<i32>>, signal: Signal) -> Seq<
    Seq<char>,
>
    decreases lines.len(),
{
    if lines.len() == 0 || outcomes.len() != lines.len() {
        Seq::empty()
    } else {
        let before = spec_survivors(lines.drop_last(), outcomes.drop_last(), signal);
        match outcomes.last() {
            Some(outcome) if spec_keep_pid(outcome, signal) => before.push(lines.last()),
            _ => before,
        }
    }
}

/// The process numbers to signal: for each line of the file's content the
/// number it writes, if it writes one.
pub fn signal_targets(content: &str) -> (targets: Vec<Option<i32>>)
    ensures
        targets@.len() == spec_split(content@, '\n').len(),
        forall|i: int| 0 <= i < targets@.len() ==> targets@[i] == spec_parse_pid(spec_split(content@, '\n')[i]),
{
    let lines = split(content, '\n');
    let mut targets: Vec<Option<i32>> = Vec::new();
    let mut i: usize = 0;
    while i < lines.len()
        invariant
            i <= lines.len(),
            texts(lines@) == spec_split(content@, '\n'),
            targets@.len() == i,
            forall|j: int| 0 <= j < i ==> targets@[j] == spec_parse_pid(spec_split(content@, '\n')[j]),
        decreases lines.len() - i,
    {
        assert(texts(lines@)[i as int] == lines@[i as int]@);
        targets.push(parse_pid(lines[i].as_str()));
        i += 1;
    }
    assert(texts(lines@).len() == lines@.len());
    targets
}

/// Decides what becomes of the file once its processes were signalled.
/// `outcomes` holds, for each line of `content`, what sending the signal
/// returned, or `None` where no signal was sent for the line.
pub fn handle_arg_signal(content: &str, outcomes: &Vec<Option<i32>>, signal: Signal) -> (update: PidFileUpdate)
    requires
        outcomes@.len() == spec_split(content@, '\n').len(),
    ensures
        update@ == spec_handle_pids(spec_survivors(spec_split(content@, '\n'), outcomes@, signal)),
{
    let lines = split(content, '\n');
    assert(texts(lines@).len() == lines@.len());
    let mut pids: Vec<String> = Vec::new();
    let mut i: usize = 0;
    assert(texts(lines@).take(0) =~= Seq::<Seq<char>>::empty());
    while i < lines.len()
        invariant
            i <= lines.len() == outcomes.len(),
            texts(pids@) == spec_survivors(texts(lines@).take(i as int), outcomes@.take(i as int), signal),
        decreases lines.len() - i,
    {
        let ghost before = texts(pids@);
        assert(texts(lines@).take(i as int + 1).drop_last() =~= texts(lines@).take(i as int));
        assert(outcomes@.take(i as int + 1).drop_last() =~= outcomes@.take(i as int));
        assert(texts(lines@).take(i as int + 1).last() == lines@[i as int]@);
        match outcomes[i] {
            Some(outcome) if keep_pid(outcome, signal) => {
                pids.push(lines[i].clone());
                assert(texts(pids@) =~= before.push(lines@[i as int]@));
            },
            _ => {},
        }
        i += 1;
    }
    assert(texts(lines@).take(i as int) =~= texts(lines@));
    assert(outcomes@.take(i as int) =~= outcomes@);
    handle_pids(&pids)
}

/// What a starting server adds to the file: its process number, on a new
/// line where the file already holds something.
pub open spec fn spec_write_pid(pid: u32, file_len: u64) -> Seq<char> {
    if file_len > 0 {
        seq!['\n'] + decimal(pid as nat)
    } else {
        decimal(pid as nat)
    }
}

/// Writes what a starting server adds to the file.
pub fn write_pid(pid: u32, file_len: u64) -> (entry: String)
    ensures
        entry@ == spec_write_pid(pid, file_len),
{
    let number = decimal_string(pid as u64);
    if file_len > 0 {
        proof {
            reveal_strlit("\n");
        }
        let mut entry = String::from_str("\n");
        entry.append(number.as_str());
        entry
    } else {
        number
    }
}

/// Whether a line stays when the process `pid` leaves: where it holds more
/// than white space and is not the number of the process.
pub open spec fn stays(line: Seq<char>, pid: u32) -> bool {
    spec_trim(line).len() > 0 && line != decimal(pid as nat)
}

/// The lines that stay when the process `pid` leaves.
pub open spec fn spec_remaining(lines: Seq<Seq<char>>, pid: u32) -> Seq<Seq<char>> {
    lines.filter(|line: Seq<char>| stays(line, pid))
}

/// Decides what becomes of the file when the process `pid` leaves.
pub fn remove_pid(content: &str, pid: u32) -> (update: PidFileUpdate)
    ensures
        update@ == spec_handle_pids(spec_remaining(spec_split(content@, '\n'), pid)),
{
    let lines = split(content, '\n');
    let own = decimal_string(pid as u64);
    let mut pids: Vec<String> = Vec::new();
    let mut i: usize = 0;
    proof {
        reveal(Seq::filter);
        assert(texts(lines@).take(0) =~= Seq::<Seq<char>>::empty());
    }
    while i < lines.len()
        invariant
            i <= lines.len(),
            own@ == decimal(pid as nat),
            texts(pids@) == spec_remaining(texts(lines@).take(i as int), pid),
        decreases lines.len() - i,
    {
        let ghost before = texts(pids@);
        proof {
            reveal(Seq::filter);
        }
        assert(texts(lines@).take(i as int + 1).drop_last() =~= texts(lines@).take(i as int));
        assert(texts(lines@).take(i as int + 1).last() == lines@[i as int]@);
        let line = lines[i].as_str();
        if trim(line).unicode_len() > 0 && !same_text(line, own.as_str()) {
            pids.push(lines[i].clone());
            assert(texts(pids@) =~= before.push(lines@[i as int]@));
        }
        i += 1;
    }
    assert(texts(lines@).take(i as int) =~= texts(lines@));
    handle_pids(&pids)
}

} // verus!
