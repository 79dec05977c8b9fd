//! The log of the daemon: reading its lines, colouring them, and following its
//! files while they grow and rotate.
use crate::clock::{is_local_time, is_rfc3339, local_time, reads_rfc3339, shown_at};
use crate::commands::{lemma_word_len, word_len};
use crate::jobs::{contains_name, opt_string};
use crate::lang::{pick, t, Lang};
use crate::text::{
    ascending, begins_with, ends_in, ends_with, find_text, is_white_space, lines, lines_of,
    occurs_at, same,
    sorted_names, starts_with, texts, to_chars, trim_left, trim_start,
};
use crossterm::style::Stylize;
use vstd::prelude::*;
use vstd::string::*;
use vstd::utf8::{decode_utf8, encode_utf8, valid_utf8};

verus! {

/// The colours of the log.
#[derive(Clone, Copy, Debug, PartialEq, Eq, Structural)]
pub enum LogColor {
    Red,
    Yellow,
    Green,
    Cyan,
    DarkGrey,
    DarkGreen,
    DarkCyan,
}

/// The number of a colour in the palette of the terminal.
pub open spec fn palette_code(color: LogColor) -> Seq<char> {
    match color {
        LogColor::Red => "38;5;9"@,
        LogColor::Yellow => "38;5;11"@,
        LogColor::Green => "38;5;10"@,
        LogColor::Cyan => "38;5;14"@,
        LogColor::DarkGrey => "38;5;8"@,
        LogColor::DarkGreen => "38;5;2"@,
        LogColor::DarkCyan => "38;5;6"@,
    }
}

/// An escape sequence that sets the colour.
pub open spec fn color_sequence(code: Seq<char>) -> Seq<char> {
    "\x1b["@ + code + "m"@
}

/// `r` is `text` between a sequence that sets its colour and one that sets it
/// back; where colours are switched off the two sequences say nothing.
pub open spec fn is_colored(text: Seq<char>, color: LogColor, r: Seq<char>) -> bool {
    exists|on: bool, off: bool| #[trigger]
        colored_with(text, color, on, off) == r
}

pub open spec fn colored_with(text: Seq<char>, color: LogColor, on: bool, off: bool) -> Seq<char> {
    color_sequence(
        if on {
            palette_code(color)
        } else {
            Seq::empty()
        },
    ) + text + color_sequence(
        if off {
            "39"@
        } else {
            Seq::empty()
        },
    )
}

/// `Stylize::with` of the `crossterm` crate, and what its result displays as on
/// a terminal that understands escape sequences: the text between a sequence
/// with the number of the colour and one with the number 39. Where the
/// environment or a switch of that crate disables colours, the numbers are left
/// out of the sequences, so which of the two comes out is not said.
#[verifier::external_body]
fn paint(value: &str, color: LogColor) -> (r: String)
    ensures
        is_colored(value@, color, r@),
{
    let color = match color {
        LogColor::Red => crossterm::style::Color::Red,
        LogColor::Yellow => crossterm::style::Color::Yellow,
        LogColor::Green => crossterm::style::Color::Green,
        LogColor::Cyan => crossterm::style::Color::Cyan,
        LogColor::DarkGrey => crossterm::style::Color::DarkGrey,
        LogColor::DarkGreen => crossterm::style::Color::DarkGreen,
        LogColor::DarkCyan => crossterm::style::Color::DarkCyan,
    };
    format!("{}", value.with(color))
}

/// A line of the log.
#[derive(Clone, Copy, Debug)]
pub struct ParsedDaemonLogLine<'a> {
    pub timestamp: &'a str,
    pub level: &'a str,
    pub module: &'a str,
    pub message: &'a str,
}

/// The parts of a line of the log.
pub struct LogLine {
    pub timestamp: Seq<char>,
    pub level: Seq<char>,
    pub module: Seq<char>,
    pub message: Seq<char>,
}

impl<'a> View for ParsedDaemonLogLine<'a> {
    type V = LogLine;

    open spec fn view(&self) -> LogLine {
        LogLine {
            timestamp: self.timestamp@,
            level: self.level@,
            module: self.module@,
            message: self.message@,
        }
    }
}

pub open spec fn is_level(s: Seq<char>) -> bool {
    s == "TRACE"@ || s == "DEBUG"@ || s == "INFO"@ || s == "WARN"@ || s == "ERROR"@
}

/// The modules that write to the log.
pub open spec fn is_target(s: Seq<char>) -> bool {
    s == "laozhou"@ || (begins_with(s, "laozhou::"@) && s.len() > "laozhou::"@.len())
}

pub fn is_laozhou_log_target(value: &str) -> (r: bool)
    ensures
        r == is_target(value@),
{
    if same(value, "laozhou") {
        return true;
    }
    starts_with(value, "laozhou::") && value.unicode_len() > "laozhou::".unicode_len()
}

/// The first index at which `p` stands in `s`.
pub open spec fn is_first_occurrence(s: Seq<char>, p: Seq<char>, i: int) -> bool {
    occurs_at(s, i, p) && forall|j: int| 0 <= j < i ==> !occurs_at(s, j, p)
}

/// What stands behind the level: a module and its message, or a message of the
/// program as a whole.
pub open spec fn module_and_message(rest: Seq<char>) -> (Seq<char>, Seq<char>) {
    if exists|i: int| is_first_occurrence(rest, ": "@, i) && is_target(rest.take(i)) {
        let i = choose|i: int| is_first_occurrence(rest, ": "@, i) && is_target(rest.take(i));
        (rest.take(i), rest.skip(i + 2))
    } else {
        ("laozhou"@, rest)
    }
}

/// A line of the log is a date and time, a level, and the rest.
pub open spec fn parsed_line(line: Seq<char>) -> Option<LogLine> {
    let k = word_len(line) as int;
    let timestamp = line.take(k);
    let rest = trim_left(line.skip(k));
    let n = word_len(rest) as int;
    let level = rest.take(n);
    if k == line.len() || !is_rfc3339(timestamp) || n == rest.len() || !is_level(level) {
        None
    } else {
        let (module, message) = module_and_message(trim_left(rest.skip(n)));
        Some(LogLine { timestamp, level, module, message })
    }
}

fn first_word_len(s: &str) -> (k: usize)
    ensures
        k == word_len(s@),
{
    let (word, _) = crate::commands::split_repl_command(s);
    proof {
        lemma_word_len(s@);
    }
    word.unicode_len()
}

fn skip_chars<'a>(s: &'a str, k: usize) -> (r: &'a str)
    requires
        k <= s@.len(),
    ensures
        r@ == s@.skip(k as int),
{
    let n = s.unicode_len();
    assert(s@.subrange(k as int, n as int) =~= s@.skip(k as int));
    s.substring_char(k, n)
}

fn split_module<'a>(rest: &'a str) -> (r: (&'a str, &'a str))
    ensures
        (r.0@, r.1@) == module_and_message(rest@),
{
    let v = to_chars(rest);
    let n: usize = v.len();
    proof {
        reveal_strlit(": ");
    }
    if let Some(i) = find_text(&v, 0, ": ") {
        let module = rest.substring_char(0, i);
        assert(module@ =~= rest@.take(i as int));
        assert(is_first_occurrence(rest@, ": "@, i as int));
        if is_laozhou_log_target(module) {
            assert(i + 2 <= n);
            let message = skip_chars(rest, i + 2);
            proof {
                let j = choose|j: int|
                    is_first_occurrence(rest@, ": "@, j) && is_target(rest@.take(j));
                if j < i {
                    assert(!occurs_at(rest@, j, ": "@));
                }
                if i < j {
                    assert(!occurs_at(rest@, i as int, ": "@));
                }
            }
            return (module, message);
        }
        proof {
            assert forall|j: int|
                is_first_occurrence(rest@, ": "@, j) implies j == i by {
                if j < i {
                    assert(!occurs_at(rest@, j, ": "@));
                }
                if i < j {
                    assert(!occurs_at(rest@, i as int, ": "@));
                }
            }
        }
    }
    ("laozhou", rest)
}

pub fn parse_daemon_log_line<'a>(line: &'a str) -> (r: Option<ParsedDaemonLogLine<'a>>)
    ensures
        match (r, parsed_line(line@)) {
            (Some(a), Some(b)) => a@ == b,
            (None, None) => true,
            _ => false,
        },
{
    proof {
        lemma_word_len(line@);
    }
    let k = first_word_len(line);
    if k == line.unicode_len() {
        return None;
    }
    let timestamp = line.substring_char(0, k);
    assert(timestamp@ =~= line@.take(k as int));
    if !reads_rfc3339(timestamp) {
        return None;
    }
    let rest = trim_start(skip_chars(line, k));
    proof {
        lemma_word_len(rest@);
    }
    let n = first_word_len(rest);
    if n == rest.unicode_len() {
        return None;
    }
    let level = rest.substring_char(0, n);
    assert(level@ =~= rest@.take(n as int));
    if !(same(level, "TRACE") || same(level, "DEBUG") || same(level, "INFO") || same(level, "WARN")
        || same(level, "ERROR")) {
        return None;
    }
    let (module, message) = split_module(trim_start(skip_chars(rest, n)));
    Some(ParsedDaemonLogLine { timestamp, level, module, message })
}

/// The first line of a text without the white space before it.
pub open spec fn opening_line(s: Seq<char>) -> Seq<char> {
    let all = lines_of(trim_left(s));
    if all.len() == 0 {
        Seq::empty()
    } else {
        all[0]
    }
}

/// The colour of a decision to reply or not, which its first line announces.
pub open spec fn decision_color(s: Seq<char>) -> Option<LogColor> {
    let line = opening_line(s);
    if line == "【续聊窗口判断：回复】"@ || line == "【主动回复判断：回复】"@ || line
        == "[Continuation decision: reply]"@ || line == "[Active reply decision: reply]"@ {
        Some(LogColor::Green)
    } else if line == "【续聊窗口判断：不回复】"@ || line == "【主动回复判断：不回复】"@
        || line == "[Continuation decision: no reply]"@ || line
        == "[Active reply decision: no reply]"@ {
        Some(LogColor::DarkGrey)
    } else {
        None
    }
}

pub fn active_reply_log_color(value: &str) -> (r: Option<LogColor>)
    ensures
        r == decision_color(value@),
{
    let all = lines(trim_start(value));
    assert(texts(all@).len() == all@.len());
    let first = if all.len() > 0 {
        assert(texts(all@)[0] == all@[0]@);
        all[0].clone()
    } else {
        String::new()
    };
    let line = first.as_str();
    if same(line, "【续聊窗口判断：回复】") || same(line, "【主动回复判断：回复】")
        || same(line, "[Continuation decision: reply]") || same(
        line,
        "[Active reply decision: reply]",
    ) {
        Some(LogColor::Green)
    } else if same(line, "【续聊窗口判断：不回复】") || same(
        line,
        "【主动回复判断：不回复】",
    ) || same(line, "[Continuation decision: no reply]") || same(
        line,
        "[Active reply decision: no reply]",
    ) {
        Some(LogColor::DarkGrey)
    } else {
        None
    }
}

pub open spec fn level_color(level: Seq<char>) -> LogColor {
    if level == "ERROR"@ {
        LogColor::Red
    } else if level == "WARN"@ {
        LogColor::Yellow
    } else if level == "INFO"@ {
        LogColor::Green
    } else if level == "DEBUG"@ {
        LogColor::Cyan
    } else {
        LogColor::DarkGrey
    }
}

pub fn log_level_color(level: &str) -> (r: LogColor)
    ensures
        r == level_color(level@),
{
    if same(level, "ERROR") {
        LogColor::Red
    } else if same(level, "WARN") {
        LogColor::Yellow
    } else if same(level, "INFO") {
        LogColor::Green
    } else if same(level, "DEBUG") {
        LogColor::Cyan
    } else {
        LogColor::DarkGrey
    }
}

/// `r` is `text`, in its colour where colours are wanted.
pub open spec fn is_part(text: Seq<char>, color: LogColor, ansi: bool, r: Seq<char>) -> bool {
    if ansi {
        is_colored(text, color, r)
    } else {
        r == text
    }
}

pub fn color_log_part(value: String, color: LogColor, ansi: bool) -> (r: String)
    ensures
        is_part(value@, color, ansi, r@),
{
    if ansi {
        paint(value.as_str(), color)
    } else {
        value
    }
}

pub open spec fn bracketed(s: Seq<char>) -> Seq<char> {
    "["@ + s + "]"@
}

/// The colour of the decision that is being printed, behind a line: a line of
/// the log sets it anew, any other line only where it announces one.
pub open spec fn color_after(line: Seq<char>, before: Option<LogColor>) -> Option<LogColor> {
    match parsed_line(line) {
        Some(parsed) => decision_color(parsed.message),
        None => match decision_color(line) {
            Some(color) => Some(color),
            None => before,
        },
    }
}

/// `r` is a text in the colour of the decision that it belongs to, if any.
pub open spec fn is_decision_part(
    text: Seq<char>,
    color: Option<LogColor>,
    ansi: bool,
    r: Seq<char>,
) -> bool {
    match color {
        Some(color) => is_part(text, color, ansi, r),
        None => r == text,
    }
}

/// `r` is a line of the log as it is printed: its parts in brackets and its
/// message, with a space between each two.
pub open spec fn is_printed_line(
    line: LogLine,
    time: Seq<char>,
    color: Option<LogColor>,
    ansi: bool,
    r: Seq<char>,
) -> bool {
    exists|a: Seq<char>, b: Seq<char>, c: Seq<char>, d: Seq<char>| #[trigger]
        are_printed_parts(line, time, color, ansi, a, b, c, d) && r == if line.message.len() == 0 {
            a + " "@ + b + " "@ + c
        } else {
            a + " "@ + b + " "@ + c + " "@ + d
        }
}

pub open spec fn are_printed_parts(
    line: LogLine,
    time: Seq<char>,
    color: Option<LogColor>,
    ansi: bool,
    a: Seq<char>,
    b: Seq<char>,
    c: Seq<char>,
    d: Seq<char>,
) -> bool {
    &&& is_part(bracketed(time), LogColor::DarkGreen, ansi, a)
    &&& is_part(bracketed(line.level), level_color(line.level), ansi, b)
    &&& is_part(bracketed(line.module), LogColor::DarkCyan, ansi, c)
    &&& is_decision_part(line.message, color, ansi, d)
}

fn in_brackets(s: &str) -> (r: String)
    ensures
        r@ == bracketed(s@),
{
    crate::echo::enclosed("[", s, "]")
}

fn decision_part(text: &str, color: Option<LogColor>, ansi: bool) -> (r: String)
    ensures
        is_decision_part(text@, color, ansi, r@),
{
    match color {
        Some(color) => color_log_part(text.to_owned(), color, ansi),
        None => text.to_owned(),
    }
}

/// Prints a line of the log, given the time of day to show for it.
pub fn print_log_line(
    parsed: &ParsedDaemonLogLine<'_>,
    time: &str,
    color: Option<LogColor>,
    ansi: bool,
) -> (r: String)
    ensures
        is_printed_line(parsed@, time@, color, ansi, r@),
{
    let a = color_log_part(in_brackets(time), LogColor::DarkGreen, ansi);
    let b = color_log_part(in_brackets(parsed.level), log_level_color(parsed.level), ansi);
    let c = color_log_part(in_brackets(parsed.module), LogColor::DarkCyan, ansi);
    let d = decision_part(parsed.message, color, ansi);
    let mut r = a.clone();
    r.append(" ");
    r.append(b.as_str());
    r.append(" ");
    r.append(c.as_str());
    if !parsed.message.is_empty() {
        r.append(" ");
        r.append(d.as_str());
    }
    assert(are_printed_parts(parsed@, time@, color, ansi, a@, b@, c@, d@));
    r
}

/// `r` is what is printed for a line while the decision has the colour `color`.
pub open spec fn is_output_of(
    line: Seq<char>,
    color: Option<LogColor>,
    ansi: bool,
    r: Seq<char>,
) -> bool {
    match parsed_line(line) {
        Some(parsed) => exists|time: Seq<char>|
            is_local_time(parsed.timestamp, "%H:%M:%S%.3f"@, time) && #[trigger] is_printed_line(
                parsed,
                time,
                color,
                ansi,
                r,
            ),
        None => is_decision_part(line, color, ansi, r),
    }
}

pub fn format_daemon_log_line_with_state(
    line: &str,
    ansi: bool,
    decision: &mut Option<LogColor>,
) -> (r: String)
    ensures
        *final(decision) == color_after(line@, *old(decision)),
        is_output_of(line@, *final(decision), ansi, r@),
{
    match parse_daemon_log_line(line) {
        None => {
            if let Some(color) = active_reply_log_color(line) {
                *decision = Some(color);
            }
            decision_part(line, *decision, ansi)
        },
        Some(parsed) => {
            let color = active_reply_log_color(parsed.message);
            *decision = color;
            let time = match local_time(parsed.timestamp, "%H:%M:%S%.3f") {
                Some(time) => time,
                None => parsed.timestamp.to_owned(),
            };
            let r = print_log_line(&parsed, time.as_str(), color, ansi);
            assert(is_printed_line(parsed@, time@, color, ansi, r@));
            r
        },
    }
}

pub fn format_daemon_log_line(line: &str, ansi: bool) -> (r: String)
    ensures
        is_output_of(line@, color_after(line@, None), ansi, r@),
{
    let mut decision: Option<LogColor> = None;
    format_daemon_log_line_with_state(line, ansi, &mut decision)
}

/// Without colours a line that is none of the log's own is printed as it is.
pub proof fn law_foreign_line_is_kept(line: Seq<char>, before: Option<LogColor>, r: Seq<char>)
    requires
        parsed_line(line) is None,
        is_output_of(line, color_after(line, before), false, r),
    ensures
        r == line,
{
}

/// The colour behind the first `n` lines.
pub open spec fn color_behind(lines: Seq<Seq<char>>, n: int, before: Option<LogColor>) -> Option<
    LogColor,
>
    decreases n,
{
    if n <= 0 {
        before
    } else {
        color_after(lines[n - 1], color_behind(lines, n - 1, before))
    }
}

/// `printed` holds what is printed for the lines, one for one.
pub open spec fn are_outputs_of(
    lines: Seq<Seq<char>>,
    before: Option<LogColor>,
    ansi: bool,
    printed: Seq<Seq<char>>,
) -> bool {
    &&& printed.len() == lines.len()
    &&& forall|i: int|
        0 <= i < lines.len() ==> is_output_of(
            lines[i],
            color_behind(lines, i + 1, before),
            ansi,
            #[trigger] printed[i],
        )
}

/// Prints lines one after the other.
pub fn write_daemon_log_lines(all: &Vec<String>, ansi: bool) -> (r: Vec<String>)
    ensures
        are_outputs_of(texts(all@), None, ansi, texts(r@)),
{
    let mut decision: Option<LogColor> = None;
    let mut out: Vec<String> = Vec::new();
    let ghost want = texts(all@);
    let mut i: usize = 0;
    while i < all.len()
        invariant
            i <= all@.len(),
            want == texts(all@),
            decision == color_behind(want, i as int, None),
            out@.len() == i,
            forall|k: int|
                0 <= k < i ==> is_output_of(
                    want[k],
                    color_behind(want, k + 1, None),
                    ansi,
                    (#[trigger] out@[k])@,
                ),
        decreases all@.len() - i,
    {
        let line = format_daemon_log_line_with_state(all[i].as_str(), ansi, &mut decision);
        assert(want[i as int] == all@[i as int]@);
        out.push(line);
        i = i + 1;
    }
    assert forall|k: int| 0 <= k < want.len() implies is_output_of(
        want[k],
        color_behind(want, k + 1, None),
        ansi,
        #[trigger] texts(out@)[k],
    ) by {
        assert(texts(out@)[k] == out@[k]@);
    }
    out
}

/// What a run of bytes reads as, with replacement characters where it is not
/// well formed.
pub uninterp spec fn lossy_text(bytes: Seq<u8>) -> Seq<char>;

/// `String::from_utf8_lossy`: the text that the bytes encode, wherever they do;
/// elsewhere replacement characters stand in it.
#[verifier::external_body]
pub(crate) fn read_lossy(bytes: &[u8]) -> (r: String)
    ensures
        r@ == lossy_text(bytes@),
        valid_utf8(bytes@) ==> r@ == decode_utf8(bytes@),
{
    String::from_utf8_lossy(bytes).to_string()
}

/// The pieces of a run of bytes between line feeds.
pub open spec fn pieces_of(bytes: Seq<u8>) -> Seq<Seq<u8>>
    decreases bytes.len(),
{
    if bytes.len() == 0 {
        seq![Seq::<u8>::empty()]
    } else {
        let before = pieces_of(bytes.drop_last());
        if bytes.last() == 10 {
            before.push(Seq::<u8>::empty())
        } else {
            before.update(before.len() - 1, before.last().push(bytes.last()))
        }
    }
}

pub proof fn lemma_pieces(bytes: Seq<u8>)
    ensures
        pieces_of(bytes).len() > 0,
    decreases bytes.len(),
{
    if bytes.len() > 0 {
        lemma_pieces(bytes.drop_last());
    }
}

/// A line without the carriage return that ends it.
pub open spec fn without_return(bytes: Seq<u8>) -> Seq<u8> {
    if bytes.len() > 0 && bytes.last() == 13 {
        bytes.drop_last()
    } else {
        bytes
    }
}

/// The text of a line of bytes.
pub open spec fn line_text(bytes: Seq<u8>) -> Seq<char> {
    lossy_text(without_return(bytes))
}

/// The complete lines of a run of bytes.
pub open spec fn complete_lines(bytes: Seq<u8>) -> Seq<Seq<char>> {
    pieces_of(bytes).drop_last().map_values(|p: Seq<u8>| line_text(p))
}

/// The bytes behind the last line feed.
pub open spec fn incomplete_line(bytes: Seq<u8>) -> Seq<u8> {
    pieces_of(bytes).last()
}

/// Prints the lines of a stream of bytes as they become complete.
#[derive(Debug)]
pub struct DaemonLogStreamFormatter {
    pub pending: Vec<u8>,
    pub decision_color: Option<LogColor>,
}

/// The pieces of one run of bytes behind another: the last piece of the one
/// runs on in the first of the other.
proof fn lemma_pieces_add(a: Seq<u8>, b: Seq<u8>)
    ensures
        pieces_of(a + b) == pieces_of(a).drop_last() + seq![
            pieces_of(a).last() + pieces_of(b)[0],
        ] + pieces_of(b).drop_first(),
    decreases b.len(),
{
    lemma_pieces(a);
    lemma_pieces(b);
    let pa = pieces_of(a);
    if b.len() == 0 {
        assert(a + b =~= a);
        assert(pieces_of(b) =~= seq![Seq::<u8>::empty()]);
        assert(pa.last() + Seq::<u8>::empty() =~= pa.last());
        assert(pieces_of(a + b) =~= pa.drop_last() + seq![pa.last() + pieces_of(b)[0]]
            + pieces_of(b).drop_first());
    } else {
        let c = b.drop_last();
        lemma_pieces(c);
        lemma_pieces_add(a, c);
        assert((a + b).drop_last() =~= a + c);
        let pc = pieces_of(c);
        let pb = pieces_of(b);
        let before = pieces_of(a + c);
        let want = pa.drop_last() + seq![pa.last() + pb[0]] + pb.drop_first();
        if b.last() == 10 {
            assert(pb =~= pc.push(Seq::<u8>::empty()));
            assert(pb[0] == pc[0]);
            assert(pieces_of(a + b) =~= want);
        } else {
            let last = pc.last().push(b.last());
            assert(pb == pc.update(pc.len() - 1, last));
            if pc.len() == 1 {
                assert(pb[0] == last);
                assert(before.last() == pa.last() + pc[0]);
                assert((pa.last() + pc[0]).push(b.last()) =~= pa.last() + last);
                assert(pieces_of(a + b) =~= want);
            } else {
                assert(pb[0] == pc[0]);
                assert(before.last() == pc.last());
                assert(pieces_of(a + b) =~= want);
            }
        }
    }
}

/// How a stream is cut into reads does not matter: the complete lines of two
/// reads one after the other are those of both together, and the same bytes are
/// left over.
pub proof fn law_reads_do_not_matter(pending: Seq<u8>, a: Seq<u8>, b: Seq<u8>)
    ensures
        complete_lines(pending + a) + complete_lines(incomplete_line(pending + a) + b)
            == complete_lines(pending + (a + b)),
        incomplete_line(incomplete_line(pending + a) + b) == incomplete_line(pending + (a + b)),
{
    let first = pending + a;
    let left = incomplete_line(first);
    assert(pending + (a + b) =~= first + b);
    lemma_pieces(first);
    lemma_pieces(b);
    lemma_pieces_add(first, b);
    lemma_left_has_no_feed(first);
    lemma_pieces_add(left, b);
    lemma_one_piece(left);
    let pf = pieces_of(first);
    let pb = pieces_of(b);
    let all = pieces_of(first + b);
    let second = pieces_of(left + b);
    assert(pieces_of(left) =~= seq![left]);
    assert(second =~= seq![left + pb[0]] + pb.drop_first());
    assert(all =~= pf.drop_last() + second);
    assert(all.drop_last() =~= pf.drop_last() + second.drop_last());
    let f = |p: Seq<u8>| line_text(p);
    assert(all.drop_last().map_values(f) =~= pf.drop_last().map_values(f) + second.drop_last().map_values(f));
}

proof fn lemma_left_has_no_feed(bytes: Seq<u8>)
    ensures
        !incomplete_line(bytes).contains(10),
    decreases bytes.len(),
{
    if bytes.len() > 0 {
        lemma_left_has_no_feed(bytes.drop_last());
        lemma_pieces(bytes.drop_last());
        let before = incomplete_line(bytes.drop_last());
        let now = incomplete_line(bytes);
        if now.contains(10) {
            let i = choose|i: int| 0 <= i < now.len() && now[i] == 10;
            if bytes.last() != 10 {
                assert(now == before.push(bytes.last()));
                if i < before.len() {
                    assert(before[i] == 10);
                }
            }
        }
    }
}

proof fn lemma_one_piece(bytes: Seq<u8>)
    requires
        !bytes.contains(10),
    ensures
        pieces_of(bytes) == seq![bytes],
    decreases bytes.len(),
{
    if bytes.len() > 0 {
        assert(bytes[bytes.len() - 1] == bytes.last());
        assert(!bytes.drop_last().contains(10)) by {
            if bytes.drop_last().contains(10) {
                let i = choose|i: int|
                    0 <= i < bytes.len() - 1 && bytes.drop_last()[i] == 10;
                assert(bytes[i] == 10);
            }
        }
        lemma_one_piece(bytes.drop_last());
        assert(bytes.drop_last().push(bytes.last()) =~= bytes);
        assert(pieces_of(bytes) =~= seq![bytes]);
    } else {
        assert(bytes =~= Seq::<u8>::empty());
    }
}

/// The lines that were added to an output.
pub open spec fn appended(before: Seq<String>, after: Seq<String>) -> Seq<Seq<char>> {
    texts(after).skip(before.len() as int)
}

/// What a formatter keeps between two reads: the bytes that wait, and the colour
/// of the decision that is being printed.
pub open spec fn kept_by(formatter: DaemonLogStreamFormatter) -> (Seq<u8>, Option<LogColor>) {
    (formatter.pending@, formatter.decision_color)
}

/// Bytes were taken: every line that they complete was printed, and what is
/// behind the last line feed waits.
pub open spec fn pushed(
    before: (Seq<u8>, Option<LogColor>),
    after: (Seq<u8>, Option<LogColor>),
    bytes: Seq<u8>,
    ansi: bool,
    printed_before: Seq<String>,
    printed: Seq<String>,
) -> bool {
    let all = before.0 + bytes;
    &&& after.0 == incomplete_line(all)
    &&& after.1 == color_behind(complete_lines(all), complete_lines(all).len() as int, before.1)
    &&& printed.take(printed_before.len() as int) == printed_before
    &&& printed.len() == printed_before.len() + complete_lines(all).len()
    &&& are_outputs_of(complete_lines(all), before.1, ansi, appended(printed_before, printed))
}

/// The stream ended: what waited was printed as a line of its own.
pub open spec fn finished(
    before: (Seq<u8>, Option<LogColor>),
    after: (Seq<u8>, Option<LogColor>),
    ansi: bool,
    printed_before: Seq<String>,
    printed: Seq<String>,
) -> bool {
    &&& after.0.len() == 0
    &&& if before.0.len() == 0 {
        printed == printed_before && after.1 == before.1
    } else {
        let line = line_text(before.0);
        &&& after.1 == color_after(line, before.1)
        &&& printed.len() == printed_before.len() + 1
        &&& printed.drop_last() == printed_before
        &&& is_output_of(line, after.1, ansi, printed.last()@)
    }
}

impl DaemonLogStreamFormatter {
    pub fn new() -> (r: Self)
        ensures
            r.pending@.len() == 0,
            r.decision_color is None,
    {
        DaemonLogStreamFormatter { pending: Vec::new(), decision_color: None }
    }

    fn write_line(&mut self, line: &[u8], ansi: bool, output: &mut Vec<String>)
        ensures
            final(self).pending == old(self).pending,
            final(self).decision_color == color_after(
                line_text(line@),
                old(self).decision_color,
            ),
            final(output)@.len() == old(output)@.len() + 1,
            final(output)@.drop_last() == old(output)@,
            is_output_of(
                line_text(line@),
                final(self).decision_color,
                ansi,
                final(output)@.last()@,
            ),
    {
        let ghost before = output@;
        let n: usize = line.len();
        let text = if n > 0 && line[n - 1] == 13 {
            let body = vstd::slice::slice_subrange(line, 0, n - 1);
            assert(body@ =~= line@.drop_last());
            read_lossy(body)
        } else {
            read_lossy(line)
        };
        let printed = format_daemon_log_line_with_state(
            text.as_str(),
            ansi,
            &mut self.decision_color,
        );
        output.push(printed);
        assert(output@.drop_last() =~= before);
    }

    /// Takes more bytes of the stream: every line that they complete is printed,
    /// and what is behind the last line feed waits.
    pub fn push(&mut self, bytes: &[u8], ansi: bool, output: &mut Vec<String>)
        ensures
            pushed(
                kept_by(*old(self)),
                kept_by(*final(self)),
                bytes@,
                ansi,
                old(output)@,
                final(output)@,
            ),
    {
        let ghost begin = self.pending@;
        let ghost color = self.decision_color;
        let ghost all = begin + bytes@;
        let mut whole: Vec<u8> = Vec::new();
        std::mem::swap(&mut whole, &mut self.pending);
        whole.extend_from_slice(bytes);
        assert(whole@ =~= all);
        let ghost out0 = output@;
        let mut from: usize = 0;
        let mut i: usize = 0;
        let ghost want = complete_lines(all);
        let ghost mut done: int = 0;
        proof {
            lemma_pieces(all);
            assert(all.take(0) =~= Seq::<u8>::empty());
            assert(out0.take(out0.len() as int) =~= out0);
        }
        while i < whole.len()
            invariant
                whole@ == all,
                from <= i <= whole@.len(),
                want == complete_lines(all),
                pieces_of(all.take(i as int)).len() == done + 1,
                pieces_of(all.take(i as int)).last() == all.subrange(from as int, i as int),
                0 <= done,
                self.decision_color == color_behind(want, done, color),
                output@.len() == out0.len() + done,
                output@.take(out0.len() as int) == out0,
                forall|k: int|
                    0 <= k < done ==> is_output_of(
                        want[k],
                        color_behind(want, k + 1, color),
                        ansi,
                        (#[trigger] output@[out0.len() + k])@,
                    ),
            decreases whole@.len() - i,
        {
            let ghost here = pieces_of(all.take(i as int));
            assert(all.take(i + 1).drop_last() =~= all.take(i as int));
            if whole[i] == 10 {
                let line = vstd::slice::slice_subrange(whole.as_slice(), from, i);
                let ghost out1 = output@;
                proof {
                    lemma_piece_is_final(all, i as int);
                    assert(here.last() == line@);
                    assert(here.len() - 1 == done);
                    assert(pieces_of(all)[done] == line@);
                    assert(want[done] == line_text(line@));
                }
                self.write_line(line, ansi, output);
                proof {
                    assert(output@.last() == output@[out0.len() + done]);
                    assert(output@.take(out0.len() as int) =~= out1.take(out0.len() as int));
                    assert forall|k: int| 0 <= k < done implies (#[trigger] output@[out0.len()
                        + k]) == out1[out0.len() + k] by {
                        assert(output@.drop_last()[out0.len() + k] == out1[out0.len() + k]);
                    }
                    assert(pieces_of(all.take(i + 1)) =~= here.push(Seq::<u8>::empty()));
                    assert(all.subrange(i + 1, i + 1) =~= Seq::<u8>::empty());
                    done = done + 1;
                }
                from = i + 1;
            } else {
                proof {
                    assert(pieces_of(all.take(i + 1)) =~= here.update(
                        here.len() - 1,
                        here.last().push(all[i as int]),
                    ));
                    assert(all.subrange(from as int, i + 1) =~= all.subrange(
                        from as int,
                        i as int,
                    ).push(all[i as int]));
                }
            }
            i = i + 1;
        }
        assert(all.take(all.len() as int) =~= all);
        let n: usize = whole.len();
        let rest = vstd::slice::slice_subrange(whole.as_slice(), from, n);
        let mut pending: Vec<u8> = Vec::new();
        pending.extend_from_slice(rest);
        assert(pending@ =~= incomplete_line(all));
        self.pending = pending;
        proof {
            let added = appended(out0, output@);
            assert(want.len() == done);
            assert forall|k: int| 0 <= k < want.len() implies is_output_of(
                want[k],
                color_behind(want, k + 1, color),
                ansi,
                #[trigger] added[k],
            ) by {
                assert(added[k] == output@[out0.len() + k]@);
            }
        }
    }

    /// Prints what waits, complete or not.
    pub fn finish(&mut self, ansi: bool, output: &mut Vec<String>)
        ensures
            finished(
                kept_by(*old(self)),
                kept_by(*final(self)),
                ansi,
                old(output)@,
                final(output)@,
            ),
    {
        if self.pending.is_empty() {
            return;
        }
        let mut line: Vec<u8> = Vec::new();
        std::mem::swap(&mut line, &mut self.pending);
        self.write_line(line.as_slice(), ansi, output);
    }
}

/// A text in its colour where colours are wanted, on a machine that has them
/// switched on or not.
pub open spec fn part_on(text: Seq<char>, color: LogColor, ansi: bool, painted: bool) -> Seq<char> {
    if ansi {
        colored_with(text, color, painted, painted)
    } else {
        text
    }
}

pub open spec fn decision_part_on(
    text: Seq<char>,
    color: Option<LogColor>,
    ansi: bool,
    painted: bool,
) -> Seq<char> {
    match color {
        Some(color) => part_on(text, color, ansi, painted),
        None => text,
    }
}

/// What is printed for a line on one machine: in its time zone, which has an
/// offset for each date and time, and with its colours switched on or not.
pub open spec fn output_on(
    line: Seq<char>,
    color: Option<LogColor>,
    ansi: bool,
    zone: spec_fn(Seq<char>) -> i32,
    painted: bool,
) -> Seq<char> {
    match parsed_line(line) {
        Some(parsed) => {
            let time = shown_at(parsed.timestamp, "%H:%M:%S%.3f"@, zone(parsed.timestamp));
            let head = part_on(bracketed(time), LogColor::DarkGreen, ansi, painted) + " "@
                + part_on(bracketed(parsed.level), level_color(parsed.level), ansi, painted) + " "@
                + part_on(bracketed(parsed.module), LogColor::DarkCyan, ansi, painted);
            if parsed.message.len() == 0 {
                head
            } else {
                head + " "@ + decision_part_on(parsed.message, color, ansi, painted)
            }
        },
        None => decision_part_on(line, color, ansi, painted),
    }
}

pub open spec fn outputs_on(
    lines: Seq<Seq<char>>,
    before: Option<LogColor>,
    ansi: bool,
    zone: spec_fn(Seq<char>) -> i32,
    painted: bool,
) -> Seq<Seq<char>> {
    Seq::new(
        lines.len(),
        |i: int| output_on(lines[i], color_behind(lines, i + 1, before), ansi, zone, painted),
    )
}

/// A time zone that a machine can be in.
pub open spec fn is_zone(zone: spec_fn(Seq<char>) -> i32) -> bool {
    forall|timestamp: Seq<char>| #[trigger]
        is_rfc3339(timestamp) ==> is_local_time(
            timestamp,
            "%H:%M:%S%.3f"@,
            shown_at(timestamp, "%H:%M:%S%.3f"@, zone(timestamp)),
        )
}

proof fn lemma_part_on(text: Seq<char>, color: LogColor, ansi: bool, painted: bool)
    ensures
        is_part(text, color, ansi, part_on(text, color, ansi, painted)),
{
    if ansi {
        assert(colored_with(text, color, painted, painted) == part_on(text, color, ansi, painted));
    }
}

/// What a machine prints for a line is what is printed for it.
proof fn lemma_output_on(
    line: Seq<char>,
    color: Option<LogColor>,
    ansi: bool,
    zone: spec_fn(Seq<char>) -> i32,
    painted: bool,
)
    requires
        is_zone(zone),
    ensures
        is_output_of(line, color, ansi, output_on(line, color, ansi, zone, painted)),
{
    if let Some(parsed) = parsed_line(line) {
        let time = shown_at(parsed.timestamp, "%H:%M:%S%.3f"@, zone(parsed.timestamp));
        let a = part_on(bracketed(time), LogColor::DarkGreen, ansi, painted);
        let b = part_on(bracketed(parsed.level), level_color(parsed.level), ansi, painted);
        let c = part_on(bracketed(parsed.module), LogColor::DarkCyan, ansi, painted);
        let d = decision_part_on(parsed.message, color, ansi, painted);
        lemma_part_on(bracketed(time), LogColor::DarkGreen, ansi, painted);
        lemma_part_on(bracketed(parsed.level), level_color(parsed.level), ansi, painted);
        lemma_part_on(bracketed(parsed.module), LogColor::DarkCyan, ansi, painted);
        if let Some(color) = color {
            lemma_part_on(parsed.message, color, ansi, painted);
        }
        assert(is_rfc3339(parsed.timestamp));
        assert(are_printed_parts(parsed, time, color, ansi, a, b, c, d));
        assert(is_printed_line(
            parsed,
            time,
            color,
            ansi,
            output_on(line, color, ansi, zone, painted),
        ));
    } else if let Some(color) = color {
        lemma_part_on(line, color, ansi, painted);
    }
}

proof fn lemma_color_behind_add(
    first: Seq<Seq<char>>,
    second: Seq<Seq<char>>,
    n: int,
    before: Option<LogColor>,
)
    requires
        0 <= n <= first.len() + second.len(),
    ensures
        color_behind(first + second, n, before) == if n <= first.len() {
            color_behind(first, n, before)
        } else {
            color_behind(
                second,
                n - first.len(),
                color_behind(first, first.len() as int, before),
            )
        },
    decreases n,
{
    if n > 0 {
        lemma_color_behind_add(first, second, n - 1, before);
        if n <= first.len() {
            assert((first + second)[n - 1] == first[n - 1]);
        } else {
            assert((first + second)[n - 1] == second[n - 1 - first.len()]);
        }
    }
}

/// How a stream is cut into reads does not matter for what is printed either, on
/// whatever machine: two reads one after the other print the same texts as both
/// at once, in the same order, and end with the same colour. Wherever the zone is
/// one that a machine can be in, those texts are what the formatter prints.
pub proof fn law_reads_print_the_same(
    pending: Seq<u8>,
    color: Option<LogColor>,
    a: Seq<u8>,
    b: Seq<u8>,
    ansi: bool,
    zone: spec_fn(Seq<char>) -> i32,
    painted: bool,
)
    ensures
        ({
            let first = complete_lines(pending + a);
            let second = complete_lines(incomplete_line(pending + a) + b);
            let all = complete_lines(pending + (a + b));
            let between = color_behind(first, first.len() as int, color);
            &&& outputs_on(first, color, ansi, zone, painted) + outputs_on(
                second,
                between,
                ansi,
                zone,
                painted,
            ) == outputs_on(all, color, ansi, zone, painted)
            &&& color_behind(second, second.len() as int, between) == color_behind(
                all,
                all.len() as int,
                color,
            )
            &&& is_zone(zone) ==> are_outputs_of(
                all,
                color,
                ansi,
                outputs_on(all, color, ansi, zone, painted),
            )
        }),
{
    law_reads_do_not_matter(pending, a, b);
    let first = complete_lines(pending + a);
    let second = complete_lines(incomplete_line(pending + a) + b);
    let all = complete_lines(pending + (a + b));
    let between = color_behind(first, first.len() as int, color);
    let x = outputs_on(first, color, ansi, zone, painted);
    let y = outputs_on(second, between, ansi, zone, painted);
    let z = outputs_on(all, color, ansi, zone, painted);
    assert(all == first + second);
    lemma_color_behind_add(first, second, all.len() as int, color);
    if second.len() == 0 {
        assert(color_behind(second, 0, between) == between);
    }
    assert forall|i: int| 0 <= i < z.len() implies (x + y)[i] == z[i] by {
        lemma_color_behind_add(first, second, i + 1, color);
        if i < first.len() {
            assert(all[i] == first[i]);
        } else {
            assert(all[i] == second[i - first.len()]);
        }
    }
    assert(x + y =~= z);
    if is_zone(zone) {
        assert forall|i: int| 0 <= i < all.len() implies is_output_of(
            all[i],
            color_behind(all, i + 1, color),
            ansi,
            #[trigger] z[i],
        ) by {
            lemma_output_on(all[i], color_behind(all, i + 1, color), ansi, zone, painted);
        }
    }
}

/// What two reads one after the other did is what one read of both together does,
/// wherever the stream was cut: the same is printed, and the same is kept. Nothing
/// that waits holds a line feed, and a line is printed for each that came.
pub proof fn law_pushes_add_up(
    before: (Seq<u8>, Option<LogColor>),
    between: (Seq<u8>, Option<LogColor>),
    after: (Seq<u8>, Option<LogColor>),
    a: Seq<u8>,
    b: Seq<u8>,
    ansi: bool,
    printed_before: Seq<String>,
    printed_between: Seq<String>,
    printed: Seq<String>,
)
    requires
        pushed(before, between, a, ansi, printed_before, printed_between),
        pushed(between, after, b, ansi, printed_between, printed),
    ensures
        pushed(before, after, a + b, ansi, printed_before, printed),
        !between.0.contains(10),
        !after.0.contains(10),
        !before.0.contains(10) ==> printed.len() == printed_before.len() + feeds(a + b),
{
    let first = complete_lines(before.0 + a);
    let second = complete_lines(between.0 + b);
    let all = complete_lines(before.0 + (a + b));
    law_reads_do_not_matter(before.0, a, b);
    lemma_left_has_no_feed(before.0 + a);
    lemma_left_has_no_feed(between.0 + b);
    assert(all == first + second);
    lemma_color_behind_add(first, second, all.len() as int, before.1);
    if second.len() == 0 {
        assert(color_behind(second, 0, between.1) == between.1);
    }
    let n0 = printed_before.len() as int;
    let n1 = printed_between.len() as int;
    assert(printed.take(n0) =~= printed.take(n1).take(n0));
    let x = appended(printed_before, printed_between);
    let y = appended(printed_between, printed);
    let z = appended(printed_before, printed);
    assert forall|i: int| 0 <= i < all.len() implies is_output_of(
        all[i],
        color_behind(all, i + 1, before.1),
        ansi,
        #[trigger] z[i],
    ) by {
        lemma_color_behind_add(first, second, i + 1, before.1);
        if i < first.len() {
            assert(all[i] == first[i]);
            assert(printed.take(n1)[n0 + i] == printed_between[n0 + i]);
            assert(z[i] == x[i]);
        } else {
            assert(all[i] == second[i - first.len()]);
            assert(z[i] == y[i - first.len()]);
        }
    }
    if !before.0.contains(10) {
        lemma_one_piece(before.0);
        lemma_feeds(a + b);
        lemma_pieces_add(before.0, a + b);
    }
}

/// A piece that a line feed ends is a piece of the whole.
proof fn lemma_piece_is_final(bytes: Seq<u8>, i: int)
    requires
        0 <= i < bytes.len(),
        bytes[i] == 10,
    ensures
        ({
            let k = pieces_of(bytes.take(i)).len() - 1;
            &&& k < pieces_of(bytes).len() - 1
            &&& pieces_of(bytes)[k] == pieces_of(bytes.take(i)).last()
        }),
{
    let a = bytes.take(i);
    let b = bytes.skip(i);
    lemma_pieces(a);
    lemma_pieces(b);
    lemma_pieces_add(a, b);
    assert(a + b =~= bytes);
    let one = seq![10u8];
    let c = bytes.skip(i + 1);
    assert(b =~= one + c);
    lemma_pieces(c);
    lemma_pieces_add(one, c);
    assert(one.drop_last() =~= Seq::<u8>::empty());
    assert(pieces_of(one.drop_last()) =~= seq![Seq::<u8>::empty()]);
    assert(pieces_of(one) =~= seq![Seq::<u8>::empty(), Seq::<u8>::empty()]);
    assert(pieces_of(b)[0] =~= Seq::<u8>::empty());
    assert(pieces_of(b).len() >= 2);
    assert(pieces_of(a).last() + Seq::<u8>::empty() =~= pieces_of(a).last());
}

/// The file that the daemon's own output goes to.
pub open spec fn is_fallback(name: Seq<char>) -> bool {
    name == "daemon.log"@
}

pub fn is_daemon_fallback_log(name: &str) -> (r: bool)
    ensures
        r == is_fallback(name@),
{
    same(name, "daemon.log")
}

/// Whether a file of the log directory is a rolling log.
pub open spec fn is_rolling_log(name: Seq<char>) -> bool {
    begins_with(name, "laozhou."@) && ends_in(name, ".log"@)
}

/// The rolling logs among the first `n` names.
pub open spec fn rolling_among(names: Seq<Seq<char>>, n: int) -> Seq<Seq<char>>
    decreases n,
{
    if n <= 0 {
        Seq::empty()
    } else if is_rolling_log(names[n - 1]) {
        rolling_among(names, n - 1).push(names[n - 1])
    } else {
        rolling_among(names, n - 1)
    }
}

/// The files of the log, oldest first: the daemon's own output, if it is there,
/// counts as the oldest.
pub fn daemon_log_files(names: &Vec<String>, has_fallback: bool) -> (r: Vec<String>)
    ensures
        ({
            let rolling = texts(r@).skip(
                if has_fallback {
                    1
                } else {
                    0
                },
            );
            &&& has_fallback ==> r@.len() > 0 && is_fallback(r@[0]@)
            &&& ascending(rolling)
            &&& rolling.to_multiset() == rolling_among(
                texts(names@),
                names@.len() as int,
            ).to_multiset()
        }),
{
    let mut found: Vec<String> = Vec::new();
    let ghost all = texts(names@);
    let mut i: usize = 0;
    assert(texts(found@) =~= rolling_among(all, 0));
    while i < names.len()
        invariant
            i <= names@.len(),
            all == texts(names@),
            texts(found@) == rolling_among(all, i as int),
        decreases names@.len() - i,
    {
        let name = names[i].as_str();
        assert(all[i as int] == name@);
        if starts_with(name, "laozhou.") && ends_with(name, ".log") {
            let entry = names[i].clone();
            proof {
                crate::text::lemma_texts_push(found@, entry);
            }
            found.push(entry);
        }
        i = i + 1;
    }
    let sorted = sorted_names(found);
    let mut out: Vec<String> = Vec::new();
    if has_fallback {
        out.push("daemon.log".to_owned());
    }
    let ghost head = out@.len() as int;
    let ghost before = out@;
    let ghost rest = sorted@;
    let mut sorted = sorted;
    out.append(&mut sorted);
    assert(out@ =~= before + rest);
    assert(texts(out@).skip(head) =~= texts(rest));
    out
}

/// Where to go on reading the log.
#[derive(Debug)]
pub struct DaemonLogFollowCursor {
    pub current: Option<String>,
    pub current_offset: u64,
    pub fallback: Option<String>,
    pub fallback_offset: u64,
}

/// The file that is written to now: the newest rolling log, or the daemon's own
/// output where there is none.
pub open spec fn newest_log(files: Seq<Seq<char>>) -> Option<Seq<char>>
    decreases files.len(),
{
    if files.len() == 0 {
        None
    } else if !is_fallback(files.last()) {
        Some(files.last())
    } else {
        match newest_log(files.drop_last()) {
            Some(name) => Some(name),
            None => Some(files.last()),
        }
    }
}

/// Whether the daemon's own output is among the files.
pub open spec fn fallback_log(files: Seq<Seq<char>>) -> Option<Seq<char>> {
    if files.contains("daemon.log"@) {
        Some("daemon.log"@)
    } else {
        None
    }
}

proof fn lemma_newest_log(files: Seq<Seq<char>>, n: int)
    requires
        0 <= n <= files.len(),
        forall|i: int| n <= i < files.len() ==> is_fallback(#[trigger] files[i]),
    ensures
        newest_log(files) == match newest_log(files.take(n)) {
            Some(name) => Some(name),
            None => if n < files.len() {
                Some("daemon.log"@)
            } else {
                None
            },
        },
    decreases files.len(),
{
    if n < files.len() {
        let rest = files.drop_last();
        assert(files[files.len() - 1] == files.last());
        assert(rest.take(n) =~= files.take(n));
        assert forall|i: int| n <= i < rest.len() implies is_fallback(#[trigger] rest[i]) by {
            assert(rest[i] == files[i]);
        }
        lemma_newest_log(rest, n);
    } else {
        assert(files.take(n) =~= files);
    }
}

pub fn latest_logs(files: &Vec<String>) -> (r: (Option<String>, Option<String>))
    ensures
        opt_string(r.0) == newest_log(texts(files@)),
        opt_string(r.1) == fallback_log(texts(files@)),
{
    let ghost all = texts(files@);
    let fallback: Option<String> = if contains_name(files, "daemon.log") {
        Some("daemon.log".to_owned())
    } else {
        None
    };
    let mut i: usize = files.len();
    while i > 0
        invariant
            i <= files@.len(),
            all == texts(files@),
            opt_string(fallback) == fallback_log(all),
            forall|k: int| i <= k < all.len() ==> is_fallback(#[trigger] all[k]),
        decreases i,
    {
        assert(all[i - 1] == files@[i - 1]@);
        if !is_daemon_fallback_log(files[i - 1].as_str()) {
            proof {
                lemma_newest_log(all, i as int);
                assert(all.take(i as int).last() == all[i - 1]);
            }
            return (Some(files[i - 1].clone()), fallback);
        }
        i = i - 1;
    }
    proof {
        lemma_newest_log(all, 0);
        assert(all.take(0) =~= Seq::empty());
        if all.len() > 0 {
            assert(all[0] == "daemon.log"@);
        }
    }
    let current: Option<String> = match &fallback {
        Some(name) => Some(name.clone()),
        None => None,
    };
    (current, fallback)
}

/// A position in a file.
#[derive(Debug)]
pub struct FileOffset {
    pub name: String,
    pub offset: u64,
}

/// The position that is noted first for a file.
pub open spec fn offset_in(offsets: Seq<FileOffset>, name: Seq<char>) -> Option<u64>
    decreases offsets.len(),
{
    if offsets.len() == 0 {
        None
    } else if offsets[0].name@ == name {
        Some(offsets[0].offset)
    } else {
        offset_in(offsets.drop_first(), name)
    }
}

/// Where reading a file goes on: at the noted position, else at its length.
pub open spec fn resume_offset(
    offsets: Seq<FileOffset>,
    lengths: Seq<FileOffset>,
    name: Option<Seq<char>>,
) -> u64 {
    match name {
        Some(name) => match offset_in(offsets, name) {
            Some(offset) => offset,
            None => match offset_in(lengths, name) {
                Some(length) => length,
                None => 0,
            },
        },
        None => 0,
    }
}

fn find_offset(offsets: &Vec<FileOffset>, name: &str) -> (r: Option<u64>)
    ensures
        r == offset_in(offsets@, name@),
{
    let mut i: usize = 0;
    assert(offsets@.skip(0) =~= offsets@);
    while i < offsets.len()
        invariant
            i <= offsets@.len(),
            offset_in(offsets@, name@) == offset_in(offsets@.skip(i as int), name@),
        decreases offsets@.len() - i,
    {
        assert(offsets@.skip(i as int)[0] == offsets@[i as int]);
        assert(offsets@.skip(i as int).drop_first() =~= offsets@.skip(i + 1));
        if same(offsets[i].name.as_str(), name) {
            return Some(offsets[i].offset);
        }
        i = i + 1;
    }
    None
}

fn start_offset(offsets: &Vec<FileOffset>, lengths: &Vec<FileOffset>, name: &Option<String>) -> (r:
    u64)
    ensures
        r == resume_offset(offsets@, lengths@, opt_string(*name)),
{
    match name {
        Some(name) => match find_offset(offsets, name.as_str()) {
            Some(offset) => offset,
            None => match find_offset(lengths, name.as_str()) {
                Some(length) => length,
                None => 0,
            },
        },
        None => 0,
    }
}

pub fn daemon_log_follow_cursor_for_files(
    files: &Vec<String>,
    offsets: &Vec<FileOffset>,
    lengths: &Vec<FileOffset>,
) -> (r: DaemonLogFollowCursor)
    ensures
        opt_string(r.current) == newest_log(texts(files@)),
        opt_string(r.fallback) == fallback_log(texts(files@)),
        r.current_offset == resume_offset(offsets@, lengths@, newest_log(texts(files@))),
        r.fallback_offset == resume_offset(offsets@, lengths@, fallback_log(texts(files@))),
{
    let (current, fallback) = latest_logs(files);
    let current_offset = start_offset(offsets, lengths, &current);
    let fallback_offset = start_offset(offsets, lengths, &fallback);
    DaemonLogFollowCursor { current, current_offset, fallback, fallback_offset }
}

/// The last `limit` entries.
pub open spec fn last_of(v: Seq<Seq<char>>, limit: int) -> Seq<Seq<char>> {
    if v.len() > limit {
        v.skip(v.len() - limit)
    } else {
        v
    }
}

fn keep_last(all: Vec<String>, limit: usize) -> (r: Vec<String>)
    ensures
        texts(r@) == last_of(texts(all@), limit as int),
{
    let mut all = all;
    let n: usize = all.len();
    assert(texts(all@).len() == n);
    if n <= limit {
        return all;
    }
    let ghost before = all@;
    let kept = all.split_off(n - limit);
    assert(texts(kept@) =~= texts(before).skip(n - limit));
    kept
}

/// The last lines of the end of a file.
pub fn tail_file_lines(text: &str, limit: usize) -> (r: Vec<String>)
    ensures
        texts(r@) == last_of(lines_of(text@), limit as int),
{
    keep_last(lines(text), limit)
}

/// How many line feeds there are in a run of bytes.
pub open spec fn feeds(bytes: Seq<u8>) -> int {
    bytes.filter(|b: u8| b == 10).len() as int
}

/// There is one piece more than there are line feeds.
proof fn lemma_feeds(bytes: Seq<u8>)
    ensures
        0 <= feeds(bytes) <= bytes.len(),
        pieces_of(bytes).len() == feeds(bytes) + 1,
    decreases bytes.len(),
{
    reveal(Seq::filter);
    if bytes.len() > 0 {
        lemma_feeds(bytes.drop_last());
    }
}

fn count_feeds(bytes: &Vec<u8>) -> (n: usize)
    ensures
        n == feeds(bytes@),
{
    let mut n: usize = 0;
    let mut i: usize = 0;
    assert(bytes@.take(0) =~= Seq::empty());
    while i < bytes.len()
        invariant
            i <= bytes@.len(),
            n == feeds(bytes@.take(i as int)),
            n <= i,
        decreases bytes@.len() - i,
    {
        proof {
            reveal(Seq::filter);
            assert(bytes@.take(i + 1).drop_last() =~= bytes@.take(i as int));
        }
        if bytes[i] == 10 {
            n = n + 1;
        }
        i = i + 1;
    }
    assert(bytes@.take(bytes@.len() as int) =~= bytes@);
    n
}

/// A block of a file is read with so many bytes at once.
pub const TAIL_BLOCK: u64 = 8192;

/// The end of a file, read backwards block by block.
#[derive(Debug)]
pub struct FileTail {
    /// The length of the file when reading began.
    pub end: u64,
    /// Where the bytes that were read begin.
    pub position: u64,
    pub bytes: Vec<u8>,
    pub newline_count: usize,
}

impl FileTail {
    pub open spec fn wf(self) -> bool {
        &&& self.position + self.bytes@.len() == self.end
        &&& self.newline_count == feeds(self.bytes@)
    }

    /// What was read is the end of the file.
    pub open spec fn holds(self, file: Seq<u8>) -> bool {
        &&& self.wf()
        &&& self.end == file.len()
        &&& self.bytes@ == file.skip(self.position as int)
    }

    pub fn new(end: u64) -> (r: Self)
        ensures
            r.wf(),
            r.end == end,
            r.position == end,
            forall|file: Seq<u8>| file.len() == end ==> #[trigger] r.holds(file),
    {
        let r = FileTail { end, position: end, bytes: Vec::new(), newline_count: 0 };
        assert forall|file: Seq<u8>| file.len() == end implies #[trigger] r.holds(file) by {
            assert(file.skip(end as int) =~= Seq::empty());
        }
        r
    }

    /// The block to read next for the last lines, by its place and its size:
    /// none before the start of the file, and none once more line feeds than
    /// lines are there.
    pub fn next_block(&self, limit: usize) -> (r: Option<(u64, usize)>)
        ensures
            r is Some <==> self.position > 0 && self.newline_count <= limit,
            r matches Some((start, size)) ==> {
                &&& 0 < size <= TAIL_BLOCK
                &&& start + size == self.position
                &&& size < TAIL_BLOCK ==> start == 0
            },
    {
        if self.position == 0 || self.newline_count > limit {
            return None;
        }
        let size = if self.position < TAIL_BLOCK {
            self.position
        } else {
            TAIL_BLOCK
        };
        Some((self.position - size, size as usize))
    }

    /// Puts a block in front of what was read behind it.
    pub fn absorb(&mut self, block: Vec<u8>)
        requires
            old(self).wf(),
            block@.len() <= old(self).position,
            block@.len() + old(self).bytes@.len() <= usize::MAX,
        ensures
            final(self).wf(),
            final(self).end == old(self).end,
            final(self).position == old(self).position - block@.len(),
            final(self).bytes@ == block@ + old(self).bytes@,
            forall|file: Seq<u8>|
                old(self).holds(file) && block@ == file.subrange(
                    old(self).position - block@.len(),
                    old(self).position as int,
                ) ==> #[trigger] final(self).holds(file),
    {
        proof {
            lemma_pieces_add(block@, self.bytes@);
            lemma_feeds(block@);
            lemma_feeds(self.bytes@);
            lemma_feeds(block@ + self.bytes@);
        }
        let ghost first = block@;
        let mut block = block;
        self.newline_count = self.newline_count + count_feeds(&block);
        self.position = self.position - block.len() as u64;
        block.append(&mut self.bytes);
        self.bytes = block;
        assert(self.bytes@ =~= first + old(self).bytes@);
        assert forall|file: Seq<u8>|
            old(self).holds(file) && first == file.subrange(
                old(self).position - first.len(),
                old(self).position as int,
            ) implies #[trigger] self.holds(file) by {
            assert(file.skip(self.position as int) =~= first + file.skip(
                old(self).position as int,
            ));
        }
    }

    /// The last lines of what was read.
    pub fn lines(&self, limit: usize) -> (r: Vec<String>)
        ensures
            texts(r@) == last_of(lines_of(lossy_text(self.bytes@)), limit as int),
    {
        tail_file_lines(read_lossy(self.bytes.as_slice()).as_str(), limit)
    }
}

/// Where no further block is wanted, the last lines of the file have been read
/// whole: they are those of the bytes that were read.
pub proof fn law_end_of_file_is_enough(tail: FileTail, file: Seq<u8>, limit: int)
    requires
        tail.holds(file),
        limit >= 0,
        tail.position == 0 || tail.newline_count > limit,
    ensures
        tail.position == 0 ==> tail.bytes@ == file,
        tail.position > 0 ==> pieces_of(file).skip(pieces_of(file).len() - (limit + 1))
            == pieces_of(tail.bytes@).skip(pieces_of(tail.bytes@).len() - (limit + 1)),
{
    let front = file.take(tail.position as int);
    assert(file =~= front + tail.bytes@);
    lemma_pieces(front);
    lemma_feeds(tail.bytes@);
    lemma_pieces_add(front, tail.bytes@);
    if tail.position == 0 {
        assert(tail.bytes@ =~= file);
    } else {
        assert(pieces_of(file).skip(pieces_of(file).len() - (limit + 1)) =~= pieces_of(
            tail.bytes@,
        ).skip(pieces_of(tail.bytes@).len() - (limit + 1)));
    }
}

/// How many lines are still wanted from the next older file.
pub fn lines_wanted(collected: usize, limit: usize) -> (r: usize)
    ensures
        r == if collected < limit {
            limit - collected
        } else {
            0
        },
{
    limit.saturating_sub(collected)
}

/// The lines of all files, oldest first.
pub open spec fn all_lines(tails: Seq<Vec<String>>) -> Seq<Seq<char>>
    decreases tails.len(),
{
    if tails.len() == 0 {
        Seq::empty()
    } else {
        all_lines(tails.drop_last()) + texts(tails.last()@)
    }
}

/// The most recent lines of the log, oldest first, given those of each of its
/// files.
pub fn recent_daemon_log_lines(tails: &Vec<Vec<String>>, limit: usize) -> (r: Vec<String>)
    ensures
        texts(r@) == last_of(all_lines(tails@), limit as int),
{
    let mut all: Vec<String> = Vec::new();
    let mut i: usize = 0;
    assert(tails@.take(0) =~= Seq::empty());
    assert(texts(all@) =~= all_lines(tails@.take(0)));
    while i < tails.len()
        invariant
            i <= tails@.len(),
            texts(all@) == all_lines(tails@.take(i as int)),
        decreases tails@.len() - i,
    {
        let mut more = crate::layout::clone_lines(tails[i].as_slice());
        let ghost before = all@;
        let ghost added = more@;
        all.append(&mut more);
        assert(texts(all@) =~= texts(before) + texts(added));
        assert(tails@.take(i + 1).drop_last() =~= tails@.take(i as int));
        i = i + 1;
    }
    assert(tails@.take(tails@.len() as int) =~= tails@);
    keep_last(all, limit)
}

/// Reading no more than the last `limit` lines of each file loses none of the
/// last `limit` lines of the log.
pub proof fn law_tails_are_enough(tails: Seq<Seq<Seq<char>>>, limit: int)
    requires
        limit >= 0,
    ensures
        last_of(joined_tails(tails), limit) == last_of(
            joined_tails(tails.map_values(|v: Seq<Seq<char>>| last_of(v, limit))),
            limit,
        ),
    decreases tails.len(),
{
    let cut = |v: Seq<Seq<char>>| last_of(v, limit);
    let short = tails.map_values(cut);
    if tails.len() > 0 {
        law_tails_are_enough(tails.drop_last(), limit);
        assert(short.drop_last() =~= tails.drop_last().map_values(cut));
        let a = joined_tails(tails.drop_last());
        let b = joined_tails(short.drop_last());
        let x = tails.last();
        let y = last_of(x, limit);
        assert(short.last() == y);
        lemma_last_of_add(a, x, limit);
        lemma_last_of_add(b, y, limit);
        assert(last_of(y, limit) =~= y);
        assert(last_of(a + x, limit) =~= last_of(b + y, limit));
    } else {
        assert(short =~= tails);
    }
}

/// The lines of several files one behind the other.
pub open spec fn joined_tails(tails: Seq<Seq<Seq<char>>>) -> Seq<Seq<char>>
    decreases tails.len(),
{
    if tails.len() == 0 {
        Seq::empty()
    } else {
        joined_tails(tails.drop_last()) + tails.last()
    }
}

/// The last entries of two lists depend on the last entries of the first alone.
proof fn lemma_last_of_add(a: Seq<Seq<char>>, x: Seq<Seq<char>>, limit: int)
    requires
        limit >= 0,
    ensures
        last_of(a + x, limit) == last_of(last_of(a, limit) + last_of(x, limit), limit),
{
    assert(last_of(a + x, limit) =~= last_of(last_of(a, limit) + last_of(x, limit), limit));
}

/// How the part of a file behind a position is read.
#[derive(Clone, Copy, Debug, PartialEq, Eq, Structural)]
pub struct DeltaPlan {
    pub start: u64,
    /// The file became shorter: what waits belongs to its old contents.
    pub reset: bool,
    pub nothing_new: bool,
}

pub fn read_daemon_log_delta(len: u64, offset: u64) -> (r: DeltaPlan)
    ensures
        r.reset == (len < offset),
        r.start == if len < offset {
            0
        } else {
            offset
        },
        r.nothing_new == (len == r.start),
{
    let reset = len < offset;
    let start: u64 = if reset {
        0
    } else {
        offset
    };
    DeltaPlan { start, reset, nothing_new: len == start }
}

/// Prints what was read behind a position; says whether there was anything. A
/// line that waits is printed before the contents of a file that was cut.
pub fn write_daemon_log_delta(
    formatter: &mut DaemonLogStreamFormatter,
    offset: &mut u64,
    reset: bool,
    next_offset: u64,
    bytes: &[u8],
    ansi: bool,
    output: &mut Vec<String>,
) -> (changed: bool)
    ensures
        *final(offset) == next_offset,
        changed == (bytes@.len() > 0),
        !reset && bytes@.len() == 0 ==> final(output)@ == old(output)@ && kept_by(*final(formatter))
            == kept_by(*old(formatter)),
        !reset && bytes@.len() > 0 ==> pushed(
            kept_by(*old(formatter)),
            kept_by(*final(formatter)),
            bytes@,
            ansi,
            old(output)@,
            final(output)@,
        ),
        reset ==> exists|mid: (Seq<u8>, Option<LogColor>), printed: Seq<String>|
            #[trigger] finished(kept_by(*old(formatter)), mid, ansi, old(output)@, printed) && if bytes@.len()
                == 0 {
                kept_by(*final(formatter)) == mid && final(output)@ == printed
            } else {
                pushed(mid, kept_by(*final(formatter)), bytes@, ansi, printed, final(output)@)
            },
{
    if reset {
        formatter.finish(ansi, output);
    }
    let ghost mid = kept_by(*formatter);
    let ghost printed = output@;
    assert(reset ==> finished(kept_by(*old(formatter)), mid, ansi, old(output)@, printed));
    *offset = next_offset;
    if bytes.len() == 0 {
        return false;
    }
    formatter.push(bytes, ansi, output);
    true
}

/// Whether a process is there, given how it answered the empty signal: one that
/// may not be signalled is there as well.
pub fn daemon_process_alive(pid: u32, signalled: bool, permission_denied: bool) -> (r: bool)
    ensures
        r == (pid != 0 && (signalled || permission_denied)),
{
    if pid == 0 {
        return false;
    }
    signalled || permission_denied
}

/// Which of the two formatters print what waits when following ends: a single
/// file is followed by one of them.
pub fn finish_daemon_log_formatters(
    current: &Option<String>,
    fallback: &Option<String>,
    formatter: &mut DaemonLogStreamFormatter,
    fallback_formatter: &mut DaemonLogStreamFormatter,
    ansi: bool,
    output: &mut Vec<String>,
)
    ensures
        opt_string(*current) == opt_string(*fallback) ==> kept_by(*final(formatter)) == kept_by(
            *old(formatter),
        ) && finished(
            kept_by(*old(fallback_formatter)),
            kept_by(*final(fallback_formatter)),
            ansi,
            old(output)@,
            final(output)@,
        ),
        opt_string(*current) != opt_string(*fallback) ==> exists|printed: Seq<String>|
            #[trigger] finished(
                kept_by(*old(formatter)),
                kept_by(*final(formatter)),
                ansi,
                old(output)@,
                printed,
            ) && finished(
                kept_by(*old(fallback_formatter)),
                kept_by(*final(fallback_formatter)),
                ansi,
                printed,
                final(output)@,
            ),
{
    if !same_file(current, fallback) {
        formatter.finish(ansi, output);
    }
    fallback_formatter.finish(ansi, output);
}

fn same_file(a: &Option<String>, b: &Option<String>) -> (r: bool)
    ensures
        r == (opt_string(*a) == opt_string(*b)),
{
    match (a, b) {
        (Some(a), Some(b)) => same(a.as_str(), b.as_str()),
        (None, None) => true,
        _ => false,
    }
}

/// The files that are followed, and what is known of the daemon.
#[derive(Debug)]
pub struct LogFollower {
    pub current: Option<String>,
    pub offset: u64,
    pub fallback: Option<String>,
    pub fallback_offset: u64,
    pub known_pid: Option<u32>,
    pub misses: u8,
}

/// How often in a row the daemon may be missing before following ends.
pub const MAX_DAEMON_MISSES: u8 = 3;

/// What a change of files asks for: the rest of a file that is no longer
/// followed is read, and what waits of it is printed.
#[derive(Debug)]
pub struct RotationPlan {
    pub fallback_changed: bool,
    /// The daemon's own output as it was followed.
    pub old_fallback: Option<String>,
    pub old_fallback_offset: u64,
    pub current_changed: bool,
    /// The log as it was followed, unless it is the daemon's own output now.
    pub old_current: Option<String>,
    pub old_offset: u64,
}

fn copy_name(name: &Option<String>) -> (r: Option<String>)
    ensures
        opt_string(r) == opt_string(*name),
{
    match name {
        Some(name) => Some(name.clone()),
        None => None,
    }
}

impl LogFollower {
    pub fn new(cursor: DaemonLogFollowCursor, pid: u32) -> (r: Self)
        ensures
            r.current == cursor.current,
            r.offset == cursor.current_offset,
            r.fallback == cursor.fallback,
            r.fallback_offset == cursor.fallback_offset,
            r.known_pid == Some(pid),
            r.misses == 0,
    {
        LogFollower {
            current: cursor.current,
            offset: cursor.current_offset,
            fallback: cursor.fallback,
            fallback_offset: cursor.fallback_offset,
            known_pid: Some(pid),
            misses: 0,
        }
    }

    /// Goes over to the files that are there now; a new file is read from its
    /// start.
    pub fn rotate(&mut self, files: &Vec<String>) -> (plan: RotationPlan)
        ensures
            ({
                let now = newest_log(texts(files@));
                let own = fallback_log(texts(files@));
                let was = opt_string(old(self).current);
                let was_own = opt_string(old(self).fallback);
                &&& opt_string(final(self).current) == now
                &&& opt_string(final(self).fallback) == own
                &&& plan.fallback_changed == (own != was_own)
                &&& plan.current_changed == (now != was)
                &&& final(self).fallback_offset == if plan.fallback_changed {
                    0
                } else {
                    old(self).fallback_offset
                }
                &&& final(self).offset == if plan.current_changed {
                    0
                } else {
                    old(self).offset
                }
                &&& plan.old_fallback_offset == old(self).fallback_offset
                &&& plan.old_offset == old(self).offset
                &&& opt_string(plan.old_fallback) == if plan.fallback_changed {
                    was_own
                } else {
                    None
                }
                &&& opt_string(plan.old_current) == if plan.current_changed && was
                    != own {
                    was
                } else {
                    None
                }
                &&& final(self).known_pid == old(self).known_pid
                &&& final(self).misses == old(self).misses
            }),
    {
        let (latest, latest_fallback) = latest_logs(files);
        let fallback_changed = !same_file(&latest_fallback, &self.fallback);
        let old_fallback_offset = self.fallback_offset;
        let old_fallback = if fallback_changed {
            copy_name(&self.fallback)
        } else {
            None
        };
        if fallback_changed {
            self.fallback = latest_fallback;
            self.fallback_offset = 0;
        }
        let current_changed = !same_file(&latest, &self.current);
        let old_offset = self.offset;
        let old_current = if current_changed && !same_file(&self.current, &self.fallback) {
            copy_name(&self.current)
        } else {
            None
        };
        if current_changed {
            self.current = latest;
            self.offset = 0;
        }
        RotationPlan {
            fallback_changed,
            old_fallback,
            old_fallback_offset,
            current_changed,
            old_current,
            old_offset,
        }
    }

    /// The files to read: a single file is read once.
    pub fn reads_current(&self) -> (r: bool)
        ensures
            r == (opt_string(self.current) != opt_string(self.fallback)),
    {
        !same_file(&self.current, &self.fallback)
    }

    /// Whether to go on following behind a tick. New output proves the daemon
    /// alive; so does its answer, which also tells its process. A daemon that
    /// does not answer is given up only where its socket or its process is gone
    /// and it was missing several times in a row.
    pub fn keep_following(
        &mut self,
        changed: bool,
        answered: Option<u32>,
        alive: bool,
        socket_exists: bool,
    ) -> (go_on: bool)
        ensures
            ({
                let missing = !changed && answered is None && !(socket_exists && (alive || old(self).known_pid is None));
                &&& final(self).misses == if !missing {
                    0
                } else if old(self).misses == u8::MAX {
                    u8::MAX
                } else {
                    (old(self).misses + 1) as u8
                }
                &&& go_on == (!missing || final(self).misses < MAX_DAEMON_MISSES)
                &&& final(self).known_pid == if !changed && answered is Some {
                    answered
                } else {
                    old(self).known_pid
                }
                &&& *final(self) == (LogFollower {
                    misses: final(self).misses,
                    known_pid: final(self).known_pid,
                    ..*old(self)
                })
            }),
    {
        if changed {
            self.misses = 0;
            return true;
        }
        if let Some(pid) = answered {
            self.known_pid = Some(pid);
            self.misses = 0;
            return true;
        }
        if socket_exists && (alive || self.known_pid.is_none()) {
            self.misses = 0;
            return true;
        }
        self.misses = self.misses.saturating_add(1);
        self.misses < MAX_DAEMON_MISSES
    }
}

/// The number of lines that may be asked for.
pub fn check_log_lines(lang: Lang, count: usize) -> (r: Result<usize, String>)
    ensures
        r matches Ok(n) ==> n == count && 1 <= count <= 100_000,
        r matches Err(message) ==> !(1 <= count <= 100_000) && message@ == pick(
            lang,
            "--lines must be between 1 and 100000"@,
            "--lines 必须在 1 到 100000 之间"@,
        ),
{
    if 1 <= count && count <= 100_000 {
        Ok(count)
    } else {
        Err(
            t(
                lang,
                "--lines must be between 1 and 100000",
                "--lines 必须在 1 到 100000 之间",
            ).to_owned(),
        )
    }
}

proof fn lemma_word_before_blank(word: Seq<char>, rest: Seq<char>)
    requires
        forall|i: int| 0 <= i < word.len() ==> !is_white_space(#[trigger] word[i]),
        rest.len() > 0,
        is_white_space(rest[0]),
    ensures
        word_len(word + rest) == word.len(),
        (word + rest).take(word.len() as int) == word,
        (word + rest).skip(word.len() as int) == rest,
{
    let s = word + rest;
    lemma_word_len(s);
    let n = word_len(s) as int;
    if n < word.len() {
        assert(s[n] == word[n]);
    }
    if n > word.len() {
        assert(s[word.len() as int] == rest[0]);
    }
    assert(s.take(word.len() as int) =~= word);
    assert(s.skip(word.len() as int) =~= rest);
}

proof fn lemma_blanks_before_text(blanks: Seq<char>, text: Seq<char>)
    requires
        forall|i: int| 0 <= i < blanks.len() ==> is_white_space(#[trigger] blanks[i]),
        text.len() > 0,
        !is_white_space(text[0]),
    ensures
        trim_left(blanks + text) == text,
    decreases blanks.len(),
{
    let s = blanks + text;
    if blanks.len() == 0 {
        assert(s =~= text);
    } else {
        assert(s[0] == blanks[0]);
        let rest = blanks.drop_first();
        assert(s.drop_first() =~= rest + text);
        assert forall|i: int| 0 <= i < rest.len() implies is_white_space(#[trigger] rest[i]) by {
            assert(rest[i] == blanks[i + 1]);
        }
        lemma_blanks_before_text(rest, text);
    }
}

/// The five levels of the log, and the modules that write to it.
pub open spec fn writes_to_the_log(level: Seq<char>, module: Seq<char>) -> bool {
    &&& level == "TRACE"@ || level == "DEBUG"@ || level == "INFO"@ || level == "WARN"@ || level
        == "ERROR"@
    &&& module == "laozhou"@ || exists|name: Seq<char>|
        name.len() > 0 && module == #[trigger] ("laozhou::"@ + name)
}

/// A line of a date and time, one of the five levels, a module and a message is
/// read as exactly these four parts, however many blanks stand between them.
pub proof fn law_written_lines_are_read_back(
    timestamp: Seq<char>,
    gap: Seq<char>,
    level: Seq<char>,
    space: Seq<char>,
    module: Seq<char>,
    message: Seq<char>,
    line: &str,
    r: Option<ParsedDaemonLogLine<'_>>,
)
    requires
        is_rfc3339(timestamp),
        forall|i: int| 0 <= i < timestamp.len() ==> !is_white_space(#[trigger] timestamp[i]),
        gap.len() > 0,
        forall|i: int| 0 <= i < gap.len() ==> is_white_space(#[trigger] gap[i]),
        space.len() > 0,
        forall|i: int| 0 <= i < space.len() ==> is_white_space(#[trigger] space[i]),
        writes_to_the_log(level, module),
        forall|i: int| !occurs_at(module, i, ": "@),
        line@ == timestamp + gap + level + space + module + ": "@ + message,
        call_ensures(parse_daemon_log_line, (line,), r),
    ensures
        r is Some,
        r->0.timestamp@ == timestamp,
        r->0.level@ == level,
        r->0.module@ == module,
        r->0.message@ == message,
{
    lemma_level_facts(level);
    lemma_module_facts(module);
    let tail = module + ": "@ + message;
    let after_level = space + tail;
    let after_time = gap + (level + after_level);
    assert(line@ =~= timestamp + after_time);
    assert(after_time[0] == gap[0]);
    lemma_word_before_blank(timestamp, after_time);
    assert((level + after_level)[0] == level[0]);
    lemma_blanks_before_text(gap, level + after_level);
    assert(after_level[0] == space[0]);
    lemma_word_before_blank(level, after_level);
    assert(tail[0] == module[0]);
    lemma_blanks_before_text(space, tail);
    lemma_module_is_first(module, message);
    assert(r->0@ == parsed_line(line@)->0);
}

proof fn lemma_level_facts(level: Seq<char>)
    requires
        level == "TRACE"@ || level == "DEBUG"@ || level == "INFO"@ || level == "WARN"@ || level
            == "ERROR"@,
    ensures
        level.len() > 0,
        forall|i: int| 0 <= i < level.len() ==> !is_white_space(#[trigger] level[i]),
{
    reveal_strlit("TRACE");
    reveal_strlit("DEBUG");
    reveal_strlit("INFO");
    reveal_strlit("WARN");
    reveal_strlit("ERROR");
    assert forall|i: int| 0 <= i < level.len() implies !is_white_space(#[trigger] level[i]) by {
        assert(i == 0 || i == 1 || i == 2 || i == 3 || i == 4);
    }
}

proof fn lemma_module_facts(module: Seq<char>)
    requires
        module == "laozhou"@ || exists|name: Seq<char>|
            name.len() > 0 && module == #[trigger] ("laozhou::"@ + name),
    ensures
        is_target(module),
        module.len() > 0,
        !is_white_space(module[0]),
{
    reveal_strlit("laozhou");
    reveal_strlit("laozhou::");
    if module != "laozhou"@ {
        let name = choose|name: Seq<char>|
            name.len() > 0 && module == #[trigger] ("laozhou::"@ + name);
        assert(module.take("laozhou::"@.len() as int) =~= "laozhou::"@);
        assert(module[0] == "laozhou::"@[0]);
    }
}

proof fn lemma_module_is_first(module: Seq<char>, message: Seq<char>)
    requires
        is_target(module),
        forall|i: int| !occurs_at(module, i, ": "@),
    ensures
        module_and_message(module + ": "@ + message) == (module, message),
{
    reveal_strlit(": ");
    let s = module + ": "@ + message;
    let n = module.len() as int;
    assert(": "@[0] == ':' && ": "@[1] == ' ');
    assert(s.subrange(n, n + 2) =~= ": "@);
    assert(occurs_at(s, n, ": "@));
    assert forall|j: int| 0 <= j < n implies !occurs_at(s, j, ": "@) by {
        if occurs_at(s, j, ": "@) {
            let found = s.subrange(j, j + 2);
            assert(found[0] == s[j] && found[1] == s[j + 1]);
            if j + 1 < n {
                assert(module.subrange(j, j + 2) =~= ": "@);
                assert(occurs_at(module, j, ": "@));
            } else {
                assert(s[n] == ": "@[0]);
            }
        }
    }
    assert(s.take(n) =~= module);
    assert(is_first_occurrence(s, ": "@, n) && is_target(s.take(n)));
    let i = choose|i: int| is_first_occurrence(s, ": "@, i) && is_target(s.take(i));
    assert(i == n) by {
        if i < n {
            assert(!occurs_at(s, i, ": "@));
        }
        if n < i {
            assert(!occurs_at(s, n, ": "@));
        }
    }
    assert(s.skip(n + 2) =~= message);
}

/// Without colours a line of the log is printed as the time, the level and the
/// module in brackets, and the message behind them.
pub proof fn law_lines_are_printed_in_brackets(
    line: &str,
    parsed: Option<ParsedDaemonLogLine<'_>>,
    r: String,
)
    requires
        call_ensures(parse_daemon_log_line, (line,), parsed),
        parsed is Some,
        call_ensures(format_daemon_log_line, (line, false), r),
    ensures
        exists|time: Seq<char>|
            is_local_time(parsed->0.timestamp@, "%H:%M:%S%.3f"@, time) && r@ == #[trigger] (
            "["@ + time + "]"@ + " "@ + ("["@ + parsed->0.level@ + "]"@) + " "@ + ("["@
                + parsed->0.module@ + "]"@)) + if parsed->0.message@.len() == 0 {
                Seq::empty()
            } else {
                " "@ + parsed->0.message@
            },
{
    let p = parsed_line(line@)->0;
    let color = color_after(line@, None);
    let time = choose|time: Seq<char>|
        is_local_time(p.timestamp, "%H:%M:%S%.3f"@, time) && #[trigger] is_printed_line(
            p,
            time,
            color,
            false,
            r@,
        );
    let head = "["@ + time + "]"@ + " "@ + ("["@ + parsed->0.level@ + "]"@) + " "@ + ("["@
        + parsed->0.module@ + "]"@);
    let (a, b, c, d) = choose|a: Seq<char>, b: Seq<char>, c: Seq<char>, d: Seq<char>| #[trigger]
        are_printed_parts(p, time, color, false, a, b, c, d) && r@ == if p.message.len() == 0 {
            a + " "@ + b + " "@ + c
        } else {
            a + " "@ + b + " "@ + c + " "@ + d
        };
    assert(d == p.message);
    assert(a + " "@ + b + " "@ + c =~= head);
    assert(a + " "@ + b + " "@ + c + " "@ + d =~= head + (" "@ + p.message));
    assert(head + Seq::<char>::empty() =~= head);
}

/// Errors are red, warnings yellow, information green, debugging cyan, and the
/// rest grey.
pub proof fn law_levels_have_their_colours(level: &str, r: LogColor)
    requires
        call_ensures(log_level_color, (level,), r),
    ensures
        r is Red <==> level@ == "ERROR"@,
        r is Yellow <==> level@ == "WARN"@,
        r is Green <==> level@ == "INFO"@,
        r is Cyan <==> level@ == "DEBUG"@,
        r is Red || r is Yellow || r is Green || r is Cyan || r is DarkGrey,
{
    reveal_strlit("ERROR");
    reveal_strlit("WARN");
    reveal_strlit("INFO");
    reveal_strlit("DEBUG");
    assert("ERROR"@[0] == 'E' && "DEBUG"@[0] == 'D');
    assert("WARN"@[0] == 'W' && "INFO"@[0] == 'I');
}

/// A coloured text is the text between two sequences, the first with the number
/// of its colour where colours are on.
pub proof fn law_colour_goes_around_the_text(text: Seq<char>, color: LogColor, r: Seq<char>)
    requires
        is_colored(text, color, r),
    ensures
        exists|before: Seq<char>, behind: Seq<char>|
            r == #[trigger] (before + text + behind) && (before == "\x1b["@ + "m"@ || before
                == "\x1b["@ + match color {
                LogColor::Red => "38;5;9"@,
                LogColor::Yellow => "38;5;11"@,
                LogColor::Green => "38;5;10"@,
                LogColor::Cyan => "38;5;14"@,
                LogColor::DarkGrey => "38;5;8"@,
                LogColor::DarkGreen => "38;5;2"@,
                LogColor::DarkCyan => "38;5;6"@,
            } + "m"@) && (behind == "\x1b["@ + "m"@ || behind == "\x1b["@ + "39"@ + "m"@),
{
    let (on, off) = choose|on: bool, off: bool| #[trigger] colored_with(text, color, on, off) == r;
    let before = color_sequence(
        if on {
            palette_code(color)
        } else {
            Seq::empty()
        },
    );
    let behind = color_sequence(
        if off {
            "39"@
        } else {
            Seq::empty()
        },
    );
    assert(r == before + text + behind);
    assert("\x1b["@ + Seq::<char>::empty() + "m"@ =~= "\x1b["@ + "m"@);
}

/// A decision to reply is green and one not to reply grey, in either language;
/// what announces none has no colour of its own.
pub proof fn law_decisions_have_their_colours(value: &str, r: Option<LogColor>)
    requires
        call_ensures(active_reply_log_color, (value,), r),
        lines_of(trim_left(value@)).len() > 0,
    ensures
        ({
            let first = lines_of(trim_left(value@))[0];
            &&& first == "[Continuation decision: reply]"@ || first
                == "[Active reply decision: reply]"@ || first == "【续聊窗口判断：回复】"@
                || first == "【主动回复判断：回复】"@ ==> r == Some(LogColor::Green)
            &&& first == "[Continuation decision: no reply]"@ || first
                == "[Active reply decision: no reply]"@ || first == "【续聊窗口判断：不回复】"@
                || first == "【主动回复判断：不回复】"@ ==> r == Some(LogColor::DarkGrey)
            &&& r is Some ==> r->0 is Green || r->0 is DarkGrey
        }),
{
    lemma_decisions_differ();
}

proof fn lemma_decisions_differ()
    ensures
        "【续聊窗口判断：回复】"@.len() == 11,
        "【续聊窗口判断：回复】"@[1] == '续',
        "【主动回复判断：回复】"@.len() == 11,
        "【主动回复判断：回复】"@[1] == '主',
        "[Continuation decision: reply]"@.len() == 30,
        "[Continuation decision: reply]"@[1] == 'C',
        "[Active reply decision: reply]"@.len() == 30,
        "[Active reply decision: reply]"@[1] == 'A',
        "【续聊窗口判断：不回复】"@.len() == 12,
        "【续聊窗口判断：不回复】"@[1] == '续',
        "【主动回复判断：不回复】"@.len() == 12,
        "【主动回复判断：不回复】"@[1] == '主',
        "[Continuation decision: no reply]"@.len() == 33,
        "[Continuation decision: no reply]"@[1] == 'C',
        "[Active reply decision: no reply]"@.len() == 33,
        "[Active reply decision: no reply]"@[1] == 'A',
{
    reveal_strlit("【续聊窗口判断：回复】");
    reveal_strlit("【主动回复判断：回复】");
    reveal_strlit("[Continuation decision: reply]");
    reveal_strlit("[Active reply decision: reply]");
    reveal_strlit("【续聊窗口判断：不回复】");
    reveal_strlit("【主动回复判断：不回复】");
    reveal_strlit("[Continuation decision: no reply]");
    reveal_strlit("[Active reply decision: no reply]");
}

/// The colour of a decision lasts over the lines that follow it, up to the next
/// line of the log.
pub proof fn law_decision_colour_lasts(
    line: &str,
    ansi: bool,
    decision: &mut Option<LogColor>,
    r: String,
)
    requires
        call_ensures(format_daemon_log_line_with_state, (line, ansi, decision), r),
    ensures
        parsed_line(line@) is None && decision_color(line@) is None ==> *final(decision) == *old(
            decision,
        ),
        parsed_line(line@) is Some ==> *final(decision) == decision_color(
            parsed_line(line@)->0.message,
        ),
        parsed_line(line@) is None && decision_color(line@) is Some ==> *final(decision)
            == decision_color(line@),
        parsed_line(line@) is None && *final(decision) is None ==> r@ == line@,
        parsed_line(line@) is None && !ansi ==> r@ == line@,
{
}

/// A file that shrank is read anew from its start, and what waited belongs to its
/// old contents; any other is read from where it was left.
pub proof fn law_deltas_start_where_reading_stopped(len: u64, offset: u64, r: DeltaPlan)
    requires
        call_ensures(read_daemon_log_delta, (len, offset), r),
    ensures
        len >= offset ==> r.start == offset && !r.reset,
        len < offset ==> r.start == 0 && r.reset,
        r.start <= len,
        r.nothing_new <==> r.start == len,
{
}

/// The newest file is the last rolling log; the daemon's own output only where
/// there is no other.
pub proof fn law_newest_log_is_the_last_rolling_one(files: Seq<Seq<char>>, i: int)
    requires
        0 <= i < files.len(),
        forall|j: int| i < j < files.len() ==> #[trigger] files[j] == "daemon.log"@,
    ensures
        files[i] != "daemon.log"@ ==> newest_log(files) == Some(files[i]),
        (forall|j: int| 0 <= j < files.len() ==> #[trigger] files[j] == "daemon.log"@)
            ==> newest_log(files) == Some("daemon.log"@),
    decreases files.len(),
{
    let rest = files.drop_last();
    if i < files.len() - 1 {
        assert(files[files.len() - 1] == "daemon.log"@);
        law_newest_log_is_the_last_rolling_one(rest, i);
    }
    if forall|j: int| 0 <= j < files.len() ==> #[trigger] files[j] == "daemon.log"@ {
        assert(files.last() == files[files.len() - 1]);
        assert(is_fallback(files.last()));
        if rest.len() > 0 {
            assert forall|j: int| 0 <= j < rest.len() implies #[trigger] rest[j] == "daemon.log"@ by {
                assert(rest[j] == files[j]);
            }
            law_newest_log_is_the_last_rolling_one(rest, rest.len() - 1);
        }
    }
}

/// A rolling log is a file whose name begins with the program's and ends as a log.
pub proof fn law_rolling_logs_by_name(middle: Seq<char>)
    ensures
        is_rolling_log("laozhou."@ + middle + ".log"@),
        !is_rolling_log("daemon.log"@),
{
    reveal_strlit("laozhou.");
    reveal_strlit(".log");
    reveal_strlit("daemon.log");
    let name = "laozhou."@ + middle + ".log"@;
    assert(name.take("laozhou."@.len() as int) =~= "laozhou."@);
    assert(name.skip(name.len() - ".log"@.len()) =~= ".log"@);
    assert("daemon.log"@.take(8)[0] == 'd');
    assert("laozhou."@[0] == 'l');
}

/// Reading goes on where it was noted, else at the end of the file.
pub proof fn law_following_starts_at_the_noted_place(
    files: &Vec<String>,
    offsets: &Vec<FileOffset>,
    lengths: &Vec<FileOffset>,
    r: DaemonLogFollowCursor,
)
    requires
        call_ensures(daemon_log_follow_cursor_for_files, (files, offsets, lengths), r),
    ensures
        r.current matches Some(name) ==> {
            &&& offset_in(offsets@, name@) is Some ==> r.current_offset == offset_in(
                offsets@,
                name@,
            )->0
            &&& offset_in(offsets@, name@) is None && offset_in(lengths@, name@) is Some
                ==> r.current_offset == offset_in(lengths@, name@)->0
        },
        files@.len() == 0 ==> r.current is None && r.fallback is None && r.current_offset == 0
            && r.fallback_offset == 0,
        texts(files@).contains("daemon.log"@) <==> r.fallback is Some,
{
    assert(texts(files@).len() == files@.len());
    if files@.len() == 0 {
        assert(!texts(files@).contains("daemon.log"@));
    }
}

/// The lines that are shown are the last ones, in their order: the end of what
/// there is, as many as were asked for or all.
pub proof fn law_recent_lines_are_the_last(tails: &Vec<Vec<String>>, limit: usize, r: Vec<String>)
    requires
        call_ensures(recent_daemon_log_lines, (tails, limit), r),
    ensures
        ({
            let all = all_lines(tails@);
            &&& r@.len() <= limit
            &&& all.len() <= limit ==> texts(r@) == all
            &&& all.len() > limit ==> r@.len() == limit
            &&& forall|i: int|
                0 <= i < r@.len() ==> #[trigger] texts(r@)[i] == all[all.len() - r@.len() + i]
        }),
{
    assert(texts(r@).len() == r@.len());
}

/// The lines of the files stand one behind the other: a newer file adds its own.
pub proof fn law_files_follow_each_other(older: Seq<Vec<String>>, newest: Vec<String>)
    ensures
        all_lines(older.push(newest)) == all_lines(older) + texts(newest@),
        all_lines(Seq::empty()).len() == 0,
{
    assert(older.push(newest).drop_last() =~= older);
}

/// Fewer lines are wanted of an older file, the more are there already.
pub proof fn law_older_files_fill_up(collected: usize, limit: usize, r: usize)
    requires
        call_ensures(lines_wanted, (collected, limit), r),
    ensures
        collected <= limit ==> collected + r == limit,
        collected >= limit ==> r == 0,
{
}

/// A process is there where the empty signal reached it or was not permitted; the
/// number zero stands for none.
pub proof fn law_daemon_is_alive_by_signal(pid: u32, signalled: bool, denied: bool, r: bool)
    requires
        call_ensures(daemon_process_alive, (pid, signalled, denied), r),
    ensures
        pid == 0 ==> !r,
        pid != 0 && signalled ==> r,
        pid != 0 && denied ==> r,
        !signalled && !denied ==> !r,
{
}

} // verus!
