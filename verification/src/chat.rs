//! One-shot turns: what is sent, to which session, and what is shown of it.
use crate::answers::created_id;
use crate::daemon_log::{lossy_text, read_lossy};
use crate::editor::{image_placeholder, image_token, ClipboardContent};
use crate::jobs::opt_string;
use crate::json::Json;
use crate::lang::{pick, t, Lang};
use crate::layout::capped;
use crate::notes::{labelled, labelled_text};
use crate::paste::{
    is_long_paste, line_count, pasted_text_line_count, pasted_text_placeholder, pasted_token,
    should_summarize_pasted_text,
};
use crate::placeholder::{
    as_spans, disjoint_within, find_image_placeholders, find_pasted_text_placeholders, image_index,
    image_spans, law_placeholders_are_disjoint, lemma_filter_disjoint, pasted_index, pasted_spans,
    spans, PastedImage,
};
use crate::text::{
    begins_with, decimal, decimal_text, from_chars, is_digit, same, texts, to_chars, trim,
    trimmed,
};
use vstd::prelude::*;
use vstd::string::*;

verus! {

/// Which session a one-shot turn lands in.
#[derive(Debug)]
pub enum TurnSession {
    /// The session of the terminal.
    Current,
    Explicit(String),
    /// A throwaway session for this turn alone.
    Ephemeral,
}

/// Both ways of asking default to a throwaway session; a session that was named
/// (and is looked up as `resolved`) or a wish to go on bring back a real one.
pub fn one_shot_session(resolved: Option<String>, continue_session: bool) -> (r: TurnSession)
    ensures
        match (resolved, r) {
            (Some(a), TurnSession::Explicit(b)) => a == b,
            (None, TurnSession::Current) => continue_session,
            (None, TurnSession::Ephemeral) => !continue_session,
            _ => false,
        },
{
    match resolved {
        Some(id) => TurnSession::Explicit(id),
        None => if continue_session {
            TurnSession::Current
        } else {
            TurnSession::Ephemeral
        },
    }
}

/// How the session of a turn is told to the daemon.
#[derive(Debug)]
pub enum SessionOverride {
    Unset,
    Use(String),
    /// Make a throwaway session first, and delete it behind the turn whatever
    /// came of it.
    MakeAndDiscard,
}

impl TurnSession {
    pub fn daemon_override(self) -> (r: SessionOverride)
        ensures
            match (self, r) {
                (TurnSession::Current, SessionOverride::Unset) => true,
                (TurnSession::Explicit(a), SessionOverride::Use(b)) => a == b,
                (TurnSession::Ephemeral, SessionOverride::MakeAndDiscard) => true,
                _ => false,
            },
    {
        match self {
            TurnSession::Current => SessionOverride::Unset,
            TurnSession::Explicit(id) => SessionOverride::Use(id),
            TurnSession::Ephemeral => SessionOverride::MakeAndDiscard,
        }
    }
}

/// A throwaway session has a name, so that one that is left over is recognised
/// and none is thought up for it.
pub fn ephemeral_session_name(lang: Lang) -> (r: String)
    ensures
        r@ == pick(lang, "One-shot"@, "一次性对话"@),
{
    t(lang, "One-shot", "一次性对话").to_owned()
}

/// The identity of the throwaway session that the daemon made.
pub fn create_ephemeral_session(data: &Json) -> (r: Result<String, &'static str>)
    ensures
        match (created_id(*data), r) {
            (Some(id), Ok(text)) => text@ == id,
            (None, Err(note)) => note@ == "Laozhou core returned an invalid response"@,
            _ => false,
        },
{
    let id = match data.get("session") {
        Some(session) => session.opt_text("session_id"),
        None => None,
    };
    match id {
        Some(id) => Ok(id),
        None => Err("Laozhou core returned an invalid response"),
    }
}

/// What happens to a message.
#[derive(Clone, Copy, Debug, PartialEq, Eq, Structural)]
pub enum ChatRoute {
    /// Nothing to send: open the prompt.
    Prompt,
    /// Through the daemon.
    Daemon,
    /// In this process.
    Direct,
}

pub fn run_chat_with_options(message: &str, direct: bool) -> (r: ChatRoute)
    ensures
        r == if message@.len() == 0 {
            ChatRoute::Prompt
        } else if direct {
            ChatRoute::Direct
        } else {
            ChatRoute::Daemon
        },
{
    if message.is_empty() {
        ChatRoute::Prompt
    } else if direct {
        ChatRoute::Direct
    } else {
        ChatRoute::Daemon
    }
}

/// What is shown of a turn.
#[derive(Clone, Copy, Debug, PartialEq, Eq, Structural)]
pub struct TurnDisplay {
    pub hide_reasoning: bool,
    pub hide_tool_calls: bool,
    pub show_token_usage: bool,
}

/// Plain output has neither tool calls nor gauges; reasoning is hidden on
/// demand only.
pub fn turn_display(show_reasoning: Option<bool>, plain: bool, show_token_usage: bool) -> (r:
    TurnDisplay)
    ensures
        r == (TurnDisplay {
            hide_reasoning: show_reasoning == Some(false),
            hide_tool_calls: plain,
            show_token_usage: show_token_usage && !plain,
        }),
{
    let hide_reasoning = match show_reasoning {
        Some(show) => !show,
        None => false,
    };
    TurnDisplay {
        hide_reasoning,
        hide_tool_calls: plain,
        show_token_usage: show_token_usage && !plain,
    }
}

/// At most so many bytes are taken from a pipe.
pub const STDIN_MAX_CHARS: usize = 50_000;

/// A message with what came through the pipe.
pub open spec fn with_piped(message: Seq<char>, content: Seq<char>) -> Seq<char> {
    if trimmed(content).len() == 0 {
        message
    } else if message.len() == 0 {
        trimmed(content)
    } else {
        message + "\n\n---\n(stdin)\n"@ + trimmed(content)
    }
}

pub fn with_piped_text(message: String, content: &str) -> (r: String)
    ensures
        r@ == with_piped(message@, content@),
{
    let clean = trim(content);
    if clean.is_empty() {
        message
    } else if message.as_str().is_empty() {
        clean.to_owned()
    } else {
        let mut r = message;
        r.append("\n\n---\n(stdin)\n");
        r.append(clean);
        r
    }
}

/// Whether more is read from the pipe.
pub fn reads_on(read: usize, out_of_time: bool) -> (r: bool)
    ensures
        r == (!out_of_time && read < 50_000),
{
    !out_of_time && read < STDIN_MAX_CHARS
}

/// Adds what was read from a pipe, if anything was; without a pipe, or where
/// reading failed, the message stands alone.
pub fn append_stdin_if_piped(message: String, piped: Option<Vec<u8>>) -> (r: String)
    ensures
        r@ == match piped {
            Some(bytes) => with_piped(
                message@,
                lossy_text(bytes@.take(capped(bytes@.len() as int, 50_000))),
            ),
            None => message@,
        },
{
    match piped {
        Some(bytes) => {
            let mut bytes = bytes;
            let ghost all = bytes@;
            if bytes.len() > STDIN_MAX_CHARS {
                bytes.truncate(STDIN_MAX_CHARS);
            }
            assert(bytes@ =~= all.take(capped(all.len() as int, 50_000)));
            let content = read_lossy(bytes.as_slice());
            with_piped_text(message, content.as_str())
        },
        None => message,
    }
}

/// The shells that can hand over what was typed.
pub open spec fn is_known_shell(name: Seq<char>) -> bool {
    name == "fish"@ || name == "bash"@ || name == "zsh"@
}

fn known_shell(name: &str) -> (r: bool)
    ensures
        r == is_known_shell(name@),
{
    same(name, "fish") || same(name, "bash") || same(name, "zsh")
}

/// The exit code that tells a shell whether it should run the line itself.
pub fn run_shell_classify(shell_name: &str, is_command: bool) -> (r: u8)
    ensures
        r == if !is_known_shell(shell_name@) {
            2u8
        } else if is_command {
            0u8
        } else {
            1u8
        },
{
    if !known_shell(shell_name) {
        2
    } else if is_command {
        0
    } else {
        1
    }
}

/// Whether a line that a shell handed over can be sent, or why not.
pub fn run_shell_intercept(lang: Lang, shell_name: &str, message: &str) -> (r: Result<(), String>)
    ensures
        match r {
            Ok(()) => is_known_shell(shell_name@) && trimmed(message@).len() > 0,
            Err(note) => {
                ||| !is_known_shell(shell_name@) && note@ == labelled(
                    pick(lang, "unsupported shell"@, "不支持的 shell"@),
                    shell_name@,
                )
                ||| is_known_shell(shell_name@) && trimmed(message@).len() == 0 && note@ == pick(
                    lang,
                    "not a natural language command"@,
                    "不是自然语言命令"@,
                )
            },
        },
{
    if !known_shell(shell_name) {
        return Err(labelled_text(t(lang, "unsupported shell", "不支持的 shell"), shell_name));
    }
    if trim(message).is_empty() {
        return Err(
            t(lang, "not a natural language command", "不是自然语言命令").to_owned(),
        );
    }
    Ok(())
}

/// What a shell gets for the clipboard: a placeholder for a picture or a long
/// text, which is kept under the number `index`, and anything else as it is.
pub open spec fn clipboard_line(lang: Lang, content: ClipboardContent, index: nat) -> Option<Seq<char>> {
    match content {
        ClipboardContent::Image { filename, .. } => Some(
            image_token(1, Some(file_name_or(opt_string(filename)))),
        ),
        ClipboardContent::ImagePath { filename, .. } => Some(
            image_token(1, Some(file_name_or(opt_string(filename)))),
        ),
        ClipboardContent::TextPath(path) => Some(path@),
        ClipboardContent::Text(text) => Some(
            if is_long_paste(text@) {
                pasted_token(lang, index, line_count(text@))
            } else {
                text@
            },
        ),
        ClipboardContent::Nothing => None,
    }
}

pub open spec fn file_name_or(name: Option<Seq<char>>) -> Seq<char> {
    match name {
        Some(name) => name,
        None => "image"@,
    }
}

fn picture_line(filename: &Option<String>) -> (r: String)
    ensures
        r@ == image_token(1, Some(file_name_or(opt_string(*filename)))),
{
    match filename {
        Some(name) => image_placeholder(1, Some(name.as_str())),
        None => image_placeholder(1, Some("image")),
    }
}

pub fn run_clipboard_paste(lang: Lang, content: &ClipboardContent, index: usize) -> (r: Option<
    String,
>)
    ensures
        opt_string(r) == clipboard_line(lang, *content, index as nat),
{
    match content {
        ClipboardContent::Image { filename, .. } => Some(picture_line(filename)),
        ClipboardContent::ImagePath { filename, .. } => Some(picture_line(filename)),
        ClipboardContent::TextPath(path) => Some(path.clone()),
        ClipboardContent::Text(text) => if should_summarize_pasted_text(text.as_str()) {
            let count = pasted_text_line_count(text.as_str());
            Some(pasted_text_placeholder(lang, index, count))
        } else {
            Some(text.clone())
        },
        ClipboardContent::Nothing => None,
    }
}

/// Where the range before the `n`-th one ends.
pub open spec fn end_before(spans: Seq<(int, int)>, n: int) -> int {
    if n <= 0 {
        0
    } else {
        spans[n - 1].1
    }
}

/// `s` up to the end of its `n`-th range, with the ranges filled in.
pub open spec fn filled_to(s: Seq<char>, spans: Seq<(int, int)>, fills: Seq<Seq<char>>, n: int) -> Seq<
    char,
>
    decreases n,
{
    if n <= 0 {
        Seq::empty()
    } else {
        filled_to(s, spans, fills, n - 1) + s.subrange(end_before(spans, n - 1), spans[n - 1].0)
            + fills[n - 1]
    }
}

/// `s` with its ranges filled in.
pub open spec fn filled(s: Seq<char>, spans: Seq<(int, int)>, fills: Seq<Seq<char>>) -> Seq<char> {
    filled_to(s, spans, fills, spans.len() as int) + s.skip(end_before(spans, spans.len() as int))
}

fn fill_in(v: &Vec<char>, spans: &Vec<(usize, usize)>, fills: &Vec<String>) -> (r: String)
    requires
        disjoint_within(as_spans(spans@), 0, v@.len() as int),
        fills@.len() == spans@.len(),
    ensures
        r@ == filled(v@, as_spans(spans@), texts(fills@)),
{
    let ghost at = as_spans(spans@);
    let mut out: String = String::new();
    let mut last: usize = 0;
    let mut i: usize = 0;
    while i < spans.len()
        invariant
            i <= spans@.len(),
            fills@.len() == spans@.len(),
            at == as_spans(spans@),
            disjoint_within(at, 0, v@.len() as int),
            last == end_before(at, i as int),
            last <= v@.len(),
            out@ == filled_to(v@, at, texts(fills@), i as int),
        decreases spans@.len() - i,
    {
        let (start, end) = spans[i];
        assert(at[i as int] == (start as int, end as int));
        proof {
            if i > 0 {
                assert(at[i - 1].1 <= at[i as int].0);
            }
        }
        let between = from_chars(v, last, start);
        out.append(between.as_str());
        assert(texts(fills@)[i as int] == fills@[i as int]@);
        out.append(fills[i].as_str());
        last = end;
        i = i + 1;
    }
    let rest = from_chars(v, last, v.len());
    assert(rest@ =~= v@.skip(last as int));
    out.append(rest.as_str());
    out
}

/// The text that stands in a range, behind its opening, as the name of a file:
/// one digit, a colon, and what comes before the closing bracket.
pub open spec fn file_in(segment: Seq<char>) -> Option<Seq<char>> {
    let rest = segment.skip(7);
    if begins_with(segment, "[Image "@) && rest.len() > 2 && is_digit(rest[0]) && rest[1] == ':'
        && rest.last() == ']' {
        Some(trimmed(rest.subrange(2, rest.len() - 1)))
    } else {
        None
    }
}

/// The names of the files that the image placeholders of a message stand for.
pub open spec fn files_in(message: Seq<char>) -> Seq<Option<Seq<char>>> {
    image_spans(message).map_values(
        |p: (int, int)| file_in(message.subrange(p.0, p.1)),
    )
}

fn file_of(v: &Vec<char>, start: usize, end: usize) -> (r: Option<String>)
    requires
        start < end <= v@.len(),
    ensures
        opt_string(r) == file_in(v@.subrange(start as int, end as int)),
{
    let segment = from_chars(v, start, end);
    proof {
        reveal_strlit("[Image ");
        assert("[Image "@.len() == 7);
    }
    let ghost seg = v@.subrange(start as int, end as int);
    assert(segment@ =~= seg);
    if !crate::text::starts_with(segment.as_str(), "[Image ") {
        return None;
    }
    let n: usize = end - start;
    assert(seg.len() == n && n >= 7);
    if n - 7 <= 2 {
        return None;
    }
    let ghost rest = seg.skip(7);
    assert(rest[0] == v@[start + 7]);
    assert(rest[1] == v@[start + 8]);
    assert(rest.last() == v@[end - 1]);
    let digit = v[start + 7];
    if !(digit >= '0' && digit <= '9') || v[start + 8] != ':' || v[end - 1] != ']' {
        return None;
    }
    let name = from_chars(v, start + 9, end - 1);
    assert(name@ =~= rest.subrange(2, rest.len() - 1));
    Some(trim(name.as_str()).to_owned())
}

proof fn lemma_image_spans(s: Seq<char>)
    ensures
        disjoint_within(image_spans(s), 0, s.len() as int),
{
    law_placeholders_are_disjoint(s);
    lemma_filter_disjoint(
        spans(s),
        |p: (int, int)| image_index(s.subrange(p.0, p.1)) is Some,
        0,
        s.len() as int,
    );
}

/// The names of the files that the image placeholders of a message stand for.
pub fn image_files(message: &str) -> (r: Vec<Option<String>>)
    ensures
        r@.map_values(|o: Option<String>| opt_string(o)) == files_in(message@),
{
    let v = to_chars(message);
    let found = find_image_placeholders(message);
    let mut out: Vec<Option<String>> = Vec::new();
    let mut i: usize = 0;
    proof {
        lemma_image_spans(message@);
    }
    assert(as_spans(found@).len() == found@.len());
    while i < found.len()
        invariant
            i <= found@.len(),
            v@ == message@,
            as_spans(found@) == image_spans(message@),
            disjoint_within(image_spans(message@), 0, message@.len() as int),
            out@.len() == i,
            forall|k: int| 0 <= k < i ==> opt_string(#[trigger] out@[k]) == files_in(message@)[k],
        decreases found@.len() - i,
    {
        let (start, end) = found[i];
        assert(image_spans(message@)[i as int] == (start as int, end as int));
        out.push(file_of(&v, start, end));
        i = i + 1;
    }
    assert(as_spans(found@).len() == found@.len());
    assert(out@.map_values(|o: Option<String>| opt_string(o)) =~= files_in(message@));
    out
}

/// Image placeholders numbered from one.
pub open spec fn numbered_images(n: nat) -> Seq<Seq<char>> {
    Seq::new(n, |i: int| "[Image "@ + decimal((i + 1) as nat) + "]"@)
}

pub open spec fn image_paths(v: Seq<Option<PastedImage>>) -> Seq<Option<Seq<char>>> {
    v.map_values(
        |o: Option<PastedImage>|
            match o {
                Some(PastedImage::Path(path)) => Some(path@),
                _ => None,
            },
    )
}

/// The message with its image placeholders numbered anew, and the images: for
/// each placeholder the path at which its file was found, if it was.
pub fn extract_image_placeholders(message: &str, found: Vec<Option<String>>) -> (r: (
    String,
    Vec<Option<PastedImage>>,
))
    requires
        found@.len() == image_spans(message@).len(),
    ensures
        r.0@ == filled(
            message@,
            image_spans(message@),
            numbered_images(image_spans(message@).len()),
        ),
        image_paths(r.1@) == found@.map_values(|o: Option<String>| opt_string(o)),
        forall|i: int|
            0 <= i < r.1@.len() ==> !(#[trigger] r.1@[i] matches Some(PastedImage::Binary { .. })),
{
    let v = to_chars(message);
    let at = find_image_placeholders(message);
    assert(as_spans(at@).len() == at@.len());
    let mut fills: Vec<String> = Vec::new();
    let mut images: Vec<Option<PastedImage>> = Vec::new();
    let mut found = found;
    let ghost all = found@;
    let n: usize = at.len();
    let mut i: usize = 0;
    while i < n
        invariant
            i <= n,
            n == all.len(),
            found@ == all.skip(i as int),
            fills@.len() == i,
            images@.len() == i,
            forall|k: int|
                0 <= k < i ==> (#[trigger] fills@[k])@ == numbered_images(n as nat)[k],
            forall|k: int|
                0 <= k < i ==> match (#[trigger] images@[k], opt_string(all[k])) {
                    (Some(PastedImage::Path(a)), Some(b)) => a@ == b,
                    (None, None) => true,
                    _ => false,
                },
        decreases n - i,
    {
        let number = decimal_text((i + 1) as u64);
        fills.push(crate::echo::enclosed("[Image ", number.as_str(), "]"));
        let path = found.remove(0);
        assert(found@ =~= all.skip(i as int + 1));
        images.push(
            match path {
                Some(path) => Some(PastedImage::Path(path)),
                None => None,
            },
        );
        i = i + 1;
    }
    proof {
        lemma_image_spans(message@);
    }
    let clean = fill_in(&v, &at, &fills);
    assert(texts(fills@) =~= numbered_images(n as nat));
    assert(image_paths(images@) =~= all.map_values(|o: Option<String>| opt_string(o)));
    (clean, images)
}

/// The ranges of a message that stand for pasted text.
pub open spec fn pasted_ranges(s: Seq<char>) -> Seq<(int, int)> {
    spans(s).filter(|p: (int, int)| pasted_index(s.subrange(p.0, p.1)) is Some)
}

/// What the `i`-th placeholder for pasted text becomes: the text, or itself
/// where that text is gone.
pub open spec fn pasted_fills(s: Seq<char>, contents: Seq<Option<Seq<char>>>) -> Seq<Seq<char>> {
    Seq::new(
        pasted_ranges(s).len(),
        |i: int|
            match contents[i] {
                Some(text) => text,
                None => s.subrange(pasted_ranges(s)[i].0, pasted_ranges(s)[i].1),
            },
    )
}

/// Puts the pasted texts back: `contents` has, for each placeholder in turn, the
/// text that was kept for it.
pub fn expand_shell_pasted_text_placeholders(message: &str, contents: &Vec<Option<String>>) -> (r:
    String)
    requires
        contents@.len() == pasted_spans(message@).len(),
    ensures
        r@ == filled(
            message@,
            pasted_ranges(message@),
            pasted_fills(message@, contents@.map_values(|o: Option<String>| opt_string(o))),
        ),
{
    let v = to_chars(message);
    let tagged = find_pasted_text_placeholders(message);
    let ghost ranges = pasted_ranges(message@);
    let ghost given = contents@.map_values(|o: Option<String>| opt_string(o));
    let ghost plain = |p: (usize, usize, usize)| (p.0 as int, p.1 as int, p.2 as int);
    let ghost tag = |p: (int, int)|
        (p.0, p.1, pasted_index(message@.subrange(p.0, p.1))->0 as int);
    proof {
        law_placeholders_are_disjoint(message@);
        lemma_filter_disjoint(
            spans(message@),
            |p: (int, int)| pasted_index(message@.subrange(p.0, p.1)) is Some,
            0,
            message@.len() as int,
        );
        assert(tagged@.map_values(plain) == ranges.map_values(tag));
        assert(tagged@.map_values(plain).len() == tagged@.len());
    }
    let mut at: Vec<(usize, usize)> = Vec::new();
    let mut fills: Vec<String> = Vec::new();
    let mut i: usize = 0;
    while i < tagged.len()
        invariant
            i <= tagged@.len(),
            v@ == message@,
            contents@.len() == tagged@.len(),
            tagged@.len() == ranges.len(),
            ranges == pasted_ranges(message@),
            disjoint_within(ranges, 0, message@.len() as int),
            given == contents@.map_values(|o: Option<String>| opt_string(o)),
            plain == (|p: (usize, usize, usize)| (p.0 as int, p.1 as int, p.2 as int)),
            tag == (|p: (int, int)|
                (p.0, p.1, pasted_index(message@.subrange(p.0, p.1))->0 as int)),
            tagged@.map_values(plain) == ranges.map_values(tag),
            at@.len() == i,
            fills@.len() == i,
            forall|k: int|
                0 <= k < i ==> ((#[trigger] at@[k]).0 as int, at@[k].1 as int) == ranges[k],
            forall|k: int|
                0 <= k < i ==> (#[trigger] fills@[k])@ == pasted_fills(message@, given)[k],
        decreases tagged@.len() - i,
    {
        let (start, end, _) = tagged[i];
        assert(tagged@.map_values(plain)[i as int] == ranges.map_values(tag)[i as int]);
        assert(ranges[i as int] == (start as int, end as int));
        let fill = match &contents[i] {
            Some(text) => text.clone(),
            None => from_chars(&v, start, end),
        };
        at.push((start, end));
        fills.push(fill);
        i = i + 1;
    }
    assert(as_spans(at@) =~= ranges);
    assert(texts(fills@) =~= pasted_fills(message@, given));
    fill_in(&v, &at, &fills)
}

/// A message without placeholders is kept as it is.
pub proof fn law_plain_message_is_kept(message: Seq<char>, contents: Seq<Option<Seq<char>>>)
    requires
        spans(message).len() == 0,
    ensures
        filled(message, image_spans(message), numbered_images(image_spans(message).len()))
            == message,
        filled(message, pasted_ranges(message), pasted_fills(message, contents)) == message,
{
    assert(spans(message) =~= Seq::empty());
    reveal(Seq::filter);
    assert(image_spans(message).len() == 0);
    assert(pasted_ranges(message).len() == 0);
    assert(message.skip(0) =~= message);
    assert(Seq::<char>::empty() + message =~= message);
}

/// Why a turn came to nothing.
#[derive(Debug)]
pub enum TurnError {
    /// The user, or another client, cut it off.
    Cancelled,
    Other(String),
}

/// A turn that was cut off takes the prompt back to its line; any other error
/// is reported.
pub fn is_remote_turn_cancelled(error: &TurnError) -> (r: bool)
    ensures
        r == (*error is Cancelled),
{
    match error {
        TurnError::Cancelled => true,
        TurnError::Other(_) => false,
    }
}

/// What an error of a turn says.
pub fn turn_error_text(lang: Lang, error: &TurnError) -> (r: String)
    ensures
        r@ == match *error {
            TurnError::Cancelled => pick(lang, "cancelled"@, "已取消"@),
            TurnError::Other(message) => message@,
        },
{
    match error {
        TurnError::Cancelled => t(lang, "cancelled", "已取消").to_owned(),
        TurnError::Other(message) => message.clone(),
    }
}

/// A named session is used; without one the turn gets a session of its own, which
/// is thrown away, unless the terminal's is to be gone on with.
pub proof fn law_one_shot_turns_are_thrown_away(
    resolved: Option<String>,
    go_on: bool,
    r: TurnSession,
    told: SessionOverride,
)
    requires
        call_ensures(one_shot_session, (resolved, go_on), r),
        call_ensures(TurnSession::daemon_override, (r,), told),
    ensures
        resolved matches Some(id) ==> r == TurnSession::Explicit(id) && told == SessionOverride::Use(
            id,
        ),
        resolved is None && go_on ==> r is Current && told is Unset,
        resolved is None && !go_on ==> r is Ephemeral && told is MakeAndDiscard,
{
}

/// Without a message the prompt opens; with one the daemon answers unless it is to
/// be done here.
pub proof fn law_messages_go_to_the_daemon(message: &str, direct: bool, r: ChatRoute)
    requires
        call_ensures(run_chat_with_options, (message, direct), r),
    ensures
        r is Prompt <==> message@.len() == 0,
        message@.len() > 0 ==> (r is Direct <==> direct),
        message@.len() > 0 ==> (r is Daemon <==> !direct),
{
}

/// Plain output hides tool calls and gauges; reasoning is hidden on demand alone.
pub proof fn law_plain_output_is_bare(reasoning: Option<bool>, plain: bool, tokens: bool, r: TurnDisplay)
    requires
        call_ensures(turn_display, (reasoning, plain, tokens), r),
    ensures
        r.hide_reasoning <==> reasoning == Some(false),
        r.hide_tool_calls <==> plain,
        plain ==> !r.show_token_usage,
        !plain ==> r.show_token_usage == tokens,
{
}

/// What comes through a pipe stands behind the message, or for it where there is
/// none; a blank pipe adds nothing.
pub proof fn law_piped_text_stands_behind(message: String, content: &str, r: String)
    requires
        call_ensures(with_piped_text, (message, content), r),
    ensures
        trimmed(content@).len() == 0 ==> r@ == message@,
        trimmed(content@).len() > 0 && message@.len() == 0 ==> r@ == trimmed(content@),
        trimmed(content@).len() > 0 && message@.len() > 0 ==> r@ == message@
            + "\n\n---\n(stdin)\n"@ + trimmed(content@),
{
}

/// At most fifty thousand bytes are read from a pipe, and none of a pipe that is
/// not there.
pub proof fn law_pipes_are_read_up_to_a_limit(
    message: String,
    piped: Option<Vec<u8>>,
    r: String,
    read: usize,
    late: bool,
    on: bool,
)
    requires
        call_ensures(append_stdin_if_piped, (message, piped), r),
        call_ensures(reads_on, (read, late), on),
    ensures
        piped is None ==> r@ == message@,
        piped matches Some(bytes) ==> bytes@.len() <= 50_000 ==> r@ == with_piped(
            message@,
            lossy_text(bytes@),
        ),
        piped matches Some(bytes) ==> bytes@.len() > 50_000 ==> r@ == with_piped(
            message@,
            lossy_text(bytes@.take(50_000)),
        ),
        on <==> read < 50_000 && !late,
{
    if let Some(bytes) = piped {
        assert(bytes@.take(bytes@.len() as int) =~= bytes@);
    }
}

/// A shell is told to run the line itself by zero, not to by one, and that it is
/// not known by two.
pub proof fn law_shells_are_told_by_exit_codes(name: &str, is_command: bool, r: u8)
    requires
        call_ensures(run_shell_classify, (name, is_command), r),
    ensures
        r == 2 <==> !(name@ == "fish"@ || name@ == "bash"@ || name@ == "zsh"@),
        r == 0 ==> is_command,
        r == 1 ==> !is_command,
        r <= 2,
{
}

/// A line is taken over from a known shell where it is not blank.
pub proof fn law_lines_are_taken_from_known_shells(
    lang: Lang,
    name: &str,
    message: &str,
    r: Result<(), String>,
)
    requires
        call_ensures(run_shell_intercept, (lang, name, message), r),
    ensures
        r is Ok <==> (name@ == "fish"@ || name@ == "bash"@ || name@ == "zsh"@) && trimmed(
            message@,
        ).len() > 0,
{
}

/// A shell gets the text of the clipboard as it is where it is short, its path
/// where it is one, a placeholder for what is kept aside, and nothing for nothing.
pub proof fn law_shells_get_the_clipboard(
    lang: Lang,
    content: &ClipboardContent,
    index: usize,
    r: Option<String>,
)
    requires
        call_ensures(run_clipboard_paste, (lang, content, index), r),
    ensures
        r is None <==> content is Nothing,
        content matches ClipboardContent::Text(text) ==> !is_long_paste(text@) ==> r->0@ == text@,
        content matches ClipboardContent::Text(text) ==> is_long_paste(text@) ==> r->0@
            == pasted_token(lang, index as nat, line_count(text@)),
        content matches ClipboardContent::TextPath(path) ==> r->0@ == path@,
        content matches ClipboardContent::Image { filename: Some(name), .. } ==> r->0@ == "[Image "@
            + decimal(1) + ": "@ + name@ + "]"@,
        content matches ClipboardContent::ImagePath { filename: None, .. } ==> r->0@ == "[Image "@
            + decimal(1) + ": "@ + "image"@ + "]"@,
{
}

/// The identity of a throwaway session is the one that the daemon names; an answer
/// without one is an error.
pub proof fn law_throwaway_session_is_the_named_one(data: &Json, r: Result<String, &'static str>, session: Json)
    requires
        call_ensures(create_ephemeral_session, (data,), r),
    ensures
        crate::json::member(*data, "session"@) is None ==> r is Err,
        crate::json::member(*data, "session"@) == Some(session) ==> match crate::json::member(
            session,
            "session_id"@,
        ) {
            Some(Json::Text(id)) => r is Ok && r->Ok_0@ == id@,
            _ => r is Err,
        },
{
}

/// Filling the ranges of a message leaves what is around them: one range gives
/// what is before it, its filling and what is behind it.
pub proof fn law_filling_keeps_the_rest(s: Seq<char>, a: int, b: int, fill: Seq<char>)
    requires
        0 <= a <= b <= s.len(),
    ensures
        filled(s, seq![(a, b)], seq![fill]) == s.take(a) + fill + s.skip(b),
        filled(s, Seq::empty(), Seq::empty()) == s,
{
    reveal_with_fuel(filled_to, 3);
    let one = seq![(a, b)];
    assert(filled_to(s, one, seq![fill], 1) =~= s.subrange(0, a) + fill);
    assert(s.subrange(0, a) =~= s.take(a));
    assert(filled(s, one, seq![fill]) =~= s.take(a) + fill + s.skip(b));
    assert(filled(s, Seq::empty(), Seq::empty()) =~= s);
}

/// A turn that was called off is told apart from one that failed, which keeps its
/// own words.
pub proof fn law_cancelled_turns_are_told_apart(lang: Lang, error: &TurnError, r: bool, text: String)
    requires
        call_ensures(is_remote_turn_cancelled, (error,), r),
        call_ensures(turn_error_text, (lang, error), text),
    ensures
        r <==> error is Cancelled,
        error matches TurnError::Other(message) ==> text@ == message@,
{
}

} // verus!
