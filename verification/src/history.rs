//! Histories: the lines typed before, kept in a file and found in the
//! conversation, and the listing of past messages.
use crate::jobs::{contains_name, opt_string};
use crate::sanitize::{strip_terminal_control_sequences, stripped};
use crate::text::{
    ends_in, ends_with, from_chars, join, joined, lemma_split_nonempty, lines, lines_of, same,
    split_at_char, starts_with, texts, to_chars, trim, trimmed, without_cr, begins_with,
};
use vstd::prelude::*;
use vstd::string::*;

verus! {

/// So many lines are kept.
pub const REPL_HISTORY_CAP: usize = 200;

pub open spec fn hex_digit(n: int) -> char {
    if n < 10 {
        (('0' as int) + n) as char
    } else {
        (('a' as int) + n - 10) as char
    }
}

/// How a character stands inside a JSON string.
pub open spec fn json_escape(c: char) -> Seq<char> {
    if c == '"' {
        seq!['\\', '"']
    } else if c == '\\' {
        seq!['\\', '\\']
    } else if c == '\x08' {
        seq!['\\', 'b']
    } else if c == '\t' {
        seq!['\\', 't']
    } else if c == '\n' {
        seq!['\\', 'n']
    } else if c == '\x0c' {
        seq!['\\', 'f']
    } else if c == '\r' {
        seq!['\\', 'r']
    } else if (c as int) < 0x20 {
        seq!['\\', 'u', '0', '0', hex_digit(c as int / 16), hex_digit(c as int % 16)]
    } else {
        seq![c]
    }
}

pub open spec fn json_escaped(s: Seq<char>) -> Seq<char>
    decreases s.len(),
{
    if s.len() == 0 {
        Seq::empty()
    } else {
        json_escaped(s.drop_last()) + json_escape(s.last())
    }
}

/// A text as a JSON string.
pub open spec fn json_quoted(s: Seq<char>) -> Seq<char> {
    seq!['"'] + json_escaped(s) + seq!['"']
}

/// The text that a line holds as a JSON string, if it is one.
pub uninterp spec fn json_unquoted(line: Seq<char>) -> Option<Seq<char>>;

/// `serde_json::to_string` on a string: the text in quotes, with quotes,
/// backslashes and the control characters below the space escaped, which reads
/// back as the text. Writing a string to memory does not fail.
#[verifier::external_body]
fn json_line(entry: &str) -> (r: Option<String>)
    ensures
        r is Some,
        opt_string(r) == Some(json_quoted(entry@)),
        json_unquoted(r->0@) == Some(entry@),
{
    serde_json::to_string(entry).ok()
}

/// `serde_json::from_str` for a string: the text that the line holds, or nothing
/// where the line is no JSON string.
#[verifier::external_body]
fn read_json_line(line: &str) -> (r: Option<String>)
    ensures
        opt_string(r) == json_unquoted(line@),
{
    serde_json::from_str::<String>(line).ok()
}

/// The entries of the first `n` lines: those that hold a text that is not blank.
pub open spec fn entries_among(rows: Seq<Seq<char>>, n: int) -> Seq<Seq<char>>
    decreases n,
{
    if n <= 0 {
        Seq::empty()
    } else {
        let before = entries_among(rows, n - 1);
        match json_unquoted(rows[n - 1]) {
            Some(entry) => if trimmed(entry).len() == 0 {
                before
            } else {
                before.push(entry)
            },
            None => before,
        }
    }
}

/// The entries of the file.
pub open spec fn history_entries(content: Seq<char>) -> Seq<Seq<char>> {
    entries_among(lines_of(content), lines_of(content).len() as int)
}

/// The newest entries, as many as are kept.
pub open spec fn newest(entries: Seq<Seq<char>>) -> Seq<Seq<char>> {
    if entries.len() > 200 {
        entries.skip(entries.len() - 200)
    } else {
        entries
    }
}

/// The file that holds these entries and no others.
pub open spec fn history_text(entries: Seq<Seq<char>>) -> Seq<char> {
    joined(entries.map_values(|e: Seq<char>| json_quoted(e)), "\n"@) + "\n"@
}

fn read_entries(content: &str) -> (r: Vec<String>)
    ensures
        texts(r@) == history_entries(content@),
{
    let rows = lines(content);
    let ghost all = lines_of(content@);
    assert(texts(rows@).len() == rows@.len());
    let mut out: Vec<String> = Vec::new();
    let mut i: usize = 0;
    assert(texts(out@) =~= entries_among(all, 0));
    while i < rows.len()
        invariant
            i <= rows@.len(),
            texts(rows@) == all,
            texts(out@) == entries_among(all, i as int),
        decreases rows@.len() - i,
    {
        assert(all[i as int] == rows@[i as int]@);
        if let Some(entry) = read_json_line(rows[i].as_str()) {
            if !trim(entry.as_str()).is_empty() {
                proof {
                    crate::text::lemma_texts_push(out@, entry);
                }
                out.push(entry);
            }
        }
        i = i + 1;
    }
    assert(texts(rows@).len() == rows@.len());
    out
}

fn quote_entries(entries: &Vec<String>) -> (r: Vec<String>)
    ensures
        texts(r@) == texts(entries@).map_values(|e: Seq<char>| json_quoted(e)),
{
    let mut out: Vec<String> = Vec::new();
    let mut i: usize = 0;
    while i < entries.len()
        invariant
            i <= entries@.len(),
            out@.len() == i,
            forall|k: int| 0 <= k < i ==> (#[trigger] out@[k])@ == json_quoted(entries@[k]@),
        decreases entries@.len() - i,
    {
        if let Some(line) = json_line(entries[i].as_str()) {
            out.push(line);
        }
        i = i + 1;
    }
    assert(texts(out@) =~= texts(entries@).map_values(|e: Seq<char>| json_quoted(e)));
    out
}

/// The lines typed before, and the text for the file where it has grown beyond
/// what is kept. A file that cannot be read holds none.
pub fn load_persistent_repl_history(content: Option<&str>) -> (r: (Vec<String>, Option<String>))
    ensures
        ({
            let all = match content {
                Some(text) => history_entries(text@),
                None => Seq::empty(),
            };
            &&& texts(r.0@) == newest(all)
            &&& opt_string(r.1) == if all.len() > 200 {
                Some(history_text(newest(all)))
            } else {
                None
            }
        }),
{
    match content {
        None => {
            let none: Vec<String> = Vec::new();
            assert(texts(none@) =~= Seq::empty());
            (none, None)
        },
        Some(text) => {
            let mut entries = read_entries(text);
            let ghost all = entries@;
            assert(texts(all).len() == all.len());
            if entries.len() > REPL_HISTORY_CAP {
                let kept = entries.split_off(entries.len() - REPL_HISTORY_CAP);
                assert(texts(kept@) =~= newest(texts(all)));
                let quoted = quote_entries(&kept);
                let mut file = join(quoted.as_slice(), "\n");
                file.append("\n");
                (kept, Some(file))
            } else {
                (entries, None)
            }
        },
    }
}

/// The line for the file, with its line feed, for an entry that is not blank.
pub fn persist_repl_history_entry(entry: &str) -> (r: Option<String>)
    ensures
        match r {
            Some(text) => {
                let line = json_quoted(trimmed(entry@));
                &&& trimmed(entry@).len() > 0
                &&& text@ == line + "\n"@
                &&& json_unquoted(line) == Some(trimmed(entry@))
            },
            None => trimmed(entry@).len() == 0,
        },
{
    let clean = trim(entry);
    if clean.is_empty() {
        return None;
    }
    match json_line(clean) {
        Some(line) => {
            let mut text = line;
            text.append("\n");
            Some(text)
        },
        None => None,
    }
}

/// The name of the file, in the directory for state.
pub fn repl_history_file() -> (r: &'static str)
    ensures
        r@ == "repl-history.jsonl"@,
{
    "repl-history.jsonl"
}

proof fn lemma_escape_has_no_breaks(c: char)
    ensures
        forall|i: int|
            0 <= i < json_escape(c).len() ==> json_escape(c)[i] != '\n' && json_escape(c)[i]
                != '\r',
{
    let n = c as int;
    if n < 0x20 {
        assert(0 <= n / 16 < 2);
        assert(0 <= n % 16 < 16);
    }
}

proof fn lemma_escaped_has_no_breaks(s: Seq<char>)
    ensures
        !json_escaped(s).contains('\n'),
        !json_escaped(s).contains('\r'),
    decreases s.len(),
{
    let e = json_escaped(s);
    if s.len() > 0 {
        lemma_escaped_has_no_breaks(s.drop_last());
        let head = json_escaped(s.drop_last());
        let c = s.last();
        let tail = json_escape(c);
        lemma_escape_has_no_breaks(c);
        assert forall|i: int| 0 <= i < e.len() implies e[i] != '\n' && e[i] != '\r' by {
            if i < head.len() {
                assert(head.contains(head[i]));
            } else {
                assert(e[i] == tail[i - head.len()]);
            }
        }
    }
}

proof fn lemma_quoted_has_no_breaks(s: Seq<char>)
    ensures
        !json_quoted(s).contains('\n'),
        !json_quoted(s).contains('\r'),
        json_quoted(s).len() >= 2,
{
    lemma_escaped_has_no_breaks(s);
    let e = json_escaped(s);
    let q = json_quoted(s);
    assert forall|i: int| 0 <= i < q.len() implies q[i] != '\n' && q[i] != '\r' by {
        if 0 < i < q.len() - 1 {
            assert(e.contains(e[i - 1]));
        }
    }
}

/// Text without a separator joins the last piece.
proof fn lemma_split_extended(s: Seq<char>, line: Seq<char>, sep: char)
    requires
        !line.contains(sep),
    ensures
        split_at_char(s + line, sep) == split_at_char(s, sep).update(
            split_at_char(s, sep).len() - 1,
            split_at_char(s, sep).last() + line,
        ),
    decreases line.len(),
{
    lemma_split_nonempty(s, sep);
    let pieces = split_at_char(s, sep);
    if line.len() == 0 {
        assert(s + line =~= s);
        assert(pieces.last() + line =~= pieces.last());
        assert(pieces.update(pieces.len() - 1, pieces.last()) =~= pieces);
    } else {
        let head = line.drop_last();
        assert(line.contains(line.last()));
        assert(!head.contains(sep)) by {
            if head.contains(sep) {
                let i = choose|i: int| 0 <= i < head.len() && head[i] == sep;
                assert(line[i] == sep);
            }
        }
        lemma_split_extended(s, head, sep);
        assert((s + line).drop_last() =~= s + head);
        assert((pieces.last() + head).push(line.last()) =~= pieces.last() + line);
        assert(split_at_char(s + line, sep) =~= pieces.update(
            pieces.len() - 1,
            pieces.last() + line,
        ));
    }
}

/// A file is empty or its last line is ended.
pub open spec fn is_whole(content: Seq<char>) -> bool {
    content.len() == 0 || content.last() == '\n'
}

/// A line that is appended to a file becomes its last line.
pub proof fn lemma_line_appended(content: Seq<char>, line: Seq<char>)
    requires
        is_whole(content),
        !line.contains('\n'),
        !line.contains('\r'),
    ensures
        lines_of(content + line + "\n"@) == lines_of(content).push(line),
        is_whole(content + line + "\n"@),
{
    reveal_strlit("\n");
    let pieces = split_at_char(content, '\n');
    lemma_split_nonempty(content, '\n');
    assert(pieces.last() =~= Seq::empty());
    lemma_split_extended(content, line, '\n');
    let grown = split_at_char(content + line, '\n');
    assert(Seq::<char>::empty() + line =~= line);
    assert(grown =~= pieces.update(pieces.len() - 1, line));
    let whole = content + line + "\n"@;
    assert(whole.drop_last() =~= content + line);
    assert(whole.last() == '\n');
    let all = split_at_char(whole, '\n');
    assert(all == grown.push(Seq::<char>::empty()));
    assert(all.drop_last() =~= grown);
    if line.len() > 0 {
        assert(line.contains(line.last()));
    }
    assert(without_cr(line) == line);
    assert(lines_of(whole) =~= lines_of(content).push(line));
}

proof fn lemma_entries_extended(rows: Seq<Seq<char>>, more: Seq<Seq<char>>, n: int)
    requires
        n <= rows.len() <= more.len(),
        forall|i: int| 0 <= i < rows.len() ==> more[i] == rows[i],
    ensures
        entries_among(more, n) == entries_among(rows, n),
    decreases n,
{
    if n > 0 {
        lemma_entries_extended(rows, more, n - 1);
    }
}

/// What is written to the history is read back: the entry stands behind all
/// that were there before, and nothing else changes.
pub proof fn law_written_entry_is_read_back(content: Seq<char>, entry: Seq<char>)
    requires
        is_whole(content),
        trimmed(entry).len() > 0,
        json_unquoted(json_quoted(entry)) == Some(entry),
    ensures
        history_entries(content + json_quoted(entry) + "\n"@) == history_entries(content).push(entry),
        is_whole(content + json_quoted(entry) + "\n"@),
{
    lemma_quoted_has_no_breaks(entry);
    lemma_line_appended(content, json_quoted(entry));
    let rows = lines_of(content);
    lemma_entries_extended(rows, rows.push(json_quoted(entry)), rows.len() as int);
}

/// A file that is written anew with its newest entries holds exactly those.
pub proof fn law_rewriting_keeps_entries(entries: Seq<Seq<char>>)
    requires
        entries.len() > 0,
        forall|i: int|
            0 <= i < entries.len() ==> trimmed(#[trigger] entries[i]).len() > 0 && json_unquoted(
                json_quoted(entries[i]),
            ) == Some(entries[i]),
    ensures
        history_entries(history_text(entries)) == entries,
        is_whole(history_text(entries)),
    decreases entries.len(),
{
    reveal_strlit("\n");
    let quoted = entries.map_values(|e: Seq<char>| json_quoted(e));
    let last = entries.last();
    if entries.len() == 1 {
        let none = Seq::<char>::empty();
        assert(quoted.drop_last() =~= Seq::empty());
        assert(joined(quoted, "\n"@) =~= json_quoted(last));
        assert(none + json_quoted(last) =~= json_quoted(last));
        law_written_entry_is_read_back(none, last);
        let pieces = split_at_char(none, '\n');
        assert(pieces.drop_last() =~= Seq::empty());
        assert(lines_of(none) =~= Seq::empty());
        assert(history_entries(none) =~= Seq::empty());
        assert(entries =~= Seq::empty().push(last));
    } else {
        let before = entries.drop_last();
        assert forall|i: int| 0 <= i < before.len() implies trimmed(#[trigger] before[i]).len() > 0
            && json_unquoted(json_quoted(before[i])) == Some(before[i]) by {
            assert(before[i] == entries[i]);
        }
        law_rewriting_keeps_entries(before);
        assert(quoted.drop_last() =~= before.map_values(|e: Seq<char>| json_quoted(e)));
        assert(history_text(entries) =~= history_text(before) + json_quoted(last) + "\n"@);
        assert(entries[entries.len() - 1] == last);
        law_written_entry_is_read_back(history_text(before), last);
        assert(before.push(last) =~= entries);
    }
}

/// A message of the conversation.
#[derive(Debug)]
pub struct ConversationEntry {
    pub role: String,
    pub content: String,
}

/// What the user typed, among the first `n` messages, freed of what a terminal
/// would act on.
pub open spec fn typed_among(entries: Seq<ConversationEntry>, n: int) -> Seq<Seq<char>>
    decreases n,
{
    if n <= 0 {
        Seq::empty()
    } else {
        let before = typed_among(entries, n - 1);
        let e = entries[n - 1];
        let clean = stripped(e.content@);
        if e.role@ == "user"@ && trimmed(e.content@).len() > 0 && trimmed(clean).len() > 0 {
            before.push(clean)
        } else {
            before
        }
    }
}

/// `v` with the first `n` of `more`, each unless it is there already.
pub open spec fn merged(v: Seq<Seq<char>>, more: Seq<Seq<char>>, n: int) -> Seq<Seq<char>>
    decreases n,
{
    if n <= 0 {
        v
    } else {
        let before = merged(v, more, n - 1);
        if before.contains(more[n - 1]) {
            before
        } else {
            before.push(more[n - 1])
        }
    }
}

/// The history of the input line: what was typed in the conversation, then the
/// lines of the file that are not among those.
pub fn load_repl_input_history(
    conversation: &Vec<ConversationEntry>,
    persistent: Vec<String>,
) -> (r: Vec<String>)
    ensures
        texts(r@) == merged(
            typed_among(conversation@, conversation@.len() as int),
            texts(persistent@),
            persistent@.len() as int,
        ),
{
    let mut out: Vec<String> = Vec::new();
    let mut i: usize = 0;
    assert(texts(out@) =~= typed_among(conversation@, 0));
    while i < conversation.len()
        invariant
            i <= conversation@.len(),
            texts(out@) == typed_among(conversation@, i as int),
        decreases conversation@.len() - i,
    {
        let entry = &conversation[i];
        if same(entry.role.as_str(), "user") && !trim(entry.content.as_str()).is_empty() {
            let clean = strip_terminal_control_sequences(entry.content.as_str());
            if !trim(clean.as_str()).is_empty() {
                proof {
                    crate::text::lemma_texts_push(out@, clean);
                }
                out.push(clean);
            }
        }
        i = i + 1;
    }
    let ghost typed = texts(out@);
    let mut j: usize = 0;
    while j < persistent.len()
        invariant
            j <= persistent@.len(),
            texts(out@) == merged(typed, texts(persistent@), j as int),
        decreases persistent@.len() - j,
    {
        assert(texts(persistent@)[j as int] == persistent@[j as int]@);
        if !contains_name(&out, persistent[j].as_str()) {
            let entry = persistent[j].clone();
            proof {
                crate::text::lemma_texts_push(out@, entry);
            }
            out.push(entry);
        }
        j = j + 1;
    }
    out
}

/// Nothing of the file is lost in the history of the input line, and no line of
/// it is doubled by merging.
pub proof fn law_merging_keeps_and_never_doubles(v: Seq<Seq<char>>, more: Seq<Seq<char>>, n: int)
    requires
        0 <= n <= more.len(),
    ensures
        forall|i: int| 0 <= i < n ==> merged(v, more, n).contains(#[trigger] more[i]),
        forall|i: int| 0 <= i < v.len() ==> merged(v, more, n)[i] == v[i],
        v.len() <= merged(v, more, n).len() <= v.len() + n,
        v.no_duplicates() ==> merged(v, more, n).no_duplicates(),
    decreases n,
{
    if n > 0 {
        law_merging_keeps_and_never_doubles(v, more, n - 1);
        let before = merged(v, more, n - 1);
        let all = merged(v, more, n);
        assert forall|i: int| 0 <= i < n implies all.contains(#[trigger] more[i]) by {
            if i < n - 1 {
                let k = choose|k: int| 0 <= k < before.len() && before[k] == more[i];
                assert(all[k] == more[i]);
            } else if !before.contains(more[i]) {
                assert(all[before.len() as int] == more[i]);
            }
        }
    }
}

/// A stored message.
#[derive(Debug)]
pub struct HistoryEntry {
    pub timestamp: String,
    pub role: String,
    pub content: String,
    pub reasoning: Option<String>,
}

/// A role without the mark of a clarification behind it, however often it
/// stands there.
pub open spec fn shown_role(role: Seq<char>) -> Seq<char>
    decreases role.len(),
{
    if "_clarification"@.len() > 0 && ends_in(role, "_clarification"@) {
        shown_role(role.take(role.len() - "_clarification"@.len()))
    } else {
        role
    }
}

fn role_text(role: &str) -> (r: String)
    ensures
        r@ == shown_role(role@),
{
    let v = to_chars(role);
    let mut n: usize = v.len();
    proof {
        reveal_strlit("_clarification");
        assert(v@.take(n as int) =~= v@);
    }
    loop
        invariant
            n <= v@.len(),
            "_clarification"@.len() == 14,
            shown_role(v@.take(n as int)) == shown_role(role@),
        decreases n,
    {
        let current = from_chars(&v, 0, n);
        assert(current@ =~= v@.take(n as int));
        if !ends_with(current.as_str(), "_clarification") {
            return current;
        }
        assert(v@.take(n as int).take(n - 14) =~= v@.take(n - 14));
        n = n - 14;
    }
}

/// What is listed of a message.
#[derive(Debug)]
pub struct HistoryView {
    pub header: String,
    /// A reply is rendered as one; anything else is printed as it is.
    pub is_reply: bool,
    pub content: String,
    pub reasoning: Option<String>,
}

pub fn run_history(entry: HistoryEntry, no_thinking: bool) -> (r: HistoryView)
    ensures
        r.header@ == entry.timestamp@ + " "@ + shown_role(entry.role@),
        r.is_reply == begins_with(entry.role@, "assistant"@),
        r.content == entry.content,
        r.reasoning == if no_thinking {
            None
        } else {
            entry.reasoning
        },
{
    let role = role_text(entry.role.as_str());
    let mut header = entry.timestamp.clone();
    header.append(" ");
    header.append(role.as_str());
    let is_reply = starts_with(entry.role.as_str(), "assistant");
    HistoryView {
        header,
        is_reply,
        content: entry.content,
        reasoning: if no_thinking {
            None
        } else {
            entry.reasoning
        },
    }
}

/// Of the file the newest two hundred entries are kept, in their order; the file
/// is written anew only where it holds more.
pub proof fn law_newest_entries_are_kept(content: Option<&str>, r: (Vec<String>, Option<String>), i: int)
    requires
        call_ensures(load_persistent_repl_history, (content,), r),
        0 <= i < r.0@.len(),
    ensures
        r.0@.len() <= 200,
        content is Some,
        ({
            let all = history_entries(content->0@);
            &&& all.len() <= 200 ==> texts(r.0@) == all && r.1 is None
            &&& all.len() > 200 ==> r.0@.len() == 200 && r.1 is Some
            &&& texts(r.0@)[i] == all[all.len() - r.0@.len() + i]
        }),
{
    assert(texts(r.0@).len() == r.0@.len());
}

/// A line of the file is an entry where it holds a text that is not blank.
pub proof fn law_lines_are_entries(rows: Seq<Seq<char>>, n: int)
    requires
        0 <= n < rows.len(),
    ensures
        json_unquoted(rows[n]) is None ==> entries_among(rows, n + 1) == entries_among(rows, n),
        json_unquoted(rows[n]) matches Some(entry) ==> (trimmed(entry).len() == 0 ==> entries_among(
            rows,
            n + 1,
        ) == entries_among(rows, n)) && (trimmed(entry).len() > 0 ==> entries_among(rows, n + 1)
            == entries_among(rows, n).push(entry)),
        entries_among(rows, 0).len() == 0,
{
}

/// A blank line is not written; any other is written without the white space
/// around it, on one line.
pub proof fn law_blank_lines_are_not_written(entry: &str, r: Option<String>)
    requires
        call_ensures(persist_repl_history_entry, (entry,), r),
    ensures
        r is Some <==> trimmed(entry@).len() > 0,
        r matches Some(text) ==> text@.len() > 0 && text@.last() == '\n' && json_unquoted(
            text@.drop_last(),
        ) == Some(trimmed(entry@)),
{
    if let Some(text) = r {
        reveal_strlit("\n");
        let line = json_quoted(trimmed(entry@));
        assert(text@.drop_last() =~= line);
    }
}

/// What the user said in the conversation is in the history of the line, freed of
/// control sequences; what others said is not.
pub proof fn law_typed_lines_are_remembered(entries: Seq<ConversationEntry>, n: int)
    requires
        0 <= n < entries.len(),
    ensures
        entries[n].role@ != "user"@ ==> typed_among(entries, n + 1) == typed_among(entries, n),
        entries[n].role@ == "user"@ && trimmed(entries[n].content@).len() > 0 && trimmed(
            stripped(entries[n].content@),
        ).len() > 0 ==> typed_among(entries, n + 1) == typed_among(entries, n).push(
            stripped(entries[n].content@),
        ),
        trimmed(entries[n].content@).len() == 0 ==> typed_among(entries, n + 1) == typed_among(
            entries,
            n,
        ),
        typed_among(entries, 0).len() == 0,
{
}

/// A listed message stands under its time and role, a reply is shown as one, and
/// what was thought is left out where that is wanted.
pub proof fn law_messages_are_listed(entry: HistoryEntry, no_thinking: bool, r: HistoryView)
    requires
        call_ensures(run_history, (entry, no_thinking), r),
    ensures
        r.content == entry.content,
        no_thinking ==> r.reasoning is None,
        !no_thinking ==> r.reasoning == entry.reasoning,
        entry.role@ == "assistant"@ ==> r.is_reply,
        entry.role@ == "user"@ ==> !r.is_reply && r.header@ == entry.timestamp@ + " "@ + "user"@,
{
    reveal_strlit("assistant");
    reveal_strlit("user");
    reveal_strlit("_clarification");
    assert("assistant"@.take("assistant"@.len() as int) =~= "assistant"@);
}

/// Inside a JSON string a quote and a backslash stand behind a backslash, and no
/// control character stands as itself; every other character does.
pub proof fn law_json_strings_hold_no_control_characters(c: char, i: int)
    ensures
        c == '"' || c == '\\' ==> json_escape(c) == seq!['\\', c],
        c == '\n' ==> json_escape(c) == seq!['\\', 'n'],
        c == '\t' ==> json_escape(c) == seq!['\\', 't'],
        c == '\r' ==> json_escape(c) == seq!['\\', 'r'],
        c as int >= 0x20 && c != '"' && c != '\\' ==> json_escape(c) == seq![c],
        0 <= i < json_escape(c).len() ==> json_escape(c)[i] as int >= 0x20,
        (c as int) < 0x20 ==> json_escape(c).len() >= 2 && json_escape(c)[0] == '\\',
{
}

} // verus!
