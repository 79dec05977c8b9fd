//! Menus in place: lists that are searched by typing, with a row in focus.
use crate::echo::{
    bold, bold_text, checked_text, dim, dim_text, enclosed, input_prompt_bar, prompt_bar,
    style_entry,
};
use crate::editor::{KeyCode, KeyModifiers};
use crate::lang::{pick, t, Lang};
use crate::mode::AgentMode;
use crate::text::{begins_with, strip_prefix, texts, trim, trimmed};
use crate::width::{truncate_visible_width, truncated};
use fuzzy_matcher::FuzzyMatcher;
use vstd::prelude::*;
use vstd::string::*;

verus! {

/// How well a text matches a query; nothing where it does not.
pub uninterp spec fn skim_score(item: Seq<char>, query: Seq<char>) -> Option<i64>;

/// `SkimMatcherV2::fuzzy_match` of the `fuzzy-matcher` crate, with the default
/// matcher: the score of the text for the query, if the characters of the query
/// occur in it in order. An empty query matches everything with score zero. How
/// else scores are given is the matcher's to say.
#[verifier::external_body]
fn fuzzy_score(item: &str, query: &str) -> (r: Option<i64>)
    ensures
        r == skim_score(item@, query@),
        query@.len() == 0 ==> r == Some(0i64),
{
    fuzzy_matcher::skim::SkimMatcherV2::default().fuzzy_match(item, query)
}

/// Whether a match stands before another: by its score, and by its place in the
/// list where the scores are the same.
pub open spec fn ranks_before(a: (i64, usize), b: (i64, usize)) -> bool {
    a.0 > b.0 || (a.0 == b.0 && a.1 < b.1)
}

/// `r` holds the matches among the first `n` items, best first.
pub open spec fn is_ranking(items: Seq<Seq<char>>, n: int, query: Seq<char>, r: Seq<(i64, usize)>) -> bool {
    &&& forall|k: int|
        0 <= k < r.len() ==> (#[trigger] r[k]).1 < n && skim_score(items[r[k].1 as int], query)
            == Some(r[k].0)
    &&& forall|i: int|
        0 <= i < n && skim_score(#[trigger] items[i], query) is Some ==> exists|k: int|
            0 <= k < r.len() && (#[trigger] r[k]).1 == i
    &&& forall|j: int, k: int|
        0 <= j < k < r.len() ==> ranks_before(#[trigger] r[j], #[trigger] r[k])
}

/// `r` holds what a query finds: everything in order for an empty query, the
/// matches best first for any other.
pub open spec fn is_found(items: Seq<Seq<char>>, query: Seq<char>, r: Seq<(i64, usize)>) -> bool {
    if trimmed(query).len() == 0 {
        r.len() == items.len() && forall|k: int|
            0 <= k < r.len() ==> (#[trigger] r[k]) == (0i64, k as usize)
    } else {
        is_ranking(items, items.len() as int, query, r)
    }
}

/// What a query finds is determined, down to the order.
pub proof fn law_ranking_is_determined(
    items: Seq<Seq<char>>,
    query: Seq<char>,
    a: Seq<(i64, usize)>,
    b: Seq<(i64, usize)>,
)
    requires
        items.len() <= usize::MAX,
        is_found(items, query, a),
        is_found(items, query, b),
    ensures
        a == b,
{
    if trimmed(query).len() == 0 {
        assert(a =~= b);
    } else {
        lemma_rankings_agree(items, query, a, b, 0);
        if a.len() < b.len() {
            lemma_ranking_extends(items, query, a, b);
        }
        if b.len() < a.len() {
            lemma_rankings_agree(items, query, b, a, 0);
            lemma_ranking_extends(items, query, b, a);
        }
        assert(a =~= b);
    }
}

proof fn lemma_ranking_extends(
    items: Seq<Seq<char>>,
    query: Seq<char>,
    a: Seq<(i64, usize)>,
    b: Seq<(i64, usize)>,
)
    requires
        is_ranking(items, items.len() as int, query, a),
        is_ranking(items, items.len() as int, query, b),
        forall|k: int| 0 <= k < a.len() && k < b.len() ==> a[k] == b[k],
    ensures
        b.len() <= a.len(),
{
    if a.len() < b.len() {
        let extra = b[a.len() as int];
        assert(skim_score(items[extra.1 as int], query) is Some);
        let k = choose|k: int| 0 <= k < a.len() && (#[trigger] a[k]).1 == extra.1;
        assert(b[k] == a[k]);
        assert(skim_score(items[a[k].1 as int], query) == Some(a[k].0));
        assert(ranks_before(b[k], b[a.len() as int]));
    }
}

proof fn lemma_rankings_agree(
    items: Seq<Seq<char>>,
    query: Seq<char>,
    a: Seq<(i64, usize)>,
    b: Seq<(i64, usize)>,
    from: int,
)
    requires
        is_ranking(items, items.len() as int, query, a),
        is_ranking(items, items.len() as int, query, b),
        0 <= from,
        forall|k: int| 0 <= k < from && k < a.len() && k < b.len() ==> a[k] == b[k],
    ensures
        forall|k: int| 0 <= k < a.len() && k < b.len() ==> a[k] == b[k],
    decreases a.len() - from,
{
    if from < a.len() && from < b.len() {
        lemma_not_later(items, query, a, b, from);
        lemma_not_later(items, query, b, a, from);
        let x = a[from];
        let y = b[from];
        assert(x == y);
        lemma_rankings_agree(items, query, a, b, from + 1);
    }
}

/// The entry of one ranking does not come before that of another where both
/// agree up to it.
proof fn lemma_not_later(
    items: Seq<Seq<char>>,
    query: Seq<char>,
    a: Seq<(i64, usize)>,
    b: Seq<(i64, usize)>,
    from: int,
)
    requires
        is_ranking(items, items.len() as int, query, a),
        is_ranking(items, items.len() as int, query, b),
        0 <= from < a.len(),
        from < b.len(),
        forall|k: int| 0 <= k < from && k < a.len() && k < b.len() ==> a[k] == b[k],
    ensures
        a[from] == b[from] || ranks_before(b[from], a[from]),
{
    let x = a[from];
    assert(skim_score(items[x.1 as int], query) == Some(x.0));
    let k = choose|k: int| 0 <= k < b.len() && (#[trigger] b[k]).1 == x.1;
    assert(skim_score(items[b[k].1 as int], query) == Some(b[k].0));
    assert(b[k] == x);
    if k < from {
        assert(a[k] == b[k]);
        assert(ranks_before(a[k], a[from]));
    } else if k > from {
        assert(ranks_before(b[from], b[k]));
    }
}

pub fn fuzzy_matches(items: &Vec<String>, query: &str) -> (r: Vec<(i64, usize)>)
    ensures
        is_found(texts(items@), query@, r@),
{
    let ghost all = texts(items@);
    let mut out: Vec<(i64, usize)> = Vec::new();
    let mut i: usize = 0;
    if trim(query).is_empty() {
        while i < items.len()
            invariant
                i <= items@.len(),
                out@.len() == i,
                forall|k: int| 0 <= k < i ==> (#[trigger] out@[k]) == (0i64, k as usize),
            decreases items@.len() - i,
        {
            out.push((0, i));
            i = i + 1;
        }
        return out;
    }
    while i < items.len()
        invariant
            i <= items@.len(),
            all == texts(items@),
            is_ranking(all, i as int, query@, out@),
        decreases items@.len() - i,
    {
        assert(all[i as int] == items@[i as int]@);
        if let Some(score) = fuzzy_score(items[i].as_str(), query) {
            let mut k: usize = out.len();
            while k > 0 && out[k - 1].0 < score
                invariant
                    k <= out@.len(),
                    is_ranking(all, i as int, query@, out@),
                    forall|j: int| k <= j < out@.len() ==> (#[trigger] out@[j]).0 < score,
                decreases k,
            {
                k = k - 1;
            }
            let ghost before = out@;
            let ghost at = k as int;
            out.insert(k, (score, i));
            proof {
                let now = out@;
                assert(now =~= before.insert(at, (score, i)));
                assert forall|j: int, m: int| 0 <= j < m < now.len() implies ranks_before(
                    #[trigger] now[j],
                    #[trigger] now[m],
                ) by {
                    let x = if j < at {
                        j
                    } else {
                        j - 1
                    };
                    let y = if m < at {
                        m
                    } else {
                        m - 1
                    };
                    if j == at {
                        assert(now[m] == before[m - 1]);
                        assert(before[m - 1].0 < score);
                    } else if m == at {
                        assert(now[j] == before[j]);
                        if at > 0 {
                            assert(before[at - 1].0 >= score);
                            if j < at - 1 {
                                assert(ranks_before(before[j], before[at - 1]));
                            }
                        }
                        assert(before[j].1 < i);
                    } else {
                        assert(now[j] == before[x]);
                        assert(now[m] == before[y]);
                        assert(ranks_before(before[x], before[y]));
                    }
                }
                assert forall|m: int| 0 <= m < now.len() implies (#[trigger] now[m]).1 < i + 1
                    && skim_score(all[now[m].1 as int], query@) == Some(now[m].0) by {
                    if m < at {
                        assert(now[m] == before[m]);
                    } else if m > at {
                        assert(now[m] == before[m - 1]);
                    }
                }
                assert forall|m: int|
                    0 <= m < i + 1 && skim_score(#[trigger] all[m], query@) is Some implies exists|
                    k2: int,
                |
                    0 <= k2 < now.len() && (#[trigger] now[k2]).1 == m by {
                    if m == i {
                        assert(now[at].1 == m);
                    } else {
                        let o = choose|o: int| 0 <= o < before.len() && (#[trigger] before[o]).1 == m;
                        if o < at {
                            assert(now[o] == before[o]);
                        } else {
                            assert(now[o + 1] == before[o]);
                        }
                    }
                }
            }
        }
        i = i + 1;
    }
    assert(all.len() == items@.len());
    out
}

/// The items that a query finds, in the order of the list.
pub open spec fn kept_by(items: Seq<Seq<char>>, query: Seq<char>, n: int) -> Seq<int>
    decreases n,
{
    if n <= 0 {
        Seq::empty()
    } else if trimmed(query).len() == 0 || skim_score(items[n - 1], query) is Some {
        kept_by(items, query, n - 1).push(n - 1)
    } else {
        kept_by(items, query, n - 1)
    }
}

/// Indices as integers.
pub open spec fn wide_indices(v: Seq<usize>) -> Seq<int> {
    v.map_values(|i: usize| i as int)
}

pub fn pop_matches(items: &Vec<String>, query: &str) -> (r: Vec<usize>)
    ensures
        wide_indices(r@) == kept_by(texts(items@), query@, items@.len() as int),
{
    let ghost all = texts(items@);
    let blank = trim(query).is_empty();
    let mut out: Vec<usize> = Vec::new();
    let mut i: usize = 0;
    assert(wide_indices(out@) =~= kept_by(all, query@, 0));
    while i < items.len()
        invariant
            i <= items@.len(),
            all == texts(items@),
            blank == (trimmed(query@).len() == 0),
            wide_indices(out@) == kept_by(all, query@, i as int),
        decreases items@.len() - i,
    {
        assert(all[i as int] == items@[i as int]@);
        let ghost was = out@;
        if blank || fuzzy_score(items[i].as_str(), query).is_some() {
            out.push(i);
            assert(wide_indices(out@) =~= wide_indices(was).push(i as int));
        }
        i = i + 1;
    }
    out
}

/// The first row that is shown, so that the row in focus is among those shown.
pub open spec fn scrolled(selected: int, scroll: int, visible: int) -> int {
    if visible == 0 || selected < scroll {
        selected
    } else if selected >= scroll + visible {
        selected + 1 - visible
    } else {
        scroll
    }
}

pub fn inline_fuzzy_scroll(selected: usize, scroll: usize, visible: usize) -> (r: usize)
    ensures
        r == scrolled(selected as int, scroll as int, visible as int),
{
    if visible == 0 || selected < scroll {
        selected
    } else if selected - scroll >= visible {
        selected - visible + 1
    } else {
        scroll
    }
}

/// The row in focus is always among those shown.
pub proof fn law_focus_is_shown(selected: int, scroll: int, visible: int)
    requires
        selected >= 0,
        scroll >= 0,
        visible > 0,
    ensures
        ({
            let first = scrolled(selected, scroll, visible);
            0 <= first <= selected < first + visible
        }),
{
}

/// The rows of a menu of so many items: ten items at most, and the two lines
/// around them.
pub fn inline_fuzzy_lines(item_count: usize) -> (r: u16)
    ensures
        r == (if item_count == 0 {
            3
        } else if item_count < 10 {
            item_count + 2
        } else {
            12
        }),
{
    if item_count == 0 {
        3
    } else if item_count < 10 {
        (item_count + 2) as u16
    } else {
        12
    }
}

pub fn inline_fuzzy_bar() -> (r: String)
    ensures
        r@ == prompt_bar(AgentMode::Normal),
{
    input_prompt_bar(AgentMode::Normal)
}

/// The title of a menu, with the query behind it where there is one.
pub open spec fn titled(title: Seq<char>, query: Seq<char>) -> Seq<char> {
    if trimmed(query).len() == 0 {
        title
    } else {
        title + " · "@ + trimmed(query)
    }
}

pub fn inline_single_header(title: &str, query: &str, width: usize) -> (r: String)
    ensures
        r@ == bold(truncated(titled(title@, query@), width as nat)),
{
    let wanted = trim(query);
    let mut line = title.to_owned();
    if !wanted.is_empty() {
        line.append(" · ");
        line.append(wanted);
    }
    let cut = truncate_visible_width(line.as_str(), width);
    bold_text(cut.as_str())
}

pub fn inline_fuzzy_header(lang: Lang, query: &str, width: usize) -> (r: String)
    ensures
        r@ == bold(
            truncated(titled(pick(lang, "Select model"@, "选择模型"@), query@), width as nat),
        ),
{
    inline_single_header(t(lang, "Select model", "选择模型"), query, width)
}

/// A row in focus: its mark in colour, the rest in bold type.
pub open spec fn pointed(line: Seq<char>) -> Seq<char> {
    "\x1b[1m\x1b[35m›\x1b[0m\x1b[1m"@ + (if begins_with(line, "›"@) {
        line.skip("›"@.len() as int)
    } else {
        line
    }) + "\x1b[0m"@
}

fn point(line: &str) -> (r: String)
    ensures
        r@ == pointed(line@),
{
    let rest = match strip_prefix(line, "›") {
        Some(rest) => rest,
        None => line,
    };
    enclosed("\x1b[1m\x1b[35m›\x1b[0m\x1b[1m", rest, "\x1b[0m")
}

/// A row of a menu with marks.
pub open spec fn marked_row(item: Seq<char>, selected: bool, active: bool, width: nat) -> Seq<char> {
    let line = truncated(
        (if selected {
            "› "@
        } else {
            "  "@
        }) + (if active {
            "[*]"@
        } else {
            "[ ]"@
        }) + " "@ + item,
        width,
    );
    if selected {
        pointed(line)
    } else if active {
        checked_text(line)
    } else {
        dim(line)
    }
}

pub fn inline_fuzzy_item_line(item: &str, selected: bool, active: bool, width: usize) -> (r: String)
    ensures
        r@ == marked_row(item@, selected, active, width as nat),
{
    let mut text = (if selected {
        "› "
    } else {
        "  "
    }).to_owned();
    text.append(
        if active {
            "[*]"
        } else {
            "[ ]"
        },
    );
    text.append(" ");
    text.append(item);
    let line = truncate_visible_width(text.as_str(), width);
    if selected {
        point(line.as_str())
    } else {
        style_entry(line.as_str(), false, active)
    }
}

/// A row of a menu without marks.
pub open spec fn plain_row(item: Seq<char>, selected: bool, width: nat) -> Seq<char> {
    let line = truncated(
        (if selected {
            "› "@
        } else {
            "  "@
        }) + item,
        width,
    );
    if selected {
        pointed(line)
    } else {
        dim(line)
    }
}

pub fn inline_single_item_line(item: &str, selected: bool, width: usize) -> (r: String)
    ensures
        r@ == plain_row(item@, selected, width as nat),
{
    let mut text = (if selected {
        "› "
    } else {
        "  "
    }).to_owned();
    text.append(item);
    let line = truncate_visible_width(text.as_str(), width);
    if selected {
        point(line.as_str())
    } else {
        dim_text(line.as_str())
    }
}

/// The question whether an entry is to be deleted.
pub open spec fn confirm_text(lang: Lang, label: Seq<char>) -> Seq<char> {
    match lang {
        Lang::Zh => "删除「"@ + label + "」？y/N"@,
        Lang::En => "delete \""@ + label + "\"? y/N"@,
    }
}

pub fn inline_single_confirm_header(lang: Lang, label: &str, width: usize) -> (r: String)
    ensures
        r@ == "\x1b[1m\x1b[31m"@ + truncated(confirm_text(lang, label@), width as nat)
            + "\x1b[0m"@,
{
    let line = enclosed(t(lang, "delete \"", "删除「"), label, t(lang, "\"? y/N", "」？y/N"));
    let cut = truncate_visible_width(line.as_str(), width);
    enclosed("\x1b[1m\x1b[31m", cut.as_str(), "\x1b[0m")
}

pub fn inline_fuzzy_help_line(lang: Lang, width: usize) -> (r: String)
    ensures
        r@ == dim(
            truncated(
                pick(
                    lang,
                    "type search · j/k move · Tab toggle · Enter/q confirm"@,
                    "输入搜索 · j/k 移动 · Tab 切换 · Enter/q 确认"@,
                ),
                width as nat,
            ),
        ),
{
    let line = truncate_visible_width(
        t(
            lang,
            "type search · j/k move · Tab toggle · Enter/q confirm",
            "输入搜索 · j/k 移动 · Tab 切换 · Enter/q 确认",
        ),
        width,
    );
    dim_text(line.as_str())
}

/// What a menu with a single choice says about its keys.
pub open spec fn single_help(lang: Lang, deletable: bool) -> Seq<char> {
    if deletable {
        pick(
            lang,
            "type search · j/k move · Enter select · Ctrl+D delete · Esc cancel"@,
            "输入搜索 · j/k 移动 · Enter 选择 · Ctrl+D 删除 · Esc 取消"@,
        )
    } else {
        pick(
            lang,
            "type search · j/k move · Enter select · Esc cancel"@,
            "输入搜索 · j/k 移动 · Enter 选择 · Esc 取消"@,
        )
    }
}

pub fn inline_single_help_line(lang: Lang, width: usize, deletable: bool) -> (r: String)
    ensures
        r@ == dim(truncated(single_help(lang, deletable), width as nat)),
{
    let text = if deletable {
        t(
            lang,
            "type search · j/k move · Enter select · Ctrl+D delete · Esc cancel",
            "输入搜索 · j/k 移动 · Enter 选择 · Ctrl+D 删除 · Esc 取消",
        )
    } else {
        t(
            lang,
            "type search · j/k move · Enter select · Esc cancel",
            "输入搜索 · j/k 移动 · Enter 选择 · Esc 取消",
        )
    };
    let line = truncate_visible_width(text, width);
    dim_text(line.as_str())
}

/// What a key means in a menu with a single choice. A printable character is part
/// of the query, but for `j` and `k`, which move the focus; so deleting takes a
/// modifier or a key of its own.
#[derive(Clone, Copy, Debug, PartialEq, Eq, Structural)]
pub enum InlineSelectKey {
    Cancel,
    Accept,
    Up,
    Down,
    Backspace,
    DeleteRequest,
    Char(char),
    Ignore,
}

pub open spec fn select_key(code: KeyCode, control: bool, deletable: bool) -> InlineSelectKey {
    match code {
        KeyCode::Esc => InlineSelectKey::Cancel,
        KeyCode::Enter => InlineSelectKey::Accept,
        KeyCode::Backspace => InlineSelectKey::Backspace,
        KeyCode::Delete => if deletable {
            InlineSelectKey::DeleteRequest
        } else {
            InlineSelectKey::Ignore
        },
        KeyCode::Up => if control {
            InlineSelectKey::Ignore
        } else {
            InlineSelectKey::Up
        },
        KeyCode::Down => if control {
            InlineSelectKey::Ignore
        } else {
            InlineSelectKey::Down
        },
        KeyCode::Char(ch) => if control {
            if ch == 'c' {
                InlineSelectKey::Cancel
            } else if ch == 'd' && deletable {
                InlineSelectKey::DeleteRequest
            } else {
                InlineSelectKey::Ignore
            }
        } else if ch == 'k' {
            InlineSelectKey::Up
        } else if ch == 'j' {
            InlineSelectKey::Down
        } else {
            InlineSelectKey::Char(ch)
        },
        _ => InlineSelectKey::Ignore,
    }
}

pub fn inline_select_key(code: KeyCode, modifiers: KeyModifiers, deletable: bool) -> (r:
    InlineSelectKey)
    ensures
        r == select_key(code, modifiers.control, deletable),
{
    let control = modifiers.control;
    match code {
        KeyCode::Esc => InlineSelectKey::Cancel,
        KeyCode::Enter => InlineSelectKey::Accept,
        KeyCode::Backspace => InlineSelectKey::Backspace,
        KeyCode::Delete if deletable => InlineSelectKey::DeleteRequest,
        KeyCode::Up if !control => InlineSelectKey::Up,
        KeyCode::Down if !control => InlineSelectKey::Down,
        KeyCode::Char('c') if control => InlineSelectKey::Cancel,
        KeyCode::Char('d') if control && deletable => InlineSelectKey::DeleteRequest,
        KeyCode::Char('k') if !control => InlineSelectKey::Up,
        KeyCode::Char('j') if !control => InlineSelectKey::Down,
        KeyCode::Char(ch) if !control => InlineSelectKey::Char(ch),
        _ => InlineSelectKey::Ignore,
    }
}

/// No key that types a character ever deletes an entry, and without the right
/// to delete no key does.
pub proof fn law_typing_never_deletes(code: KeyCode, control: bool, deletable: bool)
    ensures
        select_key(code, control, deletable) is DeleteRequest ==> deletable && (code is Delete
            || control),
{
}

/// An empty query finds everything in its order; any other finds exactly what
/// matches it, the better match first.
pub proof fn law_queries_find_what_matches(
    items: &Vec<String>,
    query: &str,
    r: Vec<(i64, usize)>,
    i: int,
)
    requires
        call_ensures(fuzzy_matches, (items, query), r),
        0 <= i < items@.len(),
    ensures
        trimmed(query@).len() == 0 ==> r@.len() == items@.len() && r@[i].1 == i,
        trimmed(query@).len() > 0 ==> ((exists|k: int|
            0 <= k < r@.len() && (#[trigger] r@[k]).1 == i) <==> skim_score(items@[i]@, query@)
            is Some),
        trimmed(query@).len() > 0 ==> forall|j: int, k: int|
            0 <= j < k < r@.len() ==> (#[trigger] r@[j]).0 >= (#[trigger] r@[k]).0,
{
    let all = texts(items@);
    assert(all.len() == items@.len());
    assert(all[i] == items@[i]@);
    if trimmed(query@).len() > 0 {
        if skim_score(items@[i]@, query@) is Some {
            assert(skim_score(all[i], query@) is Some);
            let k = choose|k: int| 0 <= k < r@.len() && (#[trigger] r@[k]).1 == i;
            assert(r@[k].1 == i);
        }
        if exists|k: int| 0 <= k < r@.len() && (#[trigger] r@[k]).1 == i {
            let k = choose|k: int| 0 <= k < r@.len() && (#[trigger] r@[k]).1 == i;
            assert(skim_score(all[r@[k].1 as int], query@) == Some(r@[k].0));
        }
    } else {
        assert(items.len() == items@.len());
        assert(r@[i] == (0i64, i as usize));
    }
}

/// Searching the turns keeps their order: those that match, oldest first.
pub proof fn law_turns_are_found_in_order(items: Seq<Seq<char>>, query: Seq<char>, n: int, i: int)
    requires
        0 <= i < n <= items.len(),
    ensures
        kept_by(items, query, n).contains(i) <==> trimmed(query).len() == 0 || skim_score(
            items[i],
            query,
        ) is Some,
        forall|a: int, b: int|
            0 <= a < b < kept_by(items, query, n).len() ==> #[trigger] kept_by(items, query, n)[a]
                < #[trigger] kept_by(items, query, n)[b],
        forall|a: int|
            0 <= a < kept_by(items, query, n).len() ==> 0 <= #[trigger] kept_by(items, query, n)[a]
                < n,
    decreases n,
{
    lemma_kept(items, query, n);
}

proof fn lemma_kept(items: Seq<Seq<char>>, query: Seq<char>, n: int)
    requires
        0 <= n <= items.len(),
    ensures
        forall|i: int|
            0 <= i < n ==> (#[trigger] kept_by(items, query, n).contains(i) <==> trimmed(query).len()
                == 0 || skim_score(items[i], query) is Some),
        forall|a: int, b: int|
            0 <= a < b < kept_by(items, query, n).len() ==> #[trigger] kept_by(items, query, n)[a]
                < #[trigger] kept_by(items, query, n)[b],
        forall|a: int|
            0 <= a < kept_by(items, query, n).len() ==> 0 <= #[trigger] kept_by(items, query, n)[a]
                < n,
    decreases n,
{
    if n > 0 {
        lemma_kept(items, query, n - 1);
        let before = kept_by(items, query, n - 1);
        let after = kept_by(items, query, n);
        assert forall|i: int| 0 <= i < n implies (#[trigger] after.contains(i) <==> trimmed(
            query,
        ).len() == 0 || skim_score(items[i], query) is Some) by {
            if i < n - 1 {
                assert(before.contains(i) <==> trimmed(query).len() == 0 || skim_score(
                    items[i],
                    query,
                ) is Some);
                if before.contains(i) {
                    let k = choose|k: int| 0 <= k < before.len() && before[k] == i;
                    assert(after[k] == i);
                }
                if after.contains(i) {
                    let k = choose|k: int| 0 <= k < after.len() && after[k] == i;
                    assert(before[k] == i);
                }
            } else {
                if after.contains(i) {
                    let k = choose|k: int| 0 <= k < after.len() && after[k] == i;
                    if k < before.len() {
                        assert(before[k] == i);
                    }
                }
                if trimmed(query).len() == 0 || skim_score(items[i], query) is Some {
                    assert(after[before.len() as int] == i);
                }
            }
        }
    }
}

/// The keys of a menu with a single choice.
pub proof fn law_menu_keys_mean(
    code: KeyCode,
    modifiers: KeyModifiers,
    deletable: bool,
    r: InlineSelectKey,
)
    requires
        call_ensures(inline_select_key, (code, modifiers, deletable), r),
    ensures
        r is Accept <==> code is Enter,
        r is Cancel <==> code is Esc || (code == KeyCode::Char('c') && modifiers.control),
        r is Backspace <==> code is Backspace,
        r is DeleteRequest <==> deletable && (code is Delete || (code == KeyCode::Char('d')
            && modifiers.control)),
        r is Up <==> !modifiers.control && (code is Up || code == KeyCode::Char('k')),
        r is Down <==> !modifiers.control && (code is Down || code == KeyCode::Char('j')),
        code matches KeyCode::Char(ch) ==> !modifiers.control && ch != 'j' && ch != 'k' ==> r
            == InlineSelectKey::Char(ch),
{
}

/// A menu has a row for each entry, ten at most, and two around them.
pub proof fn law_menu_has_room_for_its_entries(count: usize, r: u16)
    requires
        call_ensures(inline_fuzzy_lines, (count,), r),
    ensures
        1 <= count <= 10 ==> r == count + 2,
        count > 10 ==> r == 12,
        count == 0 ==> r == 3,
{
}

} // verus!
