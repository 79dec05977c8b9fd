//! Overviews of token usage and of how full the context is.
use crate::lang::{pick, t, Lang};
use crate::layout::not_negative;
use crate::text::{decimal, decimal_text, join, joined, run_of, spaces, texts};
use crate::tokens::{compact_count, format_compact_count, Usage};
use vstd::prelude::*;
use vstd::string::*;

verus! {

/// The text of the two that belongs to the language, for texts that are built.
pub fn owned(lang: Lang, en: String, zh: String) -> (r: String)
    ensures
        r == match lang {
            Lang::En => en,
            Lang::Zh => zh,
        },
{
    match lang {
        Lang::En => en,
        Lang::Zh => zh,
    }
}

/// The tokens at which each measure against a full context is taken.
#[derive(Clone, Copy, Debug, PartialEq, Eq, Structural)]
pub struct WatermarkThresholds {
    pub notice: usize,
    pub prune: usize,
    pub compact: usize,
    pub force: usize,
}

/// How far a measure is away.
pub open spec fn tier(lang: Lang, label: Seq<char>, tokens: int, threshold: int) -> Seq<char> {
    if tokens >= threshold {
        label + " "@ + pick(lang, "reached"@, "已达"@) + "✓"@
    } else {
        label + " -"@ + decimal((threshold - tokens) as nat)
    }
}

fn tier_text(lang: Lang, label: &str, tokens: usize, threshold: usize) -> (r: String)
    ensures
        r@ == tier(lang, label@, tokens as int, threshold as int),
{
    let mut r = label.to_owned();
    if tokens >= threshold {
        r.append(" ");
        r.append(t(lang, "reached", "已达"));
        r.append("✓");
    } else {
        let rest = decimal_text((threshold - tokens) as u64);
        r.append(" -");
        r.append(rest.as_str());
    }
    r
}

/// One line on how full the context is: the tokens left before each measure.
pub open spec fn watermarks(
    lang: Lang,
    tokens: int,
    window: int,
    thresholds: WatermarkThresholds,
) -> Seq<char> {
    pick(lang, "Context watermarks"@, "上下文水位"@) + ": "@ + decimal(tokens as nat) + " / "@
        + decimal(window as nat) + " · "@ + tier(
        lang,
        pick(lang, "notice"@, "提示"@),
        tokens,
        thresholds.notice as int,
    ) + " · "@ + tier(lang, pick(lang, "prune"@, "折叠"@), tokens, thresholds.prune as int)
        + " · "@ + tier(lang, pick(lang, "compact"@, "压缩"@), tokens, thresholds.compact as int)
        + " · "@ + tier(lang, pick(lang, "force"@, "强制"@), tokens, thresholds.force as int)
}

pub fn compact_watermark_text(
    lang: Lang,
    context_tokens: usize,
    window: usize,
    thresholds: WatermarkThresholds,
) -> (r: String)
    ensures
        r@ == watermarks(lang, context_tokens as int, window as int, thresholds),
{
    let used = decimal_text(context_tokens as u64);
    let size = decimal_text(window as u64);
    let a = tier_text(lang, t(lang, "notice", "提示"), context_tokens, thresholds.notice);
    let b = tier_text(lang, t(lang, "prune", "折叠"), context_tokens, thresholds.prune);
    let c = tier_text(lang, t(lang, "compact", "压缩"), context_tokens, thresholds.compact);
    let d = tier_text(lang, t(lang, "force", "强制"), context_tokens, thresholds.force);
    let mut r = t(lang, "Context watermarks", "上下文水位").to_owned();
    r.append(": ");
    r.append(used.as_str());
    r.append(" / ");
    r.append(size.as_str());
    r.append(" · ");
    r.append(a.as_str());
    r.append(" · ");
    r.append(b.as_str());
    r.append(" · ");
    r.append(c.as_str());
    r.append(" · ");
    r.append(d.as_str());
    r
}

/// What has been used, over all sessions.
#[derive(Debug)]
pub struct UsageSnapshot {
    pub requests: u64,
    pub prompt_tokens: u64,
    pub cache_read_tokens: u64,
    pub cache_write_tokens: u64,
    pub completion_tokens: u64,
    pub reasoning_tokens: u64,
    pub total_tokens: u64,
    pub conversation_tokens: u64,
    pub last_conversation_usage: Option<Usage>,
    pub last_usage: Option<Usage>,
}

/// A label in a column of ten characters.
pub open spec fn labelled(label: Seq<char>) -> Seq<char> {
    "  "@ + label + run_of(' ', not_negative(10 - label.len()) as nat) + " "@
}

fn label_column(label: &str) -> (r: String)
    ensures
        r@ == labelled(label@),
{
    let fill = spaces(10usize.saturating_sub(label.unicode_len()));
    let mut r = "  ".to_owned();
    r.append(label);
    r.append(fill.as_str());
    r.append(" ");
    r
}

pub open spec fn usage_title(lang: Lang) -> Seq<char> {
    "\x1b[1m"@ + pick(lang, "Token usage"@, "Token 用量"@) + "\x1b[0m \x1b[2m"@ + pick(
        lang,
        "(global totals: all sessions + background calls)"@,
        "（全局累计：含所有会话与后台调用）"@,
    ) + "\x1b[0m"@
}

/// The input tokens: what came out of the cache, what was billed anew, and what
/// went into the cache, where the cache was used.
pub open spec fn input_line(lang: Lang, s: UsageSnapshot) -> Seq<char> {
    let fresh = not_negative(s.prompt_tokens - s.cache_read_tokens) as nat;
    labelled(pick(lang, "input"@, "输入"@)) + compact_count(s.prompt_tokens as nat)
        + if s.cache_read_tokens > 0 {
        "\x1b[2m（"@ + pick(lang, "cache hits"@, "缓存命中"@) + " "@ + compact_count(
            s.cache_read_tokens as nat,
        ) + " · "@ + pick(lang, "billed new"@, "计费新输入"@) + " "@ + compact_count(fresh) + (
        if s.cache_write_tokens > 0 {
            " · "@ + pick(lang, "cache writes"@, "缓存写入"@) + " "@ + compact_count(
                s.cache_write_tokens as nat,
            )
        } else {
            Seq::empty()
        }) + "）\x1b[0m"@
    } else {
        Seq::empty()
    }
}

pub open spec fn output_line(lang: Lang, s: UsageSnapshot) -> Seq<char> {
    labelled(pick(lang, "output"@, "输出"@)) + compact_count(s.completion_tokens as nat)
        + if s.reasoning_tokens > 0 {
        "\x1b[2m（"@ + pick(lang, "reasoning"@, "其中思考"@) + " "@ + compact_count(
            s.reasoning_tokens as nat,
        ) + "）\x1b[0m"@
    } else {
        Seq::empty()
    }
}

pub open spec fn total_line(lang: Lang, s: UsageSnapshot) -> Seq<char> {
    labelled(pick(lang, "total"@, "总计"@)) + compact_count(s.total_tokens as nat)
        + " \x1b[2m· "@ + pick(lang, "conversation"@, "对话口径"@) + " Σ"@ + compact_count(
        s.conversation_tokens as nat,
    ) + "\x1b[0m"@
}

pub open spec fn last_turn_line(lang: Lang, u: Usage) -> Seq<char> {
    labelled(pick(lang, "last turn"@, "最近一轮"@)) + "in "@ + compact_count(
        u.prompt_tokens as nat,
    ) + (if u.cache_read_tokens > 0 {
        "(C"@ + compact_count(u.cache_read_tokens as nat) + ")"@
    } else {
        Seq::empty()
    }) + " · out "@ + compact_count(u.completion_tokens as nat)
}

pub open spec fn context_line(lang: Lang, tokens: nat, window: Option<usize>) -> Seq<char> {
    labelled(pick(lang, "context"@, "会话上下文"@)) + compact_count(tokens) + " / "@ + match window {
        Some(n) => compact_count(n as nat),
        None => "?"@,
    }
}

/// The last turn that is shown: of the conversation, else of anything.
pub open spec fn last_shown(s: UsageSnapshot) -> Option<Usage> {
    match s.last_conversation_usage {
        Some(u) => Some(u),
        None => s.last_usage,
    }
}

/// The lines of the overview; the last turn and the context only where they are
/// known.
pub open spec fn overview_lines(
    lang: Lang,
    s: UsageSnapshot,
    context: Option<(u64, Option<usize>)>,
) -> Seq<Seq<char>> {
    seq![
        usage_title(lang),
        labelled(pick(lang, "requests"@, "请求次数"@)) + compact_count(s.requests as nat),
        input_line(lang, s),
        output_line(lang, s),
        total_line(lang, s),
    ] + (match last_shown(s) {
        Some(u) => seq![last_turn_line(lang, u)],
        None => Seq::empty(),
    }) + match context {
        Some((tokens, window)) => seq![context_line(lang, tokens as nat, window)],
        None => Seq::empty(),
    }
}

fn input_text(lang: Lang, s: &UsageSnapshot) -> (r: String)
    ensures
        r@ == input_line(lang, *s),
{
    let all = format_compact_count(s.prompt_tokens);
    let mut r = label_column(t(lang, "input", "输入"));
    r.append(all.as_str());
    if s.cache_read_tokens > 0 {
        let hits = format_compact_count(s.cache_read_tokens);
        let fresh = format_compact_count(s.prompt_tokens.saturating_sub(s.cache_read_tokens));
        let ghost head = r@;
        let mut more = "\x1b[2m（".to_owned();
        more.append(t(lang, "cache hits", "缓存命中"));
        more.append(" ");
        more.append(hits.as_str());
        more.append(" · ");
        more.append(t(lang, "billed new", "计费新输入"));
        more.append(" ");
        more.append(fresh.as_str());
        let ghost base = more@;
        let mut writes: String = String::new();
        if s.cache_write_tokens > 0 {
            let count = format_compact_count(s.cache_write_tokens);
            writes = " · ".to_owned();
            writes.append(t(lang, "cache writes", "缓存写入"));
            writes.append(" ");
            writes.append(count.as_str());
        }
        more.append(writes.as_str());
        more.append("）\x1b[0m");
        r.append(more.as_str());
    }
    assert(r@ =~= input_line(lang, *s));
    r
}

fn output_text(lang: Lang, s: &UsageSnapshot) -> (r: String)
    ensures
        r@ == output_line(lang, *s),
{
    let all = format_compact_count(s.completion_tokens);
    let mut r = label_column(t(lang, "output", "输出"));
    r.append(all.as_str());
    if s.reasoning_tokens > 0 {
        let count = format_compact_count(s.reasoning_tokens);
        let mut more = "\x1b[2m（".to_owned();
        more.append(t(lang, "reasoning", "其中思考"));
        more.append(" ");
        more.append(count.as_str());
        more.append("）\x1b[0m");
        r.append(more.as_str());
    }
    assert(r@ =~= output_line(lang, *s));
    r
}

fn total_text(lang: Lang, s: &UsageSnapshot) -> (r: String)
    ensures
        r@ == total_line(lang, *s),
{
    let all = format_compact_count(s.total_tokens);
    let said = format_compact_count(s.conversation_tokens);
    let mut r = label_column(t(lang, "total", "总计"));
    r.append(all.as_str());
    r.append(" \x1b[2m· ");
    r.append(t(lang, "conversation", "对话口径"));
    r.append(" Σ");
    r.append(said.as_str());
    r.append("\x1b[0m");
    r
}

fn last_turn_text(lang: Lang, u: &Usage) -> (r: String)
    ensures
        r@ == last_turn_line(lang, *u),
{
    let input = format_compact_count(u.prompt_tokens);
    let output = format_compact_count(u.completion_tokens);
    let mut r = label_column(t(lang, "last turn", "最近一轮"));
    r.append("in ");
    r.append(input.as_str());
    let ghost head = r@;
    let mut cached: String = String::new();
    if u.cache_read_tokens > 0 {
        let count = format_compact_count(u.cache_read_tokens);
        cached = "(C".to_owned();
        cached.append(count.as_str());
        cached.append(")");
    }
    assert(cached@ =~= if u.cache_read_tokens > 0 {
        "(C"@ + compact_count(u.cache_read_tokens as nat) + ")"@
    } else {
        Seq::empty()
    });
    r.append(cached.as_str());
    r.append(" · out ");
    r.append(output.as_str());
    r
}

fn context_text(lang: Lang, tokens: u64, window: Option<usize>) -> (r: String)
    ensures
        r@ == context_line(lang, tokens as nat, window),
{
    let used = format_compact_count(tokens);
    let size = match window {
        Some(n) => format_compact_count(n as u64),
        None => "?".to_owned(),
    };
    let mut r = label_column(t(lang, "context", "会话上下文"));
    r.append(used.as_str());
    r.append(" / ");
    r.append(size.as_str());
    r
}

pub fn usage_overview_text(
    lang: Lang,
    snapshot: &UsageSnapshot,
    context: Option<(u64, Option<usize>)>,
) -> (r: String)
    ensures
        r@ == joined(overview_lines(lang, *snapshot, context), "\n"@),
{
    let mut title = "\x1b[1m".to_owned();
    title.append(t(lang, "Token usage", "Token 用量"));
    title.append("\x1b[0m \x1b[2m");
    title.append(
        t(
            lang,
            "(global totals: all sessions + background calls)",
            "（全局累计：含所有会话与后台调用）",
        ),
    );
    title.append("\x1b[0m");
    let count = format_compact_count(snapshot.requests);
    let mut requests = label_column(t(lang, "requests", "请求次数"));
    requests.append(count.as_str());
    let mut lines: Vec<String> = Vec::new();
    lines.push(title);
    lines.push(requests);
    lines.push(input_text(lang, snapshot));
    lines.push(output_text(lang, snapshot));
    lines.push(total_text(lang, snapshot));
    let ghost five = texts(lines@);
    assert(five =~= seq![
        usage_title(lang),
        labelled(pick(lang, "requests"@, "请求次数"@)) + compact_count(snapshot.requests as nat),
        input_line(lang, *snapshot),
        output_line(lang, *snapshot),
        total_line(lang, *snapshot),
    ]);
    match (&snapshot.last_conversation_usage, &snapshot.last_usage) {
        (Some(u), _) => lines.push(last_turn_text(lang, u)),
        (None, Some(u)) => lines.push(last_turn_text(lang, u)),
        (None, None) => {},
    }
    assert(texts(lines@) =~= five + match last_shown(*snapshot) {
        Some(u) => seq![last_turn_line(lang, u)],
        None => Seq::empty(),
    });
    let ghost six = texts(lines@);
    if let Some((tokens, window)) = context {
        lines.push(context_text(lang, tokens, window));
    }
    assert(texts(lines@) =~= six + match context {
        Some((tokens, window)) => seq![context_line(lang, tokens as nat, window)],
        None => Seq::empty(),
    });
    join(&lines, "\n")
}

/// What a turn of maintenance behind a reply changes in the figures: the total
/// grows by what compacting used, and the gauge is printed again only where the
/// context moved without it.
pub fn prints_meter_again(compacted: bool, before: u64, after: u64) -> (r: bool)
    ensures
        r == (!compacted && before != after),
{
    !compacted && before != after
}

/// A measure against a full context is reached from its threshold on; before it,
/// what is left to it is said.
pub proof fn law_thresholds_are_reached(lang: Lang, label: Seq<char>, tokens: int, threshold: int)
    ensures
        tokens >= threshold ==> tier(lang, label, tokens, threshold) == label + " "@ + pick(
            lang,
            "reached"@,
            "已达"@,
        ) + "✓"@,
        tokens < threshold ==> tier(lang, label, tokens, threshold) == label + " -"@ + decimal(
            (threshold - tokens) as nat,
        ),
{
}

/// The watermarks name each measure with its own threshold, in the order in which
/// they are taken.
pub proof fn law_watermarks_name_all_measures(
    lang: Lang,
    tokens: usize,
    window: usize,
    at: WatermarkThresholds,
    r: String,
)
    requires
        call_ensures(compact_watermark_text, (lang, tokens, window, at), r),
    ensures
        exists|head: Seq<char>|
            r@ == #[trigger] (head + tier(
                lang,
                pick(lang, "notice"@, "提示"@),
                tokens as int,
                at.notice as int,
            )) + " · "@ + tier(lang, pick(lang, "prune"@, "折叠"@), tokens as int, at.prune as int)
                + " · "@ + tier(
                lang,
                pick(lang, "compact"@, "压缩"@),
                tokens as int,
                at.compact as int,
            ) + " · "@ + tier(lang, pick(lang, "force"@, "强制"@), tokens as int, at.force as int)
                && head == pick(lang, "Context watermarks"@, "上下文水位"@) + ": "@ + decimal(
                tokens as nat,
            ) + " / "@ + decimal(window as nat) + " · "@,
{
    let head = pick(lang, "Context watermarks"@, "上下文水位"@) + ": "@ + decimal(tokens as nat)
        + " / "@ + decimal(window as nat) + " · "@;
    assert(r@ == head + tier(
        lang,
        pick(lang, "notice"@, "提示"@),
        tokens as int,
        at.notice as int,
    ) + " · "@ + tier(lang, pick(lang, "prune"@, "折叠"@), tokens as int, at.prune as int) + " · "@
        + tier(lang, pick(lang, "compact"@, "压缩"@), tokens as int, at.compact as int) + " · "@
        + tier(lang, pick(lang, "force"@, "强制"@), tokens as int, at.force as int));
}

/// The overview names every figure in a line of its own: requests, input, output
/// and total always, the last turn and the context where they are known.
pub proof fn law_overview_has_its_lines(
    lang: Lang,
    s: UsageSnapshot,
    context: Option<(u64, Option<usize>)>,
)
    ensures
        ({
            let all = overview_lines(lang, s, context);
            let known = s.last_conversation_usage is Some || s.last_usage is Some;
            let extra = (if known {
                1int
            } else {
                0int
            }) + if context is Some {
                1int
            } else {
                0int
            };
            &&& all.len() == 5 + extra
            &&& all[1] == labelled(pick(lang, "requests"@, "请求次数"@)) + compact_count(
                s.requests as nat,
            )
            &&& s.cache_read_tokens == 0 ==> all[2] == labelled(
                pick(lang, "input"@, "输入"@),
            ) + compact_count(s.prompt_tokens as nat)
            &&& s.reasoning_tokens == 0 ==> all[3] == labelled(
                pick(lang, "output"@, "输出"@),
            ) + compact_count(s.completion_tokens as nat)
            &&& s.last_conversation_usage matches Some(u) ==> all[5] == last_turn_line(lang, u)
            &&& s.last_conversation_usage is None && s.last_usage is Some ==> all[5]
                == last_turn_line(lang, s.last_usage->0)
            &&& context matches Some((tokens, window)) ==> all.last() == labelled(
                pick(lang, "context"@, "会话上下文"@),
            ) + compact_count(tokens as nat) + " / "@ + match window {
                Some(n) => compact_count(n as nat),
                None => "?"@,
            }
        }),
{
    let input = labelled(pick(lang, "input"@, "输入"@)) + compact_count(s.prompt_tokens as nat);
    assert(input + Seq::<char>::empty() =~= input);
    let output = labelled(pick(lang, "output"@, "输出"@)) + compact_count(
        s.completion_tokens as nat,
    );
    assert(output + Seq::<char>::empty() =~= output);
}

/// Input that came out of the cache is told apart from what was billed anew.
pub proof fn law_cached_input_is_told_apart(lang: Lang, s: UsageSnapshot)
    requires
        0 < s.cache_read_tokens <= s.prompt_tokens,
        s.cache_write_tokens == 0,
    ensures
        input_line(lang, s) == labelled(pick(lang, "input"@, "输入"@)) + compact_count(
            s.prompt_tokens as nat,
        ) + ("\x1b[2m（"@ + pick(lang, "cache hits"@, "缓存命中"@) + " "@ + compact_count(
            s.cache_read_tokens as nat,
        ) + " · "@ + pick(lang, "billed new"@, "计费新输入"@) + " "@ + compact_count(
            (s.prompt_tokens - s.cache_read_tokens) as nat,
        ) + "）\x1b[0m"@),
{
    let a = "\x1b[2m（"@ + pick(lang, "cache hits"@, "缓存命中"@) + " "@ + compact_count(
        s.cache_read_tokens as nat,
    ) + " · "@ + pick(lang, "billed new"@, "计费新输入"@) + " "@ + compact_count(
        (s.prompt_tokens - s.cache_read_tokens) as nat,
    );
    assert(a + Seq::<char>::empty() =~= a);
}

/// The gauge is printed again only where the context moved without compacting.
pub proof fn law_gauge_is_printed_again_where_it_moved(compacted: bool, before: u64, after: u64, r: bool)
    requires
        call_ensures(prints_meter_again, (compacted, before, after), r),
    ensures
        compacted ==> !r,
        before == after ==> !r,
        !compacted && before != after ==> r,
{
}

} // verus!
