//! Token accounting: what a turn and a session have used, and how the figures
//! are written.
use crate::text::{decimal, decimal_text, wide_decimal_text};
use vstd::prelude::*;
use vstd::string::*;

verus! {

/// The tokens of a turn or of a whole session.
#[derive(Clone, Copy, Debug, PartialEq, Eq, Structural)]
pub struct TurnTokens {
    pub total: u64,
    pub prompt: u64,
    pub cache_read: u64,
}

impl TurnTokens {
    pub fn none() -> (r: Self)
        ensures
            r == (TurnTokens { total: 0, prompt: 0, cache_read: 0 }),
    {
        TurnTokens { total: 0, prompt: 0, cache_read: 0 }
    }

    pub fn from_usage(usage: Option<&Usage>) -> (r: Self)
        ensures
            r == match usage {
                Some(u) => TurnTokens {
                    total: u.total_tokens,
                    prompt: u.prompt_tokens,
                    cache_read: u.cache_read_tokens,
                },
                None => TurnTokens { total: 0, prompt: 0, cache_read: 0 },
            },
    {
        match usage {
            Some(u) => TurnTokens {
                total: u.total_tokens,
                prompt: u.prompt_tokens,
                cache_read: u.cache_read_tokens,
            },
            None => TurnTokens::none(),
        }
    }
}

/// `a + b`, or the most that a counter holds.
pub open spec fn clipped_sum(a: u64, b: u64) -> u64 {
    if a + b > u64::MAX {
        u64::MAX
    } else {
        (a + b) as u64
    }
}

/// What two turns came to together.
pub open spec fn tokens_sum(a: TurnTokens, b: TurnTokens) -> TurnTokens {
    TurnTokens {
        total: clipped_sum(a.total, b.total),
        prompt: clipped_sum(a.prompt, b.prompt),
        cache_read: clipped_sum(a.cache_read, b.cache_read),
    }
}

/// The tokens that a report of a model counts, if there is one.
pub open spec fn tokens_of(usage: Option<Usage>) -> TurnTokens {
    match usage {
        Some(u) => TurnTokens {
            total: u.total_tokens,
            prompt: u.prompt_tokens,
            cache_read: u.cache_read_tokens,
        },
        None => TurnTokens { total: 0, prompt: 0, cache_read: 0 },
    }
}

impl TurnTokens {
    /// Adds another turn.
    pub fn add(&mut self, other: TurnTokens)
        ensures
            *final(self) == tokens_sum(*old(self), other),
    {
        self.total = self.total.saturating_add(other.total);
        self.prompt = self.prompt.saturating_add(other.prompt);
        self.cache_read = self.cache_read.saturating_add(other.cache_read);
    }

    /// Adds what a result used, where that is known.
    pub fn add_result(&mut self, result: &ChatResult)
        ensures
            *final(self) == if result.usage is Some {
                tokens_sum(*old(self), tokens_of(result.usage))
            } else {
                *old(self)
            },
    {
        if let Some(usage) = &result.usage {
            self.add(TurnTokens::from_usage(Some(usage)));
        }
    }
}

/// What a model reports of one request.
#[derive(Clone, Copy, Debug, PartialEq, Eq, Structural)]
pub struct Usage {
    pub prompt_tokens: u64,
    pub completion_tokens: u64,
    pub total_tokens: u64,
    pub cache_read_tokens: u64,
}

/// What the gauges show.
#[derive(Clone, Copy, Debug, PartialEq, Eq, Structural)]
pub struct TokenMeter {
    pub turn_tokens: u64,
    pub turn_prompt_tokens: u64,
    pub turn_cached_tokens: u64,
    pub session_tokens: u64,
    pub context_window: Option<usize>,
    pub cumulative_tokens: Option<u64>,
    pub cumulative_prompt_tokens: u64,
    pub cumulative_cached_tokens: u64,
}

/// What the daemon reports of a session.
#[derive(Debug)]
pub struct SessionState {
    pub session_id: String,
    pub session_name: String,
    pub context_tokens: u64,
    pub context_window: Option<usize>,
    pub cumulative_tokens: u64,
    pub cumulative_prompt_tokens: u64,
    pub cumulative_cache_read_tokens: u64,
    pub workspace: Option<String>,
}

/// The daemon reports the total of a session as three numbers; this groups
/// them for the gauges.
pub fn state_cumulative(state: &SessionState) -> (r: TurnTokens)
    ensures
        r == (TurnTokens {
            total: state.cumulative_tokens,
            prompt: state.cumulative_prompt_tokens,
            cache_read: state.cumulative_cache_read_tokens,
        }),
{
    TurnTokens {
        total: state.cumulative_tokens,
        prompt: state.cumulative_prompt_tokens,
        cache_read: state.cumulative_cache_read_tokens,
    }
}

/// A gauge with nothing but the total of a session, which is hidden while
/// nothing has been spent.
pub open spec fn cumulative_meter(cumulative: TurnTokens) -> TokenMeter {
    TokenMeter {
        turn_tokens: 0,
        turn_prompt_tokens: 0,
        turn_cached_tokens: 0,
        session_tokens: 0,
        context_window: None,
        cumulative_tokens: if cumulative.total > 0 {
            Some(cumulative.total)
        } else {
            None
        },
        cumulative_prompt_tokens: cumulative.prompt,
        cumulative_cached_tokens: cumulative.cache_read,
    }
}

pub fn meter_cumulative(cumulative: TurnTokens) -> (r: TokenMeter)
    ensures
        r == cumulative_meter(cumulative),
{
    TokenMeter {
        turn_tokens: 0,
        turn_prompt_tokens: 0,
        turn_cached_tokens: 0,
        session_tokens: 0,
        context_window: None,
        cumulative_tokens: if cumulative.total > 0 {
            Some(cumulative.total)
        } else {
            None
        },
        cumulative_prompt_tokens: cumulative.prompt,
        cumulative_cached_tokens: cumulative.cache_read,
    }
}

/// The gauge behind a turn.
pub open spec fn meter_of_turn(
    turn: TurnTokens,
    session_tokens: u64,
    context_window: Option<usize>,
    cumulative: TurnTokens,
) -> TokenMeter {
    TokenMeter {
        turn_tokens: turn.total,
        turn_prompt_tokens: turn.prompt,
        turn_cached_tokens: turn.cache_read,
        session_tokens,
        context_window,
        ..cumulative_meter(cumulative)
    }
}

pub fn turn_meter(
    turn: TurnTokens,
    session_tokens: u64,
    context_window: Option<usize>,
    cumulative: TurnTokens,
) -> (r: TokenMeter)
    ensures
        r == meter_of_turn(turn, session_tokens, context_window, cumulative),
{
    let base = meter_cumulative(cumulative);
    TokenMeter {
        turn_tokens: turn.total,
        turn_prompt_tokens: turn.prompt,
        turn_cached_tokens: turn.cache_read,
        session_tokens,
        context_window,
        cumulative_tokens: base.cumulative_tokens,
        cumulative_prompt_tokens: base.cumulative_prompt_tokens,
        cumulative_cached_tokens: base.cumulative_cached_tokens,
    }
}

/// What a finished turn came to.
#[derive(Debug)]
pub struct ChatResult {
    pub content: String,
    pub usage: Option<Usage>,
    pub usage_estimated: bool,
    pub provider_id: Option<String>,
    pub model: Option<String>,
}

/// The gauge that is printed behind a reply, if one is: only where the line is
/// switched on and the model reported its usage.
pub fn print_chat_token_usage(
    result: &ChatResult,
    enabled: bool,
    session_token_total: u64,
    context_window: Option<usize>,
    cumulative: TurnTokens,
) -> (r: Option<TokenMeter>)
    ensures
        r == match (enabled, result.usage) {
            (true, Some(u)) => Some(
                meter_of_turn(
                    TurnTokens {
                        total: u.total_tokens,
                        prompt: u.prompt_tokens,
                        cache_read: u.cache_read_tokens,
                    },
                    session_token_total,
                    context_window,
                    cumulative,
                ),
            ),
            _ => None,
        },
{
    match &result.usage {
        Some(u) => if enabled {
            let turn = TurnTokens::from_usage(Some(u));
            Some(turn_meter(turn, session_token_total, context_window, cumulative))
        } else {
            None
        },
        None => None,
    }
}

/// `n` divided by `unit`, rounded to the nearest whole number, halves up.
pub open spec fn rounded(n: nat, unit: nat) -> nat {
    n / unit + if (n % unit) * 2 >= unit {
        1nat
    } else {
        0nat
    }
}

/// A number of tenths with one decimal place, which is left out where it is
/// zero.
pub open spec fn tenths_text(tenths: nat) -> Seq<char> {
    if tenths % 10 == 0 {
        decimal(tenths / 10)
    } else {
        decimal(tenths / 10) + "."@ + decimal(tenths % 10)
    }
}

fn tenths(n: u128) -> (r: String)
    ensures
        r@ == tenths_text(n as nat),
{
    let mut r = wide_decimal_text(n / 10);
    if n % 10 != 0 {
        let digit = wide_decimal_text(n % 10);
        r.append(".");
        r.append(digit.as_str());
    }
    r
}

fn round_div(n: u64, unit: u64) -> (r: u64)
    requires
        unit >= 2,
    ensures
        r == rounded(n as nat, unit as nat),
{
    let q: u64 = n / unit;
    let m: u64 = n % unit;
    assert(n / unit <= n / 2) by (nonlinear_arith)
        requires
            unit >= 2,
            n >= 0,
    ;
    if m >= unit - m {
        q + 1
    } else {
        q
    }
}

/// A count in thousands or millions, to one decimal place.
pub open spec fn compact_count(n: nat) -> Seq<char> {
    if n < 1000 {
        decimal(n)
    } else if n < 1_000_000 {
        tenths_text(rounded(n, 100)) + "k"@
    } else {
        tenths_text(rounded(n, 100_000)) + "M"@
    }
}

pub fn format_compact_count(n: u64) -> (r: String)
    ensures
        r@ == compact_count(n as nat),
{
    if n < 1000 {
        decimal_text(n)
    } else if n < 1_000_000 {
        let mut r = tenths(round_div(n, 100) as u128);
        r.append("k");
        r
    } else {
        let mut r = tenths(round_div(n, 100_000) as u128);
        r.append("M");
        r
    }
}

/// The share of `part` in `whole` in units of which the whole is `scale`,
/// rounded.
pub open spec fn share(part: nat, whole: nat, scale: nat) -> nat {
    rounded(part * scale, whole)
}

fn share_of(part: u64, whole: u64, scale: u64) -> (r: u128)
    requires
        whole >= 1,
        1 <= scale <= 1000,
    ensures
        r == share(part as nat, whole as nat, scale as nat),
{
    let p: u128 = part as u128;
    let s: u128 = scale as u128;
    let w: u128 = whole as u128;
    assert(p * s <= u64::MAX * 1000) by (nonlinear_arith)
        requires
            p <= u64::MAX,
            s <= 1000,
            p >= 0,
            s >= 0,
    ;
    let product: u128 = p * s;
    let q: u128 = product / w;
    let m: u128 = product % w;
    assert(q <= product) by (nonlinear_arith)
        requires
            q == product / w,
            w >= 1,
            product >= 0,
    ;
    if m * 2 >= w {
        q + 1
    } else {
        q
    }
}

/// How full the context is: the tokens in it, the size of the window, and the
/// share of the one in the other.
pub open spec fn context_gauge(meter: TokenMeter, with_percent: bool) -> Seq<char> {
    let used = compact_count(meter.session_tokens as nat);
    match meter.context_window {
        Some(window) => used + "/"@ + compact_count(window as nat) + if with_percent && window > 0 {
            "("@ + tenths_text(share(meter.session_tokens as nat, window as nat, 1000)) + "%)"@
        } else {
            Seq::empty()
        },
        None => used,
    }
}

/// What the session has cost, with the share of the prompt tokens that came out
/// of the cache.
pub open spec fn cumulative_gauge(meter: TokenMeter) -> Seq<char> {
    match meter.cumulative_tokens {
        Some(total) => " Σ"@ + compact_count(total as nat) + if meter.cumulative_prompt_tokens > 0
            && meter.cumulative_cached_tokens > 0 {
            "(C"@ + decimal(
                share(
                    meter.cumulative_cached_tokens as nat,
                    meter.cumulative_prompt_tokens as nat,
                    100,
                ),
            ) + "%)"@
        } else {
            Seq::empty()
        },
        None => Seq::empty(),
    }
}

/// The two standing gauges: the context, and the cost of the session.
pub open spec fn standing_gauges(meter: TokenMeter, with_percent: bool) -> Seq<char> {
    context_gauge(meter, with_percent) + cumulative_gauge(meter)
}

pub fn format_token_usage_inline_opts(meter: &TokenMeter, with_percent: bool) -> (r: String)
    ensures
        r@ == standing_gauges(*meter, with_percent),
{
    let mut r = format_compact_count(meter.session_tokens);
    if let Some(window) = meter.context_window {
        let size = format_compact_count(window as u64);
        r.append("/");
        r.append(size.as_str());
        let ghost head = r@;
        if with_percent && window > 0 {
            let percent = tenths(share_of(meter.session_tokens, window as u64, 1000));
            r.append("(");
            r.append(percent.as_str());
            r.append("%)");
        }
        assert(r@ =~= context_gauge(*meter, with_percent));
    }
    let ghost gauge = r@;
    if let Some(total) = meter.cumulative_tokens {
        let count = format_compact_count(total);
        r.append(" Σ");
        r.append(count.as_str());
        if meter.cumulative_prompt_tokens > 0 && meter.cumulative_cached_tokens > 0 {
            let percent = wide_decimal_text(
                share_of(meter.cumulative_cached_tokens, meter.cumulative_prompt_tokens, 100),
            );
            r.append("(C");
            r.append(percent.as_str());
            r.append("%)");
        }
    }
    assert(r@ =~= gauge + cumulative_gauge(*meter));
    r
}

/// Turns add up figure by figure, and a counter that is full stays full.
pub proof fn law_turns_add_up(a: &mut TurnTokens, b: TurnTokens)
    requires
        call_ensures(TurnTokens::add, (a, b), ()),
    ensures
        old(a).total + b.total <= u64::MAX ==> final(a).total == old(a).total + b.total,
        old(a).prompt + b.prompt <= u64::MAX ==> final(a).prompt == old(a).prompt + b.prompt,
        old(a).cache_read + b.cache_read <= u64::MAX ==> final(a).cache_read == old(a).cache_read
            + b.cache_read,
        old(a).total + b.total > u64::MAX ==> final(a).total == u64::MAX,
        final(a).total >= old(a).total,
{
}

/// What a result used is added where it is known, and nothing otherwise.
pub proof fn law_results_are_added(a: &mut TurnTokens, result: &ChatResult)
    requires
        call_ensures(TurnTokens::add_result, (a, result), ()),
    ensures
        result.usage is None ==> *final(a) == *old(a),
        result.usage matches Some(u) ==> old(a).total + u.total_tokens <= u64::MAX ==> final(a).total
            == old(a).total + u.total_tokens,
        result.usage matches Some(u) ==> old(a).prompt + u.prompt_tokens <= u64::MAX ==> final(a).prompt == old(a).prompt + u.prompt_tokens,
        result.usage matches Some(u) ==> old(a).cache_read + u.cache_read_tokens <= u64::MAX
            ==> final(a).cache_read == old(a).cache_read + u.cache_read_tokens,
{
}

/// The figures of a report, each in its place; without a report all are zero.
pub proof fn law_reports_are_read_by_figure(usage: Option<&Usage>, r: TurnTokens)
    requires
        call_ensures(TurnTokens::from_usage, (usage,), r),
    ensures
        usage is None ==> r.total == 0 && r.prompt == 0 && r.cache_read == 0,
        usage matches Some(u) ==> r.total == u.total_tokens && r.prompt == u.prompt_tokens
            && r.cache_read == u.cache_read_tokens,
{
}

/// The total of a session out of the three numbers that the daemon reports.
pub proof fn law_totals_come_from_the_state(state: &SessionState, r: TurnTokens)
    requires
        call_ensures(state_cumulative, (state,), r),
    ensures
        r.total == state.cumulative_tokens,
        r.prompt == state.cumulative_prompt_tokens,
        r.cache_read == state.cumulative_cache_read_tokens,
{
}

/// The gauge behind a turn shows the turn, the context and the total, the last
/// only once something was spent.
pub proof fn law_gauges_show_their_figures(
    turn: TurnTokens,
    session_tokens: u64,
    window: Option<usize>,
    total: TurnTokens,
    r: TokenMeter,
)
    requires
        call_ensures(turn_meter, (turn, session_tokens, window, total), r),
    ensures
        r.turn_tokens == turn.total,
        r.turn_prompt_tokens == turn.prompt,
        r.turn_cached_tokens == turn.cache_read,
        r.session_tokens == session_tokens,
        r.context_window == window,
        total.total == 0 ==> r.cumulative_tokens is None,
        total.total > 0 ==> r.cumulative_tokens == Some(total.total),
        r.cumulative_prompt_tokens == total.prompt,
        r.cumulative_cached_tokens == total.cache_read,
{
}

/// The line of tokens is printed only where it is wanted and the usage is known.
pub proof fn law_gauge_is_printed_where_known(
    result: &ChatResult,
    enabled: bool,
    session_tokens: u64,
    window: Option<usize>,
    total: TurnTokens,
    r: Option<TokenMeter>,
)
    requires
        call_ensures(print_chat_token_usage, (result, enabled, session_tokens, window, total), r),
    ensures
        r is Some <==> enabled && result.usage is Some,
        r matches Some(meter) ==> meter.turn_tokens == result.usage->0.total_tokens
            && meter.session_tokens == session_tokens && meter.context_window == window,
{
}

/// Rounding goes to the nearest whole number: never off by more than a half.
pub proof fn law_rounding_is_to_the_nearest(n: nat, unit: nat)
    requires
        unit >= 1,
    ensures
        2 * n <= 2 * (rounded(n, unit) * unit) + unit,
        2 * (rounded(n, unit) * unit) <= 2 * n + unit,
        n % unit == 0 ==> rounded(n, unit) == n / unit,
{
    let q = n / unit;
    let m = n % unit;
    assert(n == q * unit + m) by {
        vstd::arithmetic::div_mod::lemma_fundamental_div_mod(n as int, unit as int);
        assert(unit * q == q * unit) by (nonlinear_arith);
    }
    assert(m < unit);
    assert((q + 1) * unit == q * unit + unit) by (nonlinear_arith);
}

/// Counts below a thousand are written out, those below a million in thousands,
/// and the rest in millions, to a tenth that is left out where it is zero.
pub proof fn law_counts_are_written_short(n: nat)
    ensures
        n < 1000 ==> compact_count(n) == decimal(n),
        1 <= n < 1000 ==> compact_count(n * 1000) == decimal(n) + "k"@,
        1 <= n ==> compact_count(n * 1_000_000) == decimal(n) + "M"@,
        1 <= n < 1000 ==> compact_count(n * 1000 + 500) == decimal(n) + "."@ + decimal(5) + "k"@,
{
    assert((n * 1000) / 100 == n * 10 && (n * 1000) % 100 == 0);
    assert((n * 10) % 10 == 0 && (n * 10) / 10 == n);
    assert((n * 1_000_000) / 100_000 == n * 10 && (n * 1_000_000) % 100_000 == 0);
    assert((n * 1000 + 500) / 100 == n * 10 + 5 && (n * 1000 + 500) % 100 == 0);
    assert((n * 10 + 5) % 10 == 5 && (n * 10 + 5) / 10 == n);
}

/// How full the context is: what is in it, the window, and the share where it is
/// wanted; the cost of the session behind it where there is any.
pub proof fn law_standing_gauges(meter: &TokenMeter, percent: bool, r: String)
    requires
        call_ensures(format_token_usage_inline_opts, (meter, percent), r),
    ensures
        meter.context_window is None && meter.cumulative_tokens is None ==> r@ == compact_count(
            meter.session_tokens as nat,
        ),
        meter.context_window matches Some(window) ==> meter.cumulative_tokens is None && !percent
            ==> r@ == compact_count(meter.session_tokens as nat) + "/"@ + compact_count(
            window as nat,
        ),
        meter.context_window matches Some(window) ==> meter.cumulative_tokens is None && percent
            && window > 0 ==> r@ == compact_count(meter.session_tokens as nat) + "/"@
            + compact_count(window as nat) + "("@ + tenths_text(
            rounded((meter.session_tokens * 1000) as nat, window as nat),
        ) + "%)"@,
        meter.context_window is None ==> (meter.cumulative_tokens matches Some(total)
            ==> meter.cumulative_cached_tokens == 0 ==> r@ == compact_count(
            meter.session_tokens as nat,
        ) + " Σ"@ + compact_count(total as nat)),
{
    let used = compact_count(meter.session_tokens as nat);
    assert(used + Seq::<char>::empty() =~= used);
    if let Some(window) = meter.context_window {
        let both = used + "/"@ + compact_count(window as nat);
        assert(both + Seq::<char>::empty() + Seq::<char>::empty() =~= both);
        let t = tenths_text(rounded((meter.session_tokens * 1000) as nat, window as nat));
        assert(both + ("("@ + t + "%)"@) + Seq::<char>::empty() =~= both + "("@ + t + "%)"@);
    }
    if let Some(total) = meter.cumulative_tokens {
        let cost = " Σ"@ + compact_count(total as nat);
        assert(used + (cost + Seq::<char>::empty()) =~= used + " Σ"@ + compact_count(total as nat));
    }
}

} // verus!
