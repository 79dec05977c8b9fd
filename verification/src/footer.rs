//! The footer of the prompt: mode, model, provider and the two gauges.
use crate::echo::{dim, dim_text, enclosed, input_prompt_bar, primary, primary_footer_text, prompt_bar};
use crate::lang::{pick, t, Lang};
use crate::layout::{at_least_one, not_negative};
use crate::mode::{mode_label, AgentMode};
use crate::text::{
    begins_with, run_of, same, spaces, split_at_char, split_char, strip_prefix, texts,
};
use crate::tokens::{
    cumulative_meter, format_token_usage_inline_opts, meter_cumulative, meter_of_turn,
    standing_gauges, turn_meter, ChatResult, TokenMeter, TurnTokens,
};
use crate::width::{display_cut, truncate_display, visible_width, width_of};
use vstd::prelude::*;
use vstd::string::*;

verus! {

/// A model of a provider.
#[derive(Debug)]
pub struct ModelChoice {
    pub provider_id: String,
    pub model: String,
}

/// The context window of a model, where it is known.
#[derive(Debug)]
pub struct ModelWindow {
    pub provider_id: String,
    pub model: String,
    pub window: Option<usize>,
}

/// What the configuration says about the models in use.
#[derive(Debug)]
pub struct ModelConfig {
    /// The models that replies may come from.
    pub active: Vec<ModelChoice>,
    /// The context window while a single model is in use.
    pub context_window: Option<usize>,
    pub windows: Vec<ModelWindow>,
    /// When to name the model of a reply: `off`, `all`, or in the REPL only.
    pub mixed_model_endpoint_display: String,
}

#[derive(Clone, Debug)]
pub struct ReplFooterStatus {
    pub provider: String,
    pub model: String,
    pub mixed_models: bool,
    pub thinking: Option<String>,
    pub token_usage: TokenMeter,
}

/// The name of a model without its provider and without any path before it.
pub open spec fn short_name(model: Seq<char>, provider: Seq<char>) -> Seq<char> {
    let own = provider + "/"@;
    let rest = if begins_with(model, own) {
        model.skip(own.len() as int)
    } else {
        model
    };
    split_at_char(rest, '/').last()
}

pub fn short_model_name(model: &str, provider: &str) -> (r: String)
    ensures
        r@ == short_name(model@, provider@),
{
    let mut own = provider.to_owned();
    own.append("/");
    let rest = match strip_prefix(model, own.as_str()) {
        Some(rest) => rest,
        None => model,
    };
    let parts = split_char(rest, '/');
    let n: usize = parts.len();
    assert(texts(parts@).last() == parts@[n - 1]@);
    parts[n - 1].clone()
}

/// The provider and the model that the footer names.
pub open spec fn endpoint_of(lang: Lang, config: ModelConfig) -> (Seq<char>, Seq<char>) {
    let active = config.active@;
    if active.len() == 0 {
        ("-"@, pick(lang, "None"@, "无"@))
    } else if active.len() == 1 {
        (active[0].provider_id@, short_name(active[0].model@, active[0].provider_id@))
    } else {
        ("mixed"@, pick(lang, "Mixed"@, "混合"@))
    }
}

impl ReplFooterStatus {
    pub fn from_config(
        lang: Lang,
        config: &ModelConfig,
        session_tokens: u64,
        cumulative: TurnTokens,
    ) -> (r: Self)
        ensures
            (r.provider@, r.model@) == endpoint_of(lang, *config),
            r.mixed_models == (config.active@.len() > 1),
            r.thinking is None,
            r.token_usage == (TokenMeter {
                session_tokens,
                context_window: config.context_window,
                ..cumulative_meter(cumulative)
            }),
    {
        let n: usize = config.active.len();
        let (provider, model) = if n == 0 {
            ("-".to_owned(), t(lang, "None", "无").to_owned())
        } else if n == 1 {
            let choice = &config.active[0];
            (
                choice.provider_id.clone(),
                short_model_name(choice.model.as_str(), choice.provider_id.as_str()),
            )
        } else {
            ("mixed".to_owned(), t(lang, "Mixed", "混合").to_owned())
        };
        let mut token_usage = meter_cumulative(cumulative);
        token_usage.session_tokens = session_tokens;
        token_usage.context_window = config.context_window;
        ReplFooterStatus { provider, model, mixed_models: n > 1, thinking: None, token_usage }
    }

    /// A finished turn; one whose usage is not known changes nothing.
    pub fn update_token_usage(
        &mut self,
        result: &ChatResult,
        session_tokens: u64,
        context_window: Option<usize>,
        cumulative: TurnTokens,
    )
        ensures
            *final(self) == (ReplFooterStatus {
                token_usage: match result.usage {
                    Some(u) => meter_of_turn(
                        TurnTokens {
                            total: u.total_tokens,
                            prompt: u.prompt_tokens,
                            cache_read: u.cache_read_tokens,
                        },
                        session_tokens,
                        context_window,
                        cumulative,
                    ),
                    None => old(self).token_usage,
                },
                ..*old(self)
            }),
    {
        if let Some(usage) = &result.usage {
            let turn = TurnTokens::from_usage(Some(usage));
            self.set_token_usage_with_cache(turn, session_tokens, context_window, cumulative);
        }
    }

    pub fn set_token_usage(
        &mut self,
        turn_tokens: u64,
        session_tokens: u64,
        context_window: Option<usize>,
        cumulative: TurnTokens,
    )
        ensures
            *final(self) == (ReplFooterStatus {
                token_usage: meter_of_turn(
                    TurnTokens { total: turn_tokens, prompt: 0, cache_read: 0 },
                    session_tokens,
                    context_window,
                    cumulative,
                ),
                ..*old(self)
            }),
    {
        let turn = TurnTokens { total: turn_tokens, prompt: 0, cache_read: 0 };
        self.set_token_usage_with_cache(turn, session_tokens, context_window, cumulative);
    }

    pub fn set_token_usage_with_cache(
        &mut self,
        turn: TurnTokens,
        session_tokens: u64,
        context_window: Option<usize>,
        cumulative: TurnTokens,
    )
        ensures
            *final(self) == (ReplFooterStatus {
                token_usage: meter_of_turn(turn, session_tokens, context_window, cumulative),
                ..*old(self)
            }),
    {
        self.token_usage = turn_meter(turn, session_tokens, context_window, cumulative);
    }

    pub fn update_session_tokens(&mut self, session_tokens: u64)
        ensures
            *final(self) == (ReplFooterStatus {
                token_usage: TokenMeter { session_tokens, ..old(self).token_usage },
                ..*old(self)
            }),
    {
        self.token_usage.session_tokens = session_tokens;
    }

    pub fn update_context_window(&mut self, context_window: Option<usize>)
        ensures
            *final(self) == (ReplFooterStatus {
                token_usage: TokenMeter { context_window, ..old(self).token_usage },
                ..*old(self)
            }),
    {
        self.token_usage.context_window = context_window;
    }

    /// The total of the session; says whether any figure moved, so that an idle
    /// tick redraws only where there is something to show.
    pub fn update_cumulative_tokens(&mut self, cumulative: TurnTokens) -> (changed: bool)
        ensures
            *final(self) == (ReplFooterStatus {
                token_usage: with_cumulative(old(self).token_usage, cumulative),
                ..*old(self)
            }),
            changed == (final(self).token_usage != old(self).token_usage),
    {
        let meter = meter_cumulative(cumulative);
        let before = self.token_usage;
        self.token_usage.cumulative_tokens = meter.cumulative_tokens;
        self.token_usage.cumulative_prompt_tokens = meter.cumulative_prompt_tokens;
        self.token_usage.cumulative_cached_tokens = meter.cumulative_cached_tokens;
        let same_total = match (before.cumulative_tokens, meter.cumulative_tokens) {
            (Some(a), Some(b)) => a == b,
            (None, None) => true,
            _ => false,
        };
        !same_total || before.cumulative_prompt_tokens != meter.cumulative_prompt_tokens
            || before.cumulative_cached_tokens != meter.cumulative_cached_tokens
    }

    pub fn reset_token_usage(&mut self, session_tokens: u64, context_window: Option<usize>)
        ensures
            *final(self) == (ReplFooterStatus {
                token_usage: TokenMeter {
                    session_tokens,
                    context_window,
                    ..cumulative_meter(TurnTokens { total: 0, prompt: 0, cache_read: 0 })
                },
                ..*old(self)
            }),
    {
        let mut meter = meter_cumulative(TurnTokens::none());
        meter.session_tokens = session_tokens;
        meter.context_window = context_window;
        self.token_usage = meter;
    }

    /// With several models in use no one variant applies, so none is shown.
    pub fn update_thinking_variant(&mut self, variant: Option<&str>)
        ensures
            final(self).provider == old(self).provider,
            final(self).model == old(self).model,
            final(self).mixed_models == old(self).mixed_models,
            final(self).token_usage == old(self).token_usage,
            match (final(self).thinking, variant) {
                (Some(shown), Some(wanted)) => !old(self).mixed_models && shown@ == wanted@,
                (Some(_), None) => false,
                (None, wanted) => old(self).mixed_models || wanted is None,
            },
    {
        self.thinking = if self.mixed_models {
            None
        } else {
            match variant {
                Some(v) => Some(v.to_owned()),
                None => None,
            }
        };
    }
}

/// A gauge with another total.
pub open spec fn with_cumulative(meter: TokenMeter, cumulative: TurnTokens) -> TokenMeter {
    let base = cumulative_meter(cumulative);
    TokenMeter {
        cumulative_tokens: base.cumulative_tokens,
        cumulative_prompt_tokens: base.cumulative_prompt_tokens,
        cumulative_cached_tokens: base.cumulative_cached_tokens,
        ..meter
    }
}

/// Reporting the same total twice moves nothing the second time.
pub proof fn law_same_total_moves_nothing(meter: TokenMeter, cumulative: TurnTokens)
    ensures
        with_cumulative(with_cumulative(meter, cumulative), cumulative) == with_cumulative(
            meter,
            cumulative,
        ),
{
}

/// The label of the mode in its colour.
pub open spec fn colored_label(lang: Lang, mode: AgentMode) -> Seq<char> {
    let label = mode_label(lang, mode);
    match mode {
        AgentMode::Normal => primary(label),
        AgentMode::Plan => "\x1b[1m\x1b[35m"@ + label + "\x1b[0m"@,
        AgentMode::Chat => "\x1b[1m\x1b[32m"@ + label + "\x1b[0m"@,
    }
}

pub fn colored_footer_mode_label(lang: Lang, mode: AgentMode) -> (r: String)
    ensures
        r@ == colored_label(lang, mode),
{
    let label = mode.label(lang);
    match mode {
        AgentMode::Normal => primary_footer_text(label),
        AgentMode::Plan => enclosed("\x1b[1m\x1b[35m", label, "\x1b[0m"),
        AgentMode::Chat => enclosed("\x1b[1m\x1b[32m", label, "\x1b[0m"),
    }
}

/// The parts of the left half of the footer, with a dot between them: the mode,
/// the model with its provider, and the thinking variant where there is one.
pub open spec fn left_parts(
    mode: Seq<char>,
    model: Seq<char>,
    provider: Option<Seq<char>>,
    thinking: Seq<char>,
) -> Seq<char> {
    let endpoint = match provider {
        Some(p) => if p.len() == 0 {
            model
        } else if model.len() == 0 {
            p
        } else {
            model + " "@ + p
        },
        None => model,
    };
    mode + " · "@ + endpoint + if thinking.len() == 0 {
        Seq::empty()
    } else {
        " · "@ + thinking
    }
}

pub fn repl_footer_left_parts(
    mode: &str,
    model: &str,
    provider: Option<&str>,
    thinking: &str,
) -> (r: String)
    ensures
        r@ == left_parts(
            mode@,
            model@,
            match provider {
                Some(p) => Some(p@),
                None => None,
            },
            thinking@,
        ),
{
    let mut endpoint = model.to_owned();
    if let Some(p) = provider {
        if !p.is_empty() {
            if !endpoint.as_str().is_empty() {
                endpoint.append(" ");
                endpoint.append(p);
            } else {
                endpoint = p.to_owned();
            }
        }
    }
    let mut r = mode.to_owned();
    r.append(" · ");
    r.append(endpoint.as_str());
    if !thinking.is_empty() {
        r.append(" · ");
        r.append(thinking);
    }
    assert(r@ =~= left_parts(
        mode@,
        model@,
        match provider {
            Some(p) => Some(p@),
            None => None,
        },
        thinking@,
    ));
    r
}

/// The thinking variant in the colour of the interface, if one is shown.
pub open spec fn shown_thinking(footer: ReplFooterStatus) -> Seq<char> {
    match footer.thinking {
        Some(text) => if text@.len() == 0 {
            Seq::empty()
        } else {
            primary(text@)
        },
        None => Seq::empty(),
    }
}

/// The left half of the footer in at most `width` columns where it can be: with
/// the provider, else without it, else with the model cut.
pub open spec fn footer_left(
    lang: Lang,
    mode: AgentMode,
    footer: ReplFooterStatus,
    width: int,
) -> Seq<char> {
    let label = colored_label(lang, mode);
    let thinking = shown_thinking(footer);
    let full = left_parts(label, footer.model@, Some(dim(footer.provider@)), thinking);
    let compact = left_parts(label, footer.model@, None, thinking);
    if width_of(full) <= width {
        full
    } else if width_of(compact) <= width {
        compact
    } else {
        let fixed = width_of(label) + 3 + if thinking.len() == 0 {
            0
        } else {
            3 + width_of(thinking)
        };
        let budget = at_least_one(not_negative(width - fixed));
        left_parts(label, display_cut(footer.model@, budget as nat), None, thinking)
    }
}

pub fn repl_footer_left(lang: Lang, mode: AgentMode, footer: &ReplFooterStatus, width: usize) -> (r:
    String)
    ensures
        r@ == footer_left(lang, mode, *footer, width as int),
{
    let thinking: String = match &footer.thinking {
        Some(text) => if text.as_str().is_empty() {
            String::new()
        } else {
            primary_footer_text(text.as_str())
        },
        None => String::new(),
    };
    proof {
        lemma_primary_not_empty();
    }
    assert(thinking@ =~= shown_thinking(*footer));
    let provider = dim_text(footer.provider.as_str());
    let label = colored_footer_mode_label(lang, mode);
    let full = repl_footer_left_parts(
        label.as_str(),
        footer.model.as_str(),
        Some(provider.as_str()),
        thinking.as_str(),
    );
    if visible_width(full.as_str()) <= width {
        return full;
    }
    let compact = repl_footer_left_parts(
        label.as_str(),
        footer.model.as_str(),
        None,
        thinking.as_str(),
    );
    if visible_width(compact.as_str()) <= width {
        return compact;
    }
    let extra: usize = if thinking.as_str().is_empty() {
        0
    } else {
        visible_width(thinking.as_str()).saturating_add(3)
    };
    let fixed = visible_width(label.as_str()).saturating_add(3).saturating_add(extra);
    let room = width.saturating_sub(fixed);
    let budget: usize = if room == 0 {
        1
    } else {
        room
    };
    let model = truncate_display(footer.model.as_str(), budget);
    repl_footer_left_parts(label.as_str(), model.as_str(), None, thinking.as_str())
}

proof fn lemma_primary_not_empty()
    ensures
        forall|s: Seq<char>| (#[trigger] primary(s)).len() > 0,
{
    reveal_strlit("\x1b[0m");
}

/// The gauges of the footer, shortened step by step while less than 24 columns
/// are left beside them: first the cost goes, then the percentage.
pub open spec fn footer_right(meter: TokenMeter, room: int) -> Seq<char> {
    let all = standing_gauges(meter, true);
    let bare = TokenMeter { cumulative_tokens: None, ..meter };
    let context = standing_gauges(bare, true);
    if room - width_of(all) >= 24 {
        all
    } else if room - width_of(context) >= 24 {
        context
    } else {
        standing_gauges(bare, false)
    }
}

/// The footer line: the bar, the left half, and the gauges at the right edge,
/// with at least one space between them.
pub open spec fn footer_line(
    lang: Lang,
    mode: AgentMode,
    footer: ReplFooterStatus,
    cols: int,
) -> Seq<char> {
    let cols = at_least_one(cols);
    let bar = prompt_bar(mode);
    let right = dim(footer_right(footer.token_usage, not_negative(cols - width_of(bar))));
    let left = footer_left(
        lang,
        mode,
        footer,
        not_negative(cols - (width_of(bar) + width_of(right) + 1)),
    );
    let gap = at_least_one(not_negative(cols - (width_of(bar) + width_of(left) + width_of(right))));
    bar + left + run_of(' ', gap as nat) + right
}

fn repl_footer_right(meter: &TokenMeter, room: usize) -> (r: String)
    ensures
        r@ == footer_right(*meter, room as int),
{
    let all = format_token_usage_inline_opts(meter, true);
    if room.saturating_sub(visible_width(all.as_str())) >= 24 {
        return all;
    }
    let bare = TokenMeter { cumulative_tokens: None, ..*meter };
    let context = format_token_usage_inline_opts(&bare, true);
    if room.saturating_sub(visible_width(context.as_str())) >= 24 {
        return context;
    }
    format_token_usage_inline_opts(&bare, false)
}

pub fn repl_footer_line(lang: Lang, mode: AgentMode, footer: &ReplFooterStatus, cols: usize) -> (r:
    String)
    ensures
        r@ == footer_line(lang, mode, *footer, cols as int),
{
    let cols: usize = if cols == 0 {
        1
    } else {
        cols
    };
    let bar = input_prompt_bar(mode);
    let bar_width = visible_width(bar.as_str());
    let plain = repl_footer_right(&footer.token_usage, cols.saturating_sub(bar_width));
    let right = dim_text(plain.as_str());
    let right_width = visible_width(right.as_str());
    let left_budget = cols.saturating_sub(
        bar_width.saturating_add(right_width).saturating_add(1),
    );
    let left = repl_footer_left(lang, mode, footer, left_budget);
    let room = cols.saturating_sub(
        bar_width.saturating_add(visible_width(left.as_str())).saturating_add(right_width),
    );
    let gap: usize = if room == 0 {
        1
    } else {
        room
    };
    let filling = spaces(gap);
    let mut r = bar;
    r.append(left.as_str());
    r.append(filling.as_str());
    r.append(right.as_str());
    r
}

/// A provider, a model and the variant it thinks in, where one is set.
pub open spec fn endpoint_label(
    provider: Seq<char>,
    model: Seq<char>,
    variant: Option<Seq<char>>,
) -> Seq<char> {
    provider + " / "@ + model + match variant {
        Some(v) => if v.len() == 0 {
            Seq::empty()
        } else {
            " · "@ + v
        },
        None => Seq::empty(),
    }
}

pub fn mixed_model_endpoint_label(provider: &str, model: &str, variant: Option<&str>) -> (r: String)
    ensures
        r@ == endpoint_label(
            provider@,
            model@,
            match variant {
                Some(v) => Some(v@),
                None => None,
            },
        ),
{
    let mut r = provider.to_owned();
    r.append(" / ");
    r.append(model);
    let ghost head = r@;
    if let Some(v) = variant {
        if !v.is_empty() {
            r.append(" · ");
            r.append(v);
        }
    }
    assert(r@ =~= endpoint_label(
        provider@,
        model@,
        match variant {
            Some(v) => Some(v@),
            None => None,
        },
    ));
    r
}

/// The line that names the model of a reply, where it is to be named.
pub fn print_mixed_model_endpoint(show: bool, result: &ChatResult, variant: Option<&str>) -> (r:
    Option<String>)
    ensures
        r is Some <==> show,
        r matches Some(line) ==> line@ == dim(
            endpoint_label(
                match result.provider_id {
                    Some(p) => p@,
                    None => "-"@,
                },
                match result.model {
                    Some(m) => m@,
                    None => "-"@,
                },
                match variant {
                    Some(v) => Some(v@),
                    None => None,
                },
            ),
        ) + "\n"@,
{
    if !show {
        return None;
    }
    let provider = match &result.provider_id {
        Some(p) => p.as_str(),
        None => "-",
    };
    let model = match &result.model {
        Some(m) => m.as_str(),
        None => "-",
    };
    let label = mixed_model_endpoint_label(provider, model, variant);
    let mut line = dim_text(label.as_str());
    line.append("\n");
    Some(line)
}

/// Whether replies are to be signed with the model they come from.
pub fn show_mixed_model_endpoint(config: &ModelConfig, interactive: bool) -> (r: bool)
    ensures
        r == names_endpoint(*config, interactive),
{
    if config.active.len() <= 1 {
        return false;
    }
    let setting = config.mixed_model_endpoint_display.as_str();
    if same(setting, "off") {
        false
    } else if same(setting, "all") {
        true
    } else {
        interactive
    }
}

/// The window of the model that answered, where one model is in use and its
/// window is known.
pub open spec fn window_of_result(config: ModelConfig, result: ChatResult) -> Option<usize> {
    match (result.provider_id, result.model) {
        (Some(provider), Some(model)) => if config.active@.len() > 1 {
            None
        } else {
            window_in(config.windows@, provider@, model@)
        },
        _ => None,
    }
}

/// Whether the model of a reply is named: only with several models in use, and
/// as the setting has it.
pub open spec fn names_endpoint(config: ModelConfig, interactive: bool) -> bool {
    config.active@.len() > 1 && (if config.mixed_model_endpoint_display@ == "off"@ {
        false
    } else if config.mixed_model_endpoint_display@ == "all"@ {
        true
    } else {
        interactive
    })
}

/// The first entry of a list of windows for the model.
pub open spec fn window_in(windows: Seq<ModelWindow>, provider: Seq<char>, model: Seq<char>) -> Option<
    usize,
>
    decreases windows.len(),
{
    if windows.len() == 0 {
        None
    } else if windows[0].provider_id@ == provider && windows[0].model@ == model {
        windows[0].window
    } else {
        window_in(windows.drop_first(), provider, model)
    }
}

fn find_window(windows: &Vec<ModelWindow>, provider: &str, model: &str) -> (r: Option<usize>)
    ensures
        r == window_in(windows@, provider@, model@),
{
    let mut i: usize = 0;
    assert(windows@.skip(0) =~= windows@);
    while i < windows.len()
        invariant
            i <= windows@.len(),
            window_in(windows@, provider@, model@) == window_in(
                windows@.skip(i as int),
                provider@,
                model@,
            ),
        decreases windows@.len() - i,
    {
        assert(windows@.skip(i as int)[0] == windows@[i as int]);
        assert(windows@.skip(i as int).drop_first() =~= windows@.skip(i + 1));
        let entry = &windows[i];
        if same(entry.provider_id.as_str(), provider) && same(entry.model.as_str(), model) {
            return entry.window;
        }
        i = i + 1;
    }
    None
}

/// The context window that a reply came out of; not known while several models
/// take turns.
pub fn result_context_window(config: &ModelConfig, result: &ChatResult) -> (r: Option<usize>)
    ensures
        r == window_of_result(*config, *result),
{
    if config.active.len() > 1 {
        return None;
    }
    match (&result.provider_id, &result.model) {
        (Some(provider), Some(model)) => find_window(
            &config.windows,
            provider.as_str(),
            model.as_str(),
        ),
        _ => None,
    }
}

/// The footer names the one model in use by its short name with its provider;
/// several are called mixed, and none is named so.
pub proof fn law_footer_names_the_model(
    lang: Lang,
    config: &ModelConfig,
    tokens: u64,
    total: TurnTokens,
    r: ReplFooterStatus,
)
    requires
        call_ensures(ReplFooterStatus::from_config, (lang, config, tokens, total), r),
    ensures
        config.active@.len() == 1 ==> r.provider@ == config.active@[0].provider_id@ && r.model@
            == short_name(config.active@[0].model@, config.active@[0].provider_id@)
            && !r.mixed_models,
        config.active@.len() > 1 ==> r.provider@ == "mixed"@ && r.model@ == pick(
            lang,
            "Mixed"@,
            "混合"@,
        ) && r.mixed_models,
        config.active@.len() == 0 ==> r.provider@ == "-"@ && r.model@ == pick(
            lang,
            "None"@,
            "无"@,
        ) && !r.mixed_models,
        r.token_usage.session_tokens == tokens,
        r.token_usage.context_window == config.context_window,
        total.total > 0 ==> r.token_usage.cumulative_tokens == Some(total.total),
{
}

/// The short name of a model leaves out its provider and any path before it.
pub proof fn law_short_names(provider: Seq<char>, name: Seq<char>)
    requires
        !name.contains('/'),
        !provider.contains('/'),
    ensures
        short_name(provider + "/"@ + name, provider) == name,
        !begins_with(name, provider + "/"@) ==> short_name(name, provider) == name,
{
    reveal_strlit("/");
    let own = provider + "/"@;
    assert((own + name).take(own.len() as int) =~= own);
    assert((own + name).skip(own.len() as int) =~= name);
    assert(own + name =~= provider + "/"@ + name);
    lemma_one_piece(name, '/');
}

proof fn lemma_one_piece(s: Seq<char>, sep: char)
    requires
        !s.contains(sep),
    ensures
        split_at_char(s, sep) == seq![s],
    decreases s.len(),
{
    if s.len() > 0 {
        assert(s.contains(s.last()));
        let front = s.drop_last();
        assert(!front.contains(sep)) by {
            if front.contains(sep) {
                let i = choose|i: int| 0 <= i < front.len() && front[i] == sep;
                assert(s[i] == sep);
            }
        }
        lemma_one_piece(front, sep);
        assert(front.push(s.last()) =~= s);
        assert(split_at_char(s, sep) =~= seq![s]);
    } else {
        assert(s =~= Seq::<char>::empty());
        assert(split_at_char(s, sep) =~= seq![s]);
    }
}

/// A finished turn whose usage is known sets the gauges; one whose usage is not
/// known leaves them.
pub proof fn law_turns_set_the_gauges(
    footer: &mut ReplFooterStatus,
    result: &ChatResult,
    tokens: u64,
    window: Option<usize>,
    total: TurnTokens,
)
    requires
        call_ensures(ReplFooterStatus::update_token_usage, (footer, result, tokens, window, total), ()),
    ensures
        result.usage is None ==> *final(footer) == *old(footer),
        result.usage matches Some(u) ==> final(footer).token_usage.turn_tokens == u.total_tokens
            && final(footer).token_usage.turn_prompt_tokens == u.prompt_tokens && final(footer).token_usage.turn_cached_tokens == u.cache_read_tokens && final(footer).token_usage.session_tokens == tokens && final(footer).token_usage.context_window == window,
        final(footer).model == old(footer).model && final(footer).provider == old(footer).provider,
{
}

/// A new total is reported as a change exactly where a shown figure moved, and
/// leaves the figures of the turn and the context.
pub proof fn law_new_totals_are_reported(
    footer: &mut ReplFooterStatus,
    total: TurnTokens,
    changed: bool,
)
    requires
        call_ensures(ReplFooterStatus::update_cumulative_tokens, (footer, total), changed),
    ensures
        changed <==> final(footer).token_usage != old(footer).token_usage,
        total.total > 0 ==> final(footer).token_usage.cumulative_tokens == Some(total.total),
        total.total == 0 ==> final(footer).token_usage.cumulative_tokens is None,
        final(footer).token_usage.cumulative_prompt_tokens == total.prompt,
        final(footer).token_usage.cumulative_cached_tokens == total.cache_read,
        final(footer).token_usage.session_tokens == old(footer).token_usage.session_tokens,
        final(footer).token_usage.turn_tokens == old(footer).token_usage.turn_tokens,
{
}

/// A reset leaves the context alone in the gauges.
pub proof fn law_reset_gauges(footer: &mut ReplFooterStatus, tokens: u64, window: Option<usize>)
    requires
        call_ensures(ReplFooterStatus::reset_token_usage, (footer, tokens, window), ()),
    ensures
        final(footer).token_usage.session_tokens == tokens,
        final(footer).token_usage.context_window == window,
        final(footer).token_usage.turn_tokens == 0,
        final(footer).token_usage.cumulative_tokens is None,
        final(footer).model == old(footer).model,
{
}

/// The left half of the footer names mode, model, provider and variant, in that
/// order, with a dot between them; what is empty is left out.
pub proof fn law_left_half_of_the_footer(
    mode: &str,
    model: &str,
    provider: Option<&str>,
    thinking: &str,
    r: String,
)
    requires
        call_ensures(repl_footer_left_parts, (mode, model, provider, thinking), r),
    ensures
        provider matches Some(p) ==> p@.len() > 0 && model@.len() > 0 && thinking@.len() > 0 ==> r@
            == mode@ + " · "@ + (model@ + " "@ + p@) + (" · "@ + thinking@),
        provider is None && thinking@.len() == 0 ==> r@ == mode@ + " · "@ + model@,
{
    let bare = mode@ + " · "@ + model@;
    assert(bare + Seq::<char>::empty() =~= bare);
}

/// The model of a reply is named only where several are in use, and as the
/// setting has it.
pub proof fn law_replies_are_signed_where_wanted(config: &ModelConfig, interactive: bool, r: bool)
    requires
        call_ensures(show_mixed_model_endpoint, (config, interactive), r),
    ensures
        config.active@.len() <= 1 ==> !r,
        config.mixed_model_endpoint_display@ == "off"@ ==> !r,
        config.active@.len() > 1 && config.mixed_model_endpoint_display@ == "all"@ ==> r,
        config.active@.len() > 1 && config.mixed_model_endpoint_display@ != "off"@
            && config.mixed_model_endpoint_display@ != "all"@ ==> r == interactive,
{
    reveal_strlit("off");
    reveal_strlit("all");
    assert("off"@[0] == 'o' && "all"@[0] == 'a');
}

/// The signature of a reply names its provider and model, with a dash for what is
/// not known.
pub proof fn law_signature_names_the_model(
    show: bool,
    result: &ChatResult,
    variant: Option<&str>,
    r: Option<String>,
)
    requires
        call_ensures(print_mixed_model_endpoint, (show, result, variant), r),
        variant is None,
    ensures
        r is Some <==> show,
        show ==> r->0@ == dim(
            match result.provider_id {
                Some(p) => p@,
                None => "-"@,
            } + " / "@ + match result.model {
                Some(m) => m@,
                None => "-"@,
            },
        ) + "\n"@,
{
    let label = match result.provider_id {
        Some(p) => p@,
        None => "-"@,
    } + " / "@ + match result.model {
        Some(m) => m@,
        None => "-"@,
    };
    assert(label + Seq::<char>::empty() =~= label);
}

/// The window of a reply is that of its model, where it is known and no other
/// model takes turns.
pub proof fn law_window_is_that_of_the_model(
    config: &ModelConfig,
    result: &ChatResult,
    r: Option<usize>,
    i: int,
)
    requires
        call_ensures(result_context_window, (config, result), r),
        0 <= i < config.windows@.len(),
        forall|k: int|
            0 <= k < i ==> !((#[trigger] config.windows@[k]).provider_id@
                == config.windows@[i].provider_id@ && config.windows@[k].model@
                == config.windows@[i].model@),
    ensures
        config.active@.len() > 1 ==> r is None,
        result.provider_id is None || result.model is None ==> r is None,
        config.active@.len() <= 1 && result.provider_id is Some && result.model is Some
            && result.provider_id->0@ == config.windows@[i].provider_id@ && result.model->0@
            == config.windows@[i].model@ ==> r == config.windows@[i].window,
{
    lemma_window_at(
        config.windows@,
        config.windows@[i].provider_id@,
        config.windows@[i].model@,
        i,
    );
}

proof fn lemma_window_at(windows: Seq<ModelWindow>, provider: Seq<char>, model: Seq<char>, i: int)
    requires
        0 <= i < windows.len(),
        windows[i].provider_id@ == provider,
        windows[i].model@ == model,
        forall|k: int|
            0 <= k < i ==> !((#[trigger] windows[k]).provider_id@ == provider && windows[k].model@
                == model),
    ensures
        window_in(windows, provider, model) == windows[i].window,
    decreases windows.len(),
{
    if i > 0 {
        assert(!(windows[0].provider_id@ == provider && windows[0].model@ == model));
        let rest = windows.drop_first();
        assert(rest[i - 1] == windows[i]);
        assert forall|k: int| 0 <= k < i - 1 implies !((#[trigger] rest[k]).provider_id@ == provider
            && rest[k].model@ == model) by {
            assert(rest[k] == windows[k + 1]);
        }
        lemma_window_at(rest, provider, model, i - 1);
    }
}

/// The gauges stand whole where 24 columns are left beside them; else without what
/// the session has cost; else without the percentage too.
pub proof fn law_gauges_make_room(meter: TokenMeter, room: int)
    ensures
        ({
            let all = standing_gauges(meter, true);
            let bare = TokenMeter { cumulative_tokens: None, ..meter };
            let context = standing_gauges(bare, true);
            &&& width_of(all) + 24 <= room ==> footer_right(meter, room) == all
            &&& width_of(all) + 24 > room && width_of(context) + 24 <= room ==> footer_right(
                meter,
                room,
            ) == context
            &&& width_of(all) + 24 > room && width_of(context) + 24 > room ==> footer_right(
                meter,
                room,
            ) == standing_gauges(bare, false)
        }),
{
}

} // verus!
