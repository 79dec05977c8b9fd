//! Thinking variants: choosing one by name, and the menu in which they are set
//! for one or more models.
use crate::echo::{bold, dim, dim_text, enclosed, focused_text};
use crate::editor::{KeyCode, KeyModifiers};
use crate::jobs::opt_string;
use crate::lang::{pick, t, Lang};
use crate::layout::{at_least_one, capped, not_negative};
use crate::menu::{draw_menu, menu_columns, menu_ops, menu_width, MenuEnd};
use crate::picker::{inline_fuzzy_scroll, scrolled};
use crate::screen::{ops, Op, TerminalOp};
use crate::text::{
    begins_with, lower, run_of, same, same_ignoring_case, spaces, strip_prefix, texts, trim, trimmed,
};
use crate::width::{
    padded, pad_visible_width, truncate_visible_width, truncated, visible_width, width_of,
};
use vstd::prelude::*;
use vstd::string::*;

verus! {

/// The variant that a name asks for. `default` takes the setting back; behind
/// `variant:` even a variant of that name can be asked for. Upper and lower case
/// are the same.
pub open spec fn wanted_variant(selected: Seq<char>) -> Seq<char> {
    if begins_with(selected, "variant:"@) {
        selected.skip("variant:"@.len() as int)
    } else {
        selected
    }
}

pub open spec fn asks_for_default(selected: Seq<char>) -> bool {
    !begins_with(selected, "variant:"@) && lower(selected) == lower("default"@)
}

/// The first of the names that differs from `wanted` by case at most.
pub open spec fn find_ignoring_case(names: Seq<Seq<char>>, wanted: Seq<char>) -> Option<Seq<char>>
    decreases names.len(),
{
    if names.len() == 0 {
        None
    } else if lower(names[0]) == lower(wanted) {
        Some(names[0])
    } else {
        find_ignoring_case(names.drop_first(), wanted)
    }
}

pub fn resolve_variant_name(lang: Lang, selected: &str, available: &Vec<String>) -> (r: Result<
    Option<String>,
    String,
>)
    ensures
        match r {
            Ok(None) => asks_for_default(selected@),
            Ok(Some(name)) => !asks_for_default(selected@) && find_ignoring_case(
                texts(available@),
                wanted_variant(selected@),
            ) == Some(name@),
            Err(message) => {
                &&& !asks_for_default(selected@)
                &&& find_ignoring_case(texts(available@), wanted_variant(selected@)) is None
                &&& message@ == pick(lang, "unknown thinking variant"@, "未知思考档位"@) + ": "@
                    + wanted_variant(selected@)
            },
        },
{
    let explicit = strip_prefix(selected, "variant:");
    if explicit.is_none() && same_ignoring_case(selected, "default") {
        return Ok(None);
    }
    let wanted = match explicit {
        Some(name) => name,
        None => selected,
    };
    let ghost all = texts(available@);
    let mut i: usize = 0;
    assert(all.skip(0) =~= all);
    while i < available.len()
        invariant
            i <= available@.len(),
            all == texts(available@),
            wanted@ == wanted_variant(selected@),
            !asks_for_default(selected@),
            find_ignoring_case(all, wanted@) == find_ignoring_case(all.skip(i as int), wanted@),
        decreases available@.len() - i,
    {
        assert(all.skip(i as int)[0] == available@[i as int]@);
        assert(all.skip(i as int).drop_first() =~= all.skip(i + 1));
        if same_ignoring_case(available[i].as_str(), wanted) {
            return Ok(Some(available[i].clone()));
        }
        i = i + 1;
    }
    let message = enclosed(
        t(lang, "unknown thinking variant", "未知思考档位"),
        ": ",
        wanted,
    );
    Err(message)
}

/// What to do about a request for a variant.
#[derive(Debug)]
pub enum VariantPlan {
    /// Set this variant for the one model in use.
    Assign(Option<String>),
    /// Let the user choose in the menu.
    Choose,
    Rejected(String),
}

pub open spec fn several_models_note(lang: Lang, selector: Seq<char>) -> Seq<char> {
    match lang {
        Lang::Zh => "当前激活了多个模型；请使用 "@ + selector + " 在 TUI 中分别设置"@,
        Lang::En => "multiple models are active; use "@ + selector
            + " and configure them in the TUI"@,
    }
}

/// A variant can be named only while a single model is in use.
pub fn execute_variant(
    lang: Lang,
    selected: Option<&str>,
    models: usize,
    available: &Vec<String>,
    selector_command: &str,
) -> (r: VariantPlan)
    ensures
        match selected {
            None => r is Choose,
            Some(name) => if models != 1 {
                r matches VariantPlan::Rejected(note) && note@ == several_models_note(
                    lang,
                    selector_command@,
                )
            } else if asks_for_default(name@) {
                r == VariantPlan::Assign(None)
            } else {
                match (find_ignoring_case(texts(available@), wanted_variant(name@)), r) {
                    (Some(found), VariantPlan::Assign(Some(value))) => value@ == found,
                    (None, VariantPlan::Rejected(note)) => note@ == pick(
                        lang,
                        "unknown thinking variant"@,
                        "未知思考档位"@,
                    ) + ": "@ + wanted_variant(name@),
                    _ => false,
                }
            },
        },
{
    match selected {
        None => VariantPlan::Choose,
        Some(name) => {
            if models != 1 {
                let note = enclosed(
                    t(lang, "multiple models are active; use ", "当前激活了多个模型；请使用 "),
                    selector_command,
                    t(lang, " and configure them in the TUI", " 在 TUI 中分别设置"),
                );
                return VariantPlan::Rejected(note);
            }
            match resolve_variant_name(lang, name, available) {
                Ok(value) => VariantPlan::Assign(value),
                Err(note) => VariantPlan::Rejected(note),
            }
        },
    }
}

/// The variants of a model, and the one that is set.
#[derive(Debug)]
pub struct ThinkingVariantOptions {
    pub provider_id: String,
    pub model: String,
    pub variants: Vec<String>,
    pub selected: Option<String>,
}

#[derive(Debug)]
pub struct VariantMenuOption {
    pub label: String,
    pub value: Option<String>,
}

#[derive(Debug)]
pub struct VariantMenuItem {
    pub provider_id: String,
    pub model: String,
    pub options: Vec<VariantMenuOption>,
    pub selected: usize,
    pub cursor: usize,
}

/// The label of a variant: one that is called like the unset choice is told
/// apart from it.
pub open spec fn variant_label(name: Seq<char>) -> Seq<char> {
    if name == "default"@ {
        "default (variant)"@
    } else {
        name
    }
}

/// The choices of a model as labels and values: the unset one first.
pub open spec fn choices_of(variants: Seq<Seq<char>>) -> Seq<(Seq<char>, Option<Seq<char>>)> {
    seq![("default"@, None::<Seq<char>>)] + variants.map_values(
        |v: Seq<char>| (variant_label(v), Some(v)),
    )
}

pub open spec fn choice_views(v: Seq<VariantMenuOption>) -> Seq<(Seq<char>, Option<Seq<char>>)> {
    v.map_values(|o: VariantMenuOption| (o.label@, opt_string(o.value)))
}

/// The menu for a model opens on the variant that is set, else on none.
pub open spec fn is_item_of(options: ThinkingVariantOptions, item: VariantMenuItem) -> bool {
    let variants = texts(options.variants@);
    &&& item.wf()
    &&& item.provider_id@ == options.provider_id@
    &&& item.model@ == options.model@
    &&& choice_views(item.options@) == choices_of(variants)
    &&& item.selected == item.cursor
    &&& match opt_string(options.selected) {
        Some(name) => if variants.contains(name) {
            &&& item.selected > 0
            &&& variants[item.selected - 1] == name
            &&& forall|k: int| 0 <= k < item.selected - 1 ==> variants[k] != name
        } else {
            item.selected == 0
        },
        None => item.selected == 0,
    }
}

impl VariantMenuItem {
    /// The checked choice and the row in focus are there.
    pub open spec fn wf(&self) -> bool {
        self.selected < self.options@.len() && self.cursor < self.options@.len()
    }

    pub fn from_options(options: &ThinkingVariantOptions) -> (r: Self)
        ensures
            is_item_of(*options, r),
    {
        let mut choices: Vec<VariantMenuOption> = Vec::new();
        choices.push(VariantMenuOption { label: "default".to_owned(), value: None });
        let ghost all = texts(options.variants@);
        let mut selected: usize = 0;
        let mut i: usize = 0;
        while i < options.variants.len()
            invariant
                i <= options.variants@.len(),
                all == texts(options.variants@),
                choices@.len() == i + 1,
                choices@[0].label@ == "default"@,
                choices@[0].value is None,
                forall|k: int|
                    0 <= k < i ==> (#[trigger] choices@[k + 1]).label@ == variant_label(all[k])
                        && opt_string(choices@[k + 1].value) == Some(all[k]),
                selected <= i,
                match opt_string(options.selected) {
                    Some(name) => if selected > 0 {
                        &&& all[selected - 1] == name
                        &&& forall|k: int| 0 <= k < selected - 1 ==> all[k] != name
                    } else {
                        forall|k: int| 0 <= k < i ==> all[k] != name
                    },
                    None => selected == 0,
                },
            decreases options.variants@.len() - i,
        {
            let name = options.variants[i].as_str();
            assert(all[i as int] == name@);
            let label = if same(name, "default") {
                "default (variant)".to_owned()
            } else {
                name.to_owned()
            };
            let ghost before = choices@;
            choices.push(VariantMenuOption { label, value: Some(name.to_owned()) });
            assert forall|k: int| 0 <= k < i + 1 implies (#[trigger] choices@[k + 1]).label@
                == variant_label(all[k]) && opt_string(choices@[k + 1].value) == Some(all[k]) by {
                if k < i {
                    assert(choices@[k + 1] == before[k + 1]);
                }
            }
            if let Some(wanted) = &options.selected {
                if selected == 0 && same(name, wanted.as_str()) {
                    selected = i + 1;
                }
            }
            i = i + 1;
        }
        assert forall|k: int| 0 <= k < choices@.len() implies choice_views(choices@)[k]
            == choices_of(all)[k] by {
            if k > 0 {
                let m = k - 1;
                assert(choices@[m + 1].label@ == variant_label(all[m]));
            }
        }
        assert(choice_views(choices@) =~= choices_of(all));
        proof {
            if let Some(name) = opt_string(options.selected) {
                if selected > 0 {
                    assert(all[selected - 1] == name);
                }
            }
        }
        VariantMenuItem {
            provider_id: options.provider_id.clone(),
            model: options.model.clone(),
            options: choices,
            selected,
            cursor: selected,
        }
    }

    /// The provider, the model and the variant that is checked.
    pub fn selection(&self) -> (r: (String, String, Option<String>))
        requires
            self.wf(),
        ensures
            r.0@ == self.provider_id@,
            r.1@ == self.model@,
            opt_string(r.2) == opt_string(self.options@[self.selected as int].value),
    {
        let value = match &self.options[self.selected].value {
            Some(name) => Some(name.clone()),
            None => None,
        };
        (self.provider_id.clone(), self.model.clone(), value)
    }

    /// Checks the row in focus.
    pub fn check_cursor(&mut self)
        requires
            old(self).wf(),
        ensures
            *final(self) == (VariantMenuItem { selected: old(self).cursor, ..*old(self) }),
            final(self).wf(),
    {
        self.selected = self.cursor;
    }

    fn cursor_up(&mut self)
        requires
            old(self).wf(),
        ensures
            *final(self) == (VariantMenuItem {
                cursor: not_negative(old(self).cursor - 1) as usize,
                ..*old(self)
            }),
            final(self).wf(),
    {
        self.cursor = self.cursor.saturating_sub(1);
    }

    fn cursor_down(&mut self)
        requires
            old(self).wf(),
        ensures
            *final(self) == (VariantMenuItem {
                cursor: capped(old(self).cursor + 1, old(self).options@.len() - 1) as usize,
                ..*old(self)
            }),
            final(self).wf(),
    {
        let last: usize = self.options.len() - 1;
        if self.cursor < last {
            self.cursor = self.cursor + 1;
        } else {
            self.cursor = last;
        }
    }
}

/// The choices that a checked menu makes read back as what was set: a menu that
/// is confirmed without a change changes nothing.
pub proof fn law_confirming_keeps_setting(variants: Seq<Seq<char>>, k: int, name: Seq<char>)
    requires
        0 <= k < variants.len(),
        variants[k] == name,
    ensures
        choices_of(variants)[k + 1].1 == Some(name),
        choices_of(variants)[0].1 is None,
{
}

/// The keys that leave a menu of variants.
pub open spec fn variant_end(code: KeyCode, modifiers: KeyModifiers) -> MenuEnd {
    match code {
        KeyCode::Esc => MenuEnd::Cancelled,
        KeyCode::Enter => MenuEnd::Confirmed,
        KeyCode::Char(ch) => if (ch == 'c' && modifiers.control) || ch == 'q' {
            MenuEnd::Cancelled
        } else {
            MenuEnd::Open
        },
        _ => MenuEnd::Open,
    }
}

fn variant_key_end(code: KeyCode, modifiers: KeyModifiers) -> (r: MenuEnd)
    ensures
        r == variant_end(code, modifiers),
{
    match code {
        KeyCode::Esc => MenuEnd::Cancelled,
        KeyCode::Enter => MenuEnd::Confirmed,
        KeyCode::Char(ch) => if (ch == 'c' && modifiers.control) || ch == 'q' {
            MenuEnd::Cancelled
        } else {
            MenuEnd::Open
        },
        _ => MenuEnd::Open,
    }
}

pub open spec fn is_up(code: KeyCode) -> bool {
    code == KeyCode::Up || code == KeyCode::Char('k')
}

pub open spec fn is_down(code: KeyCode) -> bool {
    code == KeyCode::Down || code == KeyCode::Char('j')
}

fn key_is_up(code: KeyCode) -> (r: bool)
    ensures
        r == is_up(code),
{
    match code {
        KeyCode::Up => true,
        KeyCode::Char(ch) => ch == 'k',
        _ => false,
    }
}

fn key_is_down(code: KeyCode) -> (r: bool)
    ensures
        r == is_down(code),
{
    match code {
        KeyCode::Down => true,
        KeyCode::Char(ch) => ch == 'j',
        _ => false,
    }
}

/// One key in the menu of a single model.
pub fn inline_single_variant_select(
    item: &mut VariantMenuItem,
    code: KeyCode,
    modifiers: KeyModifiers,
) -> (end: MenuEnd)
    requires
        old(item).wf(),
    ensures
        end == variant_end(code, modifiers),
        final(item).wf(),
        *final(item) == if !(end is Open) {
            *old(item)
        } else if is_up(code) {
            VariantMenuItem { cursor: not_negative(old(item).cursor - 1) as usize, ..*old(item) }
        } else if is_down(code) {
            VariantMenuItem {
                cursor: capped(old(item).cursor + 1, old(item).options@.len() - 1) as usize,
                ..*old(item)
            }
        } else if code == KeyCode::Tab {
            VariantMenuItem { selected: old(item).cursor, ..*old(item) }
        } else {
            *old(item)
        },
{
    let end = variant_key_end(code, modifiers);
    if end != MenuEnd::Open {
        return end;
    }
    if key_is_up(code) {
        item.cursor_up();
    } else if key_is_down(code) {
        item.cursor_down();
    } else if code == KeyCode::Tab {
        item.check_cursor();
    }
    end
}

/// The menu of several models: models on the left, the variants of the model in
/// focus on the right.
#[derive(Debug)]
pub struct VariantMenu {
    pub items: Vec<VariantMenuItem>,
    /// Whether the keys move in the right column.
    pub in_variants: bool,
    pub model_index: usize,
    pub model_scroll: usize,
    pub variant_scroll: usize,
}

pub open spec fn all_wf(items: Seq<VariantMenuItem>) -> bool {
    forall|i: int| 0 <= i < items.len() ==> (#[trigger] items[i]).wf()
}

impl VariantMenu {
    pub open spec fn wf(&self) -> bool {
        &&& all_wf(self.items@)
        &&& self.model_index < self.items@.len()
    }

    /// Before drawing: the rows that are shown.
    pub fn settle(&mut self, rows: usize)
        requires
            old(self).wf(),
        ensures
            final(self).wf(),
            *final(self) == (VariantMenu {
                model_scroll: scrolled(
                    old(self).model_index as int,
                    old(self).model_scroll as int,
                    capped(old(self).items@.len() as int, rows as int),
                ) as usize,
                variant_scroll: scrolled(
                    old(self).items@[old(self).model_index as int].cursor as int,
                    old(self).variant_scroll as int,
                    capped(
                        old(self).items@[old(self).model_index as int].options@.len() as int,
                        rows as int,
                    ),
                ) as usize,
                ..*old(self)
            }),
    {
        let n: usize = self.items.len();
        let models: usize = if n < rows {
            n
        } else {
            rows
        };
        let item = &self.items[self.model_index];
        let m: usize = item.options.len();
        let variants: usize = if m < rows {
            m
        } else {
            rows
        };
        let variant_scroll = inline_fuzzy_scroll(item.cursor, self.variant_scroll, variants);
        self.model_scroll = inline_fuzzy_scroll(self.model_index, self.model_scroll, models);
        self.variant_scroll = variant_scroll;
    }

    fn change(&mut self, code: KeyCode)
        requires
            old(self).wf(),
        ensures
            final(self).wf(),
            final(self).items@ == old(self).items@.update(
                old(self).model_index as int,
                changed_item(old(self).items@[old(self).model_index as int], code),
            ),
            *final(self) == (VariantMenu { items: final(self).items, ..*old(self) }),
    {
        let at: usize = self.model_index;
        let ghost before = self.items@;
        let mut item = self.items.remove(at);
        assert(item == before[at as int]);
        if key_is_up(code) {
            item.cursor_up();
        } else if key_is_down(code) {
            item.cursor_down();
        } else {
            item.check_cursor();
        }
        self.items.insert(at, item);
        assert(self.items@ =~= before.update(at as int, item));
    }

    /// One key. Left and right change the column; up and down move in it; Tab
    /// checks a variant.
    pub fn key(&mut self, code: KeyCode, modifiers: KeyModifiers) -> (end: MenuEnd)
        requires
            old(self).wf(),
        ensures
            end == variant_end(code, modifiers),
            final(self).wf(),
            after_variant_key(*old(self), code, end, *final(self)),
    {
        let end = variant_key_end(code, modifiers);
        if end != MenuEnd::Open {
            return end;
        }
        if code == KeyCode::Left || code == KeyCode::Char('h') {
            self.in_variants = false;
        } else if code == KeyCode::Right || code == KeyCode::Char('l') {
            self.in_variants = true;
        } else if key_is_up(code) {
            if self.in_variants {
                self.change(code);
            } else {
                self.model_index = self.model_index.saturating_sub(1);
                self.variant_scroll = 0;
            }
        } else if key_is_down(code) {
            if self.in_variants {
                self.change(code);
            } else {
                let last: usize = self.items.len() - 1;
                if self.model_index < last {
                    self.model_index = self.model_index + 1;
                } else {
                    self.model_index = last;
                }
                self.variant_scroll = 0;
            }
        } else if code == KeyCode::Tab && self.in_variants {
            self.change(code);
        }
        end
    }

    /// The variants that are checked, one for each model.
    pub fn selections(&self) -> (r: Vec<(String, String, Option<String>)>)
        requires
            self.wf(),
        ensures
            r@.len() == self.items@.len(),
            forall|i: int|
                0 <= i < r@.len() ==> (#[trigger] r@[i]).0@ == self.items@[i].provider_id@
                    && r@[i].1@ == self.items@[i].model@ && opt_string(r@[i].2) == opt_string(
                    self.items@[i].options@[self.items@[i].selected as int].value,
                ),
    {
        let mut out: Vec<(String, String, Option<String>)> = Vec::new();
        let mut i: usize = 0;
        while i < self.items.len()
            invariant
                i <= self.items@.len(),
                self.wf(),
                out@.len() == i,
                forall|k: int|
                    0 <= k < i ==> (#[trigger] out@[k]).0@ == self.items@[k].provider_id@
                        && out@[k].1@ == self.items@[k].model@ && opt_string(out@[k].2)
                        == opt_string(self.items@[k].options@[self.items@[k].selected as int].value),
            decreases self.items@.len() - i,
        {
            assert(self.items@[i as int].wf());
            out.push(self.items[i].selection());
            i = i + 1;
        }
        out
    }
}

/// A model's row of variants behind a key.
pub open spec fn changed_item(item: VariantMenuItem, code: KeyCode) -> VariantMenuItem {
    if is_up(code) {
        VariantMenuItem { cursor: not_negative(item.cursor - 1) as usize, ..item }
    } else if is_down(code) {
        VariantMenuItem { cursor: capped(item.cursor + 1, item.options@.len() - 1) as usize, ..item }
    } else {
        VariantMenuItem { selected: item.cursor, ..item }
    }
}

/// What a key does to the menu of several models.
pub open spec fn after_variant_key(
    before: VariantMenu,
    code: KeyCode,
    end: MenuEnd,
    after: VariantMenu,
) -> bool {
    if !(end is Open) {
        after == before
    } else if code == KeyCode::Left || code == KeyCode::Char('h') {
        after == (VariantMenu { in_variants: false, ..before })
    } else if code == KeyCode::Right || code == KeyCode::Char('l') {
        after == (VariantMenu { in_variants: true, ..before })
    } else if (is_up(code) || is_down(code)) && !before.in_variants {
        after == (VariantMenu {
            model_index: (if is_up(code) {
                not_negative(before.model_index - 1)
            } else {
                capped(before.model_index + 1, before.items@.len() - 1)
            }) as usize,
            variant_scroll: 0,
            ..before
        })
    } else if (is_up(code) || is_down(code) || code == KeyCode::Tab) && before.in_variants {
        &&& after.items@ == before.items@.update(
            before.model_index as int,
            changed_item(before.items@[before.model_index as int], code),
        )
        &&& after == (VariantMenu { items: after.items, ..before })
    } else {
        after == before
    }
}

/// Sums stop at the largest number.
pub open spec fn sat(n: int) -> int {
    capped(n, usize::MAX as int)
}

pub open spec fn greater(a: int, b: int) -> int {
    if a > b {
        a
    } else {
        b
    }
}

pub open spec fn variants_title(lang: Lang) -> Seq<char> {
    pick(lang, "Thinking variant"@, "思考档位"@)
}

pub open spec fn models_title(lang: Lang) -> Seq<char> {
    pick(lang, "Provider / Model"@, "Provider / 模型"@)
}

/// The widest of the first `n` choices with its marks.
pub open spec fn widest_choice(options: Seq<VariantMenuOption>, n: int) -> int
    decreases n,
{
    if n <= 0 {
        0
    } else {
        greater(
            widest_choice(options, n - 1),
            sat(width_of(options[n - 1].label@) as int + 6),
        )
    }
}

fn widest_option(item: &VariantMenuItem) -> (r: usize)
    ensures
        r == widest_choice(item.options@, item.options@.len() as int),
{
    let mut widest: usize = 0;
    let mut i: usize = 0;
    while i < item.options.len()
        invariant
            i <= item.options@.len(),
            widest == widest_choice(item.options@, i as int),
        decreases item.options@.len() - i,
    {
        let w = visible_width(item.options[i].label.as_str()).saturating_add(6);
        if w > widest {
            widest = w;
        }
        i = i + 1;
    }
    widest
}

/// The width that the menu of a single model needs.
pub fn single_variant_content_width(lang: Lang, item: &VariantMenuItem) -> (r: usize)
    ensures
        r == greater(
            widest_choice(item.options@, item.options@.len() as int),
            width_of(variants_title(lang)) as int,
        ),
{
    let widest = widest_option(item);
    let title = visible_width(t(lang, "Thinking variant", "思考档位"));
    if widest > title {
        widest
    } else {
        title
    }
}

pub open spec fn model_label(item: VariantMenuItem) -> Seq<char> {
    item.provider_id@ + " / "@ + item.model@
}

fn label_of(item: &VariantMenuItem) -> (r: String)
    ensures
        r@ == model_label(*item),
{
    enclosed(item.provider_id.as_str(), " / ", item.model.as_str())
}

/// The widest of the first `n` models with its mark, and the title.
pub open spec fn models_need(lang: Lang, items: Seq<VariantMenuItem>, n: int) -> int
    decreases n,
{
    if n <= 0 {
        width_of(models_title(lang)) as int
    } else {
        greater(
            models_need(lang, items, n - 1),
            sat(width_of(model_label(items[n - 1])) as int + 2),
        )
    }
}

/// The widest choice of the first `n` models, and the title.
pub open spec fn variants_need(lang: Lang, items: Seq<VariantMenuItem>, n: int) -> int
    decreases n,
{
    if n <= 0 {
        width_of(variants_title(lang)) as int
    } else {
        greater(
            variants_need(lang, items, n - 1),
            widest_choice(items[n - 1].options@, items[n - 1].options@.len() as int),
        )
    }
}

/// The widths of the two columns: what they need where there is room for it,
/// else the room in the same proportion, with at least one column for each.
pub open spec fn column_widths(left: int, right: int, available: int) -> (int, int) {
    if available == 0 {
        (0, 0)
    } else if available == 1 {
        (1, 0)
    } else if sat(left + right) <= available {
        (left, right)
    } else {
        let share = sat(available * left) / greater(sat(left + right), 1);
        let l = if share < 1 {
            1
        } else {
            capped(share, available - 1)
        };
        (l, available - l)
    }
}

pub fn variant_menu_column_widths(lang: Lang, items: &Vec<VariantMenuItem>, available: usize) -> (r: (
    usize,
    usize,
))
    ensures
        (r.0 as int, r.1 as int) == column_widths(
            models_need(lang, items@, items@.len() as int),
            variants_need(lang, items@, items@.len() as int),
            available as int,
        ),
{
    let mut left: usize = visible_width(t(lang, "Provider / Model", "Provider / 模型"));
    let mut right: usize = visible_width(t(lang, "Thinking variant", "思考档位"));
    let mut i: usize = 0;
    while i < items.len()
        invariant
            i <= items@.len(),
            left == models_need(lang, items@, i as int),
            right == variants_need(lang, items@, i as int),
        decreases items@.len() - i,
    {
        let label = label_of(&items[i]);
        let w = visible_width(label.as_str()).saturating_add(2);
        if w > left {
            left = w;
        }
        let v = widest_option(&items[i]);
        if v > right {
            right = v;
        }
        i = i + 1;
    }
    if available == 0 {
        return (0, 0);
    }
    if available == 1 {
        return (1, 0);
    }
    let total = left.saturating_add(right);
    if total <= available {
        return (left, right);
    }
    let product: usize = match available.checked_mul(left) {
        Some(product) => product,
        None => usize::MAX,
    };
    let share: usize = product / total;
    let l: usize = if share < 1 {
        1
    } else if share < available - 1 {
        share
    } else {
        available - 1
    };
    (l, available - l)
}

/// The two columns never take more room than there is, and both are there
/// wherever there is room for two.
pub proof fn law_columns_fit(left: int, right: int, available: int)
    requires
        left >= 1,
        right >= 1,
        available >= 0,
        left <= usize::MAX,
        right <= usize::MAX,
        available <= usize::MAX,
    ensures
        ({
            let (l, r) = column_widths(left, right, available);
            &&& l + r <= available || (l == left && r == right && left + right > usize::MAX)
            &&& available >= 2 ==> l >= 1 && r >= 1
        }),
{
}

/// The title of a column, filled up to its width.
pub open spec fn column_title(label: Seq<char>, active: bool, width: nat) -> Seq<char> {
    let text = padded(truncated(label, width), width);
    if active {
        focused_text(text)
    } else {
        bold(text)
    }
}

pub fn variant_menu_header(label: &str, active: bool, width: usize) -> (r: String)
    ensures
        r@ == column_title(label@, active, width as nat),
{
    let cut = truncate_visible_width(label, width);
    let text = pad_visible_width(cut.as_str(), width);
    if active {
        enclosed("\x1b[1m\x1b[35m", text.as_str(), "\x1b[0m")
    } else {
        enclosed("\x1b[1m", text.as_str(), "\x1b[0m")
    }
}

/// A cell of the menu: a mark for the row, a box where the row can be checked,
/// and the label, filled up to the width of the column.
pub open spec fn cell(
    label: Seq<char>,
    focused: bool,
    highlighted: bool,
    checked: Option<bool>,
    width: nat,
) -> Seq<char> {
    let text = padded(
        truncated(
            (if highlighted {
                "›"@
            } else {
                " "@
            }) + " "@ + (match checked {
                Some(true) => "[*] "@,
                Some(false) => "[ ] "@,
                None => ""@,
            }) + label,
            width,
        ),
        width,
    );
    if focused {
        focused_text(text)
    } else if checked == Some(true) {
        crate::echo::checked_text(text)
    } else if highlighted {
        bold(text)
    } else {
        dim(text)
    }
}

pub fn variant_menu_cell(
    label: &str,
    focused: bool,
    highlighted: bool,
    checked: Option<bool>,
    width: usize,
) -> (r: String)
    ensures
        r@ == cell(label@, focused, highlighted, checked, width as nat),
{
    let mut line = (if highlighted {
        "›"
    } else {
        " "
    }).to_owned();
    line.append(" ");
    let is_checked = match checked {
        Some(b) => b,
        None => false,
    };
    line.append(
        match checked {
            Some(b) => if b {
                "[*] "
            } else {
                "[ ] "
            },
            None => "",
        },
    );
    line.append(label);
    let cut = truncate_visible_width(line.as_str(), width);
    let text = pad_visible_width(cut.as_str(), width);
    if focused {
        enclosed("\x1b[1m\x1b[35m", text.as_str(), "\x1b[0m")
    } else if is_checked {
        enclosed("\x1b[1m\x1b[32m", text.as_str(), "\x1b[0m")
    } else if highlighted {
        enclosed("\x1b[1m", text.as_str(), "\x1b[0m")
    } else {
        dim_text(text.as_str())
    }
}

/// The row `index` of a column of variants; an empty cell behind the last one.
pub open spec fn variant_cell(
    item: VariantMenuItem,
    index: int,
    in_column: bool,
    width: nat,
) -> Seq<char> {
    if index < item.options@.len() {
        cell(
            item.options@[index].label@,
            in_column && index == item.cursor,
            index == item.cursor,
            Some(index == item.selected),
            width,
        )
    } else {
        run_of(' ', width)
    }
}

fn draw_variant_cell(item: &VariantMenuItem, index: usize, in_column: bool, width: usize) -> (r:
    String)
    ensures
        r@ == variant_cell(*item, index as int, in_column, width as nat),
{
    if index < item.options.len() {
        variant_menu_cell(
            item.options[index].label.as_str(),
            in_column && index == item.cursor,
            index == item.cursor,
            Some(index == item.selected),
            width,
        )
    } else {
        spaces(width)
    }
}

pub open spec fn single_variant_help(lang: Lang) -> Seq<char> {
    pick(
        lang,
        "j/k move · Tab select · Enter confirm · Esc/q cancel"@,
        "j/k 移动 · Tab 勾选 · Enter 确认 · Esc/q 取消"@,
    )
}

/// The width of the one column of a menu for a single model.
pub open spec fn single_width(lang: Lang, item: VariantMenuItem, cols: int) -> int {
    capped(
        greater(
            widest_choice(item.options@, item.options@.len() as int),
            width_of(variants_title(lang)) as int,
        ),
        menu_width(cols),
    )
}

/// Draws the menu of a single model.
pub fn draw_inline_single_variant(
    lang: Lang,
    anchor: u16,
    lines: u16,
    cols: u16,
    item: &VariantMenuItem,
    scroll: usize,
) -> (r: Vec<TerminalOp>)
    requires
        lines >= 2,
        anchor + lines <= 65535,
        scroll + lines <= usize::MAX,
    ensures
        ops(r@) == menu_ops(
            anchor as int,
            lines as int,
            column_title(
                variants_title(lang),
                true,
                single_width(lang, *item, cols as int) as nat,
            ),
            Seq::new(
                (lines - 2) as nat,
                |k: int|
                    variant_cell(
                        *item,
                        scroll + k,
                        true,
                        single_width(lang, *item, cols as int) as nat,
                    ),
            ),
            dim(truncated(single_variant_help(lang), menu_width(cols as int) as nat)),
        ),
{
    let available = menu_columns(cols);
    let needed = single_variant_content_width(lang, item);
    let width: usize = if needed < available {
        needed
    } else {
        available
    };
    let header = variant_menu_header(t(lang, "Thinking variant", "思考档位"), true, width);
    let rows: usize = (lines - 2) as usize;
    let mut body: Vec<String> = Vec::new();
    let mut k: usize = 0;
    while k < rows
        invariant
            k <= rows,
            scroll + rows <= usize::MAX,
            body@.len() == k,
            forall|j: int|
                0 <= j < k ==> (#[trigger] body@[j])@ == variant_cell(
                    *item,
                    scroll + j,
                    true,
                    width as nat,
                ),
        decreases rows - k,
    {
        body.push(draw_variant_cell(item, scroll + k, true, width));
        k = k + 1;
    }
    let cut = truncate_visible_width(
        t(
            lang,
            "j/k move · Tab select · Enter confirm · Esc/q cancel",
            "j/k 移动 · Tab 勾选 · Enter 确认 · Esc/q 取消",
        ),
        available,
    );
    let help = dim_text(cut.as_str());
    assert(texts(body@) =~= Seq::new(
        (lines - 2) as nat,
        |k: int|
            variant_cell(
                *item,
                scroll + k,
                true,
                single_width(lang, *item, cols as int) as nat,
            ),
    ));
    draw_menu(anchor, lines, header, &body, help)
}

/// What stands between the two columns, where there is room for it.
pub open spec fn separator(width: int) -> Seq<char> {
    if width >= 3 {
        " │ "@
    } else {
        ""@
    }
}

/// The row `index` of the column of models.
pub open spec fn model_cell(menu: VariantMenu, index: int, width: nat) -> Seq<char> {
    if index < menu.items@.len() {
        cell(
            model_label(menu.items@[index]),
            !menu.in_variants && index == menu.model_index,
            index == menu.model_index,
            None,
            width,
        )
    } else {
        run_of(' ', width)
    }
}

/// A row of the menu of several models.
pub open spec fn two_cells(menu: VariantMenu, row: int, left: nat, right: nat, gap: Seq<char>) -> Seq<
    char,
> {
    model_cell(menu, menu.model_scroll + row, left) + dim(gap) + variant_cell(
        menu.items@[menu.model_index as int],
        menu.variant_scroll + row,
        menu.in_variants,
        right,
    )
}

pub open spec fn variant_help(lang: Lang) -> Seq<char> {
    pick(
        lang,
        "h/l switch · j/k move · Tab select · Enter confirm · Esc/q cancel"@,
        "h/l 切栏 · j/k 移动 · Tab 勾选 · Enter 确认 · Esc/q 取消"@,
    )
}

/// The menu of several models as it is drawn.
pub open spec fn variant_menu_ops(lang: Lang, menu: VariantMenu, anchor: int, lines: int, cols: int) -> Seq<
    Op,
> {
    let width = menu_width(cols);
    let gap = separator(width);
    let (left, right) = column_widths(
        models_need(lang, menu.items@, menu.items@.len() as int),
        variants_need(lang, menu.items@, menu.items@.len() as int),
        not_negative(width - width_of(gap)),
    );
    menu_ops(
        anchor,
        lines,
        column_title(models_title(lang), !menu.in_variants, left as nat) + dim(gap) + column_title(
            variants_title(lang),
            menu.in_variants,
            right as nat,
        ),
        Seq::new(
            (lines - 2) as nat,
            |k: int| two_cells(menu, k, left as nat, right as nat, gap),
        ),
        dim(truncated(variant_help(lang), width as nat)),
    )
}

impl VariantMenu {
    fn draw_row(&self, row: usize, left: usize, right: usize, gap: &str) -> (r: String)
        requires
            self.wf(),
            self.model_scroll + row <= usize::MAX,
            self.variant_scroll + row <= usize::MAX,
        ensures
            r@ == two_cells(*self, row as int, left as nat, right as nat, gap@),
    {
        let index: usize = self.model_scroll + row;
        let mut line = if index < self.items.len() {
            let label = label_of(&self.items[index]);
            variant_menu_cell(
                label.as_str(),
                !self.in_variants && index == self.model_index,
                index == self.model_index,
                None,
                left,
            )
        } else {
            spaces(left)
        };
        let between = dim_text(gap);
        line.append(between.as_str());
        let cell = draw_variant_cell(
            &self.items[self.model_index],
            self.variant_scroll + row,
            self.in_variants,
            right,
        );
        line.append(cell.as_str());
        line
    }

    /// Draws the menu of several models.
    pub fn draw_inline_variant(&self, lang: Lang, anchor: u16, lines: u16, cols: u16) -> (r: Vec<
        TerminalOp,
    >)
        requires
            self.wf(),
            lines >= 2,
            anchor + lines <= 65535,
            self.model_scroll + lines <= usize::MAX,
            self.variant_scroll + lines <= usize::MAX,
        ensures
            ops(r@) == variant_menu_ops(lang, *self, anchor as int, lines as int, cols as int),
    {
        let width = menu_columns(cols);
        let gap = if width >= 3 {
            " │ "
        } else {
            ""
        };
        let available = width.saturating_sub(visible_width(gap));
        let (left, right) = variant_menu_column_widths(lang, &self.items, available);
        let mut header = variant_menu_header(
            t(lang, "Provider / Model", "Provider / 模型"),
            !self.in_variants,
            left,
        );
        let between = dim_text(gap);
        let second = variant_menu_header(
            t(lang, "Thinking variant", "思考档位"),
            self.in_variants,
            right,
        );
        header.append(between.as_str());
        header.append(second.as_str());
        let rows: usize = (lines - 2) as usize;
        let mut body: Vec<String> = Vec::new();
        let mut k: usize = 0;
        while k < rows
            invariant
                k <= rows,
                self.wf(),
                self.model_scroll + rows <= usize::MAX,
                self.variant_scroll + rows <= usize::MAX,
                body@.len() == k,
                forall|j: int|
                    0 <= j < k ==> (#[trigger] body@[j])@ == two_cells(
                        *self,
                        j,
                        left as nat,
                        right as nat,
                        gap@,
                    ),
            decreases rows - k,
        {
            body.push(self.draw_row(k, left, right, gap));
            k = k + 1;
        }
        let cut = truncate_visible_width(
            t(
                lang,
                "h/l switch · j/k move · Tab select · Enter confirm · Esc/q cancel",
                "h/l 切栏 · j/k 移动 · Tab 勾选 · Enter 确认 · Esc/q 取消",
            ),
            width,
        );
        let help = dim_text(cut.as_str());
        assert(texts(body@) =~= Seq::new(
            (lines - 2) as nat,
            |k: int| two_cells(*self, k, left as nat, right as nat, gap@),
        ));
        draw_menu(anchor, lines, header, &body, help)
    }
}

/// The menu for the variants of several models; a single model has its own.
pub fn variant_menu(options: &Vec<ThinkingVariantOptions>) -> (r: VariantMenu)
    ensures
        all_wf(r.items@),
        r.items@.len() == options@.len(),
        forall|i: int| 0 <= i < options@.len() ==> is_item_of(options@[i], #[trigger] r.items@[i]),
        !r.in_variants,
        r.model_index == 0,
        r.model_scroll == 0,
        r.variant_scroll == 0,
{
    let mut items: Vec<VariantMenuItem> = Vec::new();
    let mut i: usize = 0;
    while i < options.len()
        invariant
            i <= options@.len(),
            items@.len() == i,
            all_wf(items@),
            forall|k: int| 0 <= k < i ==> is_item_of(options@[k], #[trigger] items@[k]),
        decreases options@.len() - i,
    {
        let item = VariantMenuItem::from_options(&options[i]);
        items.push(item);
        i = i + 1;
    }
    VariantMenu {
        items,
        in_variants: false,
        model_index: 0,
        model_scroll: 0,
        variant_scroll: 0,
    }
}

/// The length of the longest list in the menu: of the models, or of the variants
/// of one of the first `n`.
pub open spec fn longest_list(items: Seq<VariantMenuItem>, n: int) -> int
    decreases n,
{
    if n <= 0 {
        items.len() as int
    } else {
        greater(longest_list(items, n - 1), items[n - 1].options@.len() as int)
    }
}

/// The rows of the menu: ten of its longest list at most, and two around them.
pub fn variant_menu_lines(menu: &VariantMenu) -> (r: u16)
    ensures
        r == at_least_one(capped(longest_list(menu.items@, menu.items@.len() as int), 10)) + 2,
{
    let mut most: usize = menu.items.len();
    let mut i: usize = 0;
    while i < menu.items.len()
        invariant
            i <= menu.items@.len(),
            most == longest_list(menu.items@, i as int),
        decreases menu.items@.len() - i,
    {
        let n: usize = menu.items[i].options.len();
        if n > most {
            most = n;
        }
        i = i + 1;
    }
    crate::picker::inline_fuzzy_lines(most)
}

/// The variant that was named on the command line, or none for the menu, which
/// takes a terminal.
pub fn run_variant(lang: Lang, name: Option<&str>, interactive: bool) -> (r: Result<
    Option<String>,
    String,
>)
    ensures
        ({
            let wanted = match name {
                Some(name) => if trimmed(name@).len() == 0 {
                    None
                } else {
                    Some(trimmed(name@))
                },
                None => None,
            };
            match r {
                Ok(selected) => opt_string(selected) == wanted && (wanted is Some
                    || interactive),
                Err(note) => wanted is None && !interactive && note@ == pick(
                    lang,
                    "interactive variant selection requires a terminal; use `laozhou variant <name>`"@,
                    "交互 variant 选择需要终端；请使用 `laozhou variant <名称>`"@,
                ),
            }
        }),
{
    if let Some(name) = name {
        let clean = trim(name);
        if !clean.is_empty() {
            return Ok(Some(clean.to_owned()));
        }
    }
    if !interactive {
        return Err(
            t(
                lang,
                "interactive variant selection requires a terminal; use `laozhou variant <name>`",
                "交互 variant 选择需要终端；请使用 `laozhou variant <名称>`",
            ).to_owned(),
        );
    }
    Ok(None)
}

/// `default` takes the setting back. Any other name asks for a variant of the
/// list that differs from it by case at most; behind `variant:` the name is taken
/// as it is.
pub proof fn law_variants_are_found_by_name(
    lang: Lang,
    selected: &str,
    available: &Vec<String>,
    r: Result<Option<String>, String>,
)
    requires
        call_ensures(resolve_variant_name, (lang, selected, available), r),
    ensures
        !begins_with(selected@, "variant:"@) && lower(selected@) == lower("default"@) <==> r == Ok::<
            Option<String>,
            String,
        >(None),
        r is Ok && r->Ok_0 is Some && !begins_with(selected@, "variant:"@) ==> lower(
            r->Ok_0->0@,
        ) == lower(selected@),
        r is Ok && r->Ok_0 is Some && begins_with(selected@, "variant:"@) ==> lower(r->Ok_0->0@)
            == lower(selected@.skip(8)),
        r is Ok && r->Ok_0 is Some ==> texts(available@).contains(r->Ok_0->0@),
        r is Err && !begins_with(selected@, "variant:"@) ==> r->Err_0@ == pick(
            lang,
            "unknown thinking variant"@,
            "未知思考档位"@,
        ) + ": "@ + selected@,
{
    reveal_strlit("variant:");
    assert("variant:"@.len() == 8);
    law_found_variant_is_available(texts(available@), wanted_variant(selected@), 0);
}

/// What is found differs from what was wanted by case at most and is available;
/// nothing is found where nothing available does.
pub proof fn law_found_variant_is_available(names: Seq<Seq<char>>, wanted: Seq<char>, k: int)
    ensures
        find_ignoring_case(names, wanted) matches Some(found) ==> lower(found) == lower(wanted)
            && names.contains(found),
        0 <= k < names.len() && lower(names[k]) == lower(wanted) ==> find_ignoring_case(
            names,
            wanted,
        ) is Some,
        names.len() > 0 && lower(names[0]) == lower(wanted) ==> find_ignoring_case(names, wanted)
            == Some(names[0]),
    decreases names.len(),
{
    if names.len() > 0 && lower(names[0]) != lower(wanted) {
        law_found_variant_is_available(names.drop_first(), wanted, k - 1);
        if let Some(found) = find_ignoring_case(names, wanted) {
            let at = choose|at: int|
                0 <= at < names.drop_first().len() && names.drop_first()[at] == found;
            assert(names[at + 1] == found);
        }
        if 0 < k < names.len() {
            assert(names.drop_first()[k - 1] == names[k]);
        }
    }
}

/// A variant can be named for a single model only; without a name the menu opens.
pub proof fn law_variants_are_named_for_one_model(
    lang: Lang,
    selected: Option<&str>,
    models: usize,
    available: &Vec<String>,
    command: &str,
    r: VariantPlan,
)
    requires
        call_ensures(execute_variant, (lang, selected, models, available, command), r),
    ensures
        r is Choose <==> selected is None,
        selected is Some && models != 1 ==> r is Rejected,
        selected is Some && models == 1 && !begins_with(selected->0@, "variant:"@) && lower(
            selected->0@,
        ) == lower("default"@) ==> r == VariantPlan::Assign(None),
        r is Assign ==> models == 1,
        r is Assign && r->Assign_0 is Some ==> texts(available@).contains(r->Assign_0->0@),
{
    if let Some(name) = selected {
        law_found_variant_is_available(texts(available@), wanted_variant(name@), 0);
    }
}

/// The choices of a model are the unset one and then its variants in their order,
/// and the menu stands on the one that is set.
pub proof fn law_menu_opens_on_the_setting(options: &ThinkingVariantOptions, r: VariantMenuItem, i: int)
    requires
        call_ensures(VariantMenuItem::from_options, (options,), r),
    ensures
        r.options@.len() == options.variants@.len() + 1,
        r.options@[0].value is None,
        r.options@[0].label@ == "default"@,
        0 <= i < options.variants@.len() ==> r.options@[i + 1].value is Some && r.options@[i
            + 1].value->0@ == options.variants@[i]@,
        0 <= i < options.variants@.len() && options.variants@[i]@ != "default"@ ==> r.options@[i
            + 1].label@ == options.variants@[i]@,
        options.selected is None ==> r.selected == 0,
        options.selected is Some && r.selected > 0 ==> options.variants@[r.selected - 1]@
            == options.selected->0@,
        options.selected is Some && 0 <= i < options.variants@.len() && options.variants@[i]@
            == options.selected->0@ ==> r.selected > 0,
        r.cursor == r.selected,
        r.provider_id@ == options.provider_id@,
        r.model@ == options.model@,
{
    let views = choice_views(r.options@);
    let names = texts(options.variants@);
    assert(views.len() == r.options@.len());
    assert(names.len() == options.variants@.len());
    assert(choices_of(names).len() == names.len() + 1);
    assert(views[0] == (r.options@[0].label@, opt_string(r.options@[0].value)));
    if 0 <= i < names.len() {
        assert(names[i] == options.variants@[i]@);
        assert(choices_of(names)[i + 1] == (variant_label(names[i]), Some(names[i])));
        assert(views[i + 1] == (r.options@[i + 1].label@, opt_string(r.options@[i + 1].value)));
        assert(names.contains(names[i]));
    }
    if r.selected > 0 {
        assert(names[r.selected - 1] == options.variants@[r.selected - 1]@);
    }
}

/// A menu hands out the choice that is checked, and Tab checks the row in focus.
pub proof fn law_checked_choice_is_handed_out(
    item: &VariantMenuItem,
    r: (String, String, Option<String>),
    other: &mut VariantMenuItem,
)
    requires
        call_ensures(VariantMenuItem::selection, (item,), r),
        call_ensures(VariantMenuItem::check_cursor, (other,), ()),
    ensures
        r.0@ == item.provider_id@,
        r.1@ == item.model@,
        opt_string(r.2) == opt_string(item.options@[item.selected as int].value),
        final(other).selected == old(other).cursor,
        final(other).cursor == old(other).cursor,
        final(other).options == old(other).options,
{
}

/// In the menu of one model, up and down move by one and stop at the ends, Tab
/// checks, Enter confirms, and Escape, `q` and Ctrl+C cancel.
pub proof fn law_keys_of_the_menu_of_one_model(
    item: &mut VariantMenuItem,
    code: KeyCode,
    modifiers: KeyModifiers,
    end: MenuEnd,
)
    requires
        call_ensures(inline_single_variant_select, (item, code, modifiers), end),
        old(item).wf(),
    ensures
        code is Enter ==> end is Confirmed && *final(item) == *old(item),
        code is Esc || code == KeyCode::Char('q') || (code == KeyCode::Char('c')
            && modifiers.control) ==> end is Cancelled && *final(item) == *old(item),
        code is Up || code == KeyCode::Char('k') ==> end is Open && final(item).selected == old(item).selected && (old(item).cursor > 0 ==> final(item).cursor == old(item).cursor - 1) && (old(item).cursor == 0 ==> final(item).cursor == 0),
        code is Down || code == KeyCode::Char('j') ==> end is Open && final(item).selected == old(item).selected && (old(item).cursor + 1 < old(item).options@.len() ==> final(item).cursor == old(item).cursor + 1) && (old(item).cursor + 1 == old(item).options@.len() ==> final(item).cursor
            == old(item).cursor),
        code is Tab ==> end is Open && final(item).selected == old(item).cursor && final(item).cursor == old(item).cursor,
        final(item).options == old(item).options,
{
    assert(old(item).options.len() == old(item).options@.len());
}

/// In the menu of several models, left and right change the column; up and down
/// move in it; Tab checks a variant of the model in focus and of no other.
pub proof fn law_keys_of_the_menu_of_models(
    menu: &mut VariantMenu,
    code: KeyCode,
    modifiers: KeyModifiers,
    end: MenuEnd,
    i: int,
)
    requires
        call_ensures(VariantMenu::key, (menu, code, modifiers), end),
        old(menu).wf(),
        0 <= i < old(menu).items@.len(),
    ensures
        code is Enter ==> end is Confirmed && *final(menu) == *old(menu),
        code is Esc || code == KeyCode::Char('q') || (code == KeyCode::Char('c')
            && modifiers.control) ==> end is Cancelled && *final(menu) == *old(menu),
        code is Left || code == KeyCode::Char('h') ==> !final(menu).in_variants && final(menu).items == old(menu).items,
        code is Right || code == KeyCode::Char('l') ==> final(menu).in_variants && final(menu).items == old(menu).items,
        code is Down && !old(menu).in_variants ==> final(menu).items == old(menu).items && (old(menu).model_index + 1 < old(menu).items@.len() ==> final(menu).model_index == old(menu).model_index + 1),
        code is Up && !old(menu).in_variants ==> final(menu).items == old(menu).items && (old(menu).model_index > 0 ==> final(menu).model_index == old(menu).model_index - 1),
        i != old(menu).model_index ==> final(menu).items@[i] == old(menu).items@[i],
        old(menu).in_variants ==> final(menu).model_index == old(menu).model_index,
        code is Tab && old(menu).in_variants && i == old(menu).model_index ==> final(menu).items@[i].selected == old(menu).items@[i].cursor,
        code is Tab && !old(menu).in_variants ==> *final(menu) == *old(menu),
        code is Down && old(menu).in_variants && i == old(menu).model_index && old(menu).items@[i].cursor + 1 < old(menu).items@[i].options@.len() ==> final(menu).items@[i].cursor == old(menu).items@[i].cursor + 1,
        code is Up && old(menu).in_variants && i == old(menu).model_index && old(menu).items@[i].cursor > 0 ==> final(menu).items@[i].cursor == old(menu).items@[i].cursor - 1,
        final(menu).items@.len() == old(menu).items@.len(),
{
    let item = old(menu).items@[old(menu).model_index as int];
    assert(item.wf());
    assert(item.options.len() == item.options@.len());
    assert(old(menu).items.len() == old(menu).items@.len());
}

/// The menu has an entry for each model, in order, and starts in the column of the
/// models on the first.
pub proof fn law_menu_has_every_model(options: &Vec<ThinkingVariantOptions>, r: VariantMenu, i: int)
    requires
        call_ensures(variant_menu, (options,), r),
    ensures
        r.items@.len() == options@.len(),
        !r.in_variants,
        r.model_index == 0,
        0 <= i < options@.len() ==> r.items@[i].provider_id@ == options@[i].provider_id@
            && r.items@[i].model@ == options@[i].model@ && r.items@[i].options@.len()
            == options@[i].variants@.len() + 1,
{
    if 0 <= i < options@.len() {
        assert(is_item_of(options@[i], r.items@[i]));
        let names = texts(options@[i].variants@);
        assert(choice_views(r.items@[i].options@).len() == r.items@[i].options@.len());
        assert(choices_of(names).len() == names.len() + 1);
    }
}

/// A cell shows the mark of its row and, where it can be checked, its box.
pub proof fn law_cells_show_their_state(
    label: &str,
    focused: bool,
    highlighted: bool,
    checked: Option<bool>,
    width: usize,
    r: String,
)
    requires
        call_ensures(variant_menu_cell, (label, focused, highlighted, checked, width), r),
    ensures
        focused && highlighted && checked == Some(true) ==> r@ == focused_text(
            padded(truncated("›"@ + " "@ + "[*] "@ + label@, width as nat), width as nat),
        ),
        focused && highlighted && checked == Some(false) ==> r@ == focused_text(
            padded(truncated("›"@ + " "@ + "[ ] "@ + label@, width as nat), width as nat),
        ),
        !focused && !highlighted && checked == Some(true) ==> r@ == crate::echo::checked_text(
            padded(truncated(" "@ + " "@ + "[*] "@ + label@, width as nat), width as nat),
        ),
        !focused && !highlighted && checked == Some(false) ==> r@ == dim(
            padded(truncated(" "@ + " "@ + "[ ] "@ + label@, width as nat), width as nat),
        ),
        !focused && highlighted && checked == Some(false) ==> r@ == bold(
            padded(truncated("›"@ + " "@ + "[ ] "@ + label@, width as nat), width as nat),
        ),
{
}

/// The menu has a row for each entry of its longest list, ten at most, and two
/// rows around them.
pub proof fn law_menu_has_room_for_its_lists(menu: &VariantMenu, r: u16, i: int)
    requires
        call_ensures(variant_menu_lines, (menu,), r),
        0 <= i < menu.items@.len(),
    ensures
        3 <= r <= 12,
        menu.items@.len() <= 10 ==> r >= menu.items@.len() + 2,
        menu.items@[i].options@.len() <= 10 ==> r >= menu.items@[i].options@.len() + 2,
        menu.items@.len() > 10 || menu.items@[i].options@.len() > 10 ==> r == 12,
{
    lemma_longest_list(menu.items@, menu.items@.len() as int, i);
}

proof fn lemma_longest_list(items: Seq<VariantMenuItem>, n: int, i: int)
    requires
        0 <= n <= items.len(),
    ensures
        longest_list(items, n) >= items.len(),
        0 <= i < n ==> longest_list(items, n) >= items[i].options@.len(),
    decreases n,
{
    if n > 0 {
        lemma_longest_list(items, n - 1, i);
    }
}

/// A name from the command line is taken without the white space around it; a
/// blank one is none, and the menu takes a terminal.
pub proof fn law_variant_is_named_or_chosen(
    lang: Lang,
    name: Option<&str>,
    interactive: bool,
    r: Result<Option<String>, String>,
)
    requires
        call_ensures(run_variant, (lang, name, interactive), r),
    ensures
        name is Some && trimmed(name->0@).len() > 0 ==> r is Ok && r->Ok_0 is Some && r->Ok_0->0@
            == trimmed(name->0@),
        name is None || trimmed(name->0@).len() == 0 ==> (r is Ok <==> interactive),
        (name is None || trimmed(name->0@).len() == 0) && interactive ==> r->Ok_0 is None,
{
}

} // verus!
