//! The models and the persona of a session: what is listed, marked and chosen.
use crate::footer::ModelChoice;
use crate::jobs::{opt_string, opt_text};
use crate::lang::{pick, t, Lang};
use crate::notes::{labelled, labelled_text};
use crate::text::{
    ascending, decimal, decimal_text, ends_in, ends_with, find_text, from_chars, lower, lowercase,
    occurs_at, same, same_ignoring_case, sorted_names, texts, to_chars, trim, trimmed,
};
use vstd::prelude::*;
use vstd::string::*;

verus! {

/// A model that can be chosen.
#[derive(Debug)]
pub struct ModelEntry {
    pub provider_id: String,
    pub model: String,
    /// How it is listed.
    pub label: String,
    /// It belongs to the global pool.
    pub active: bool,
}

/// A pool holds the model.
pub open spec fn in_pool(pool: Seq<ModelChoice>, provider: Seq<char>, model: Seq<char>) -> bool {
    exists|i: int|
        0 <= i < pool.len() && (#[trigger] pool[i]).provider_id@ == provider && pool[i].model@
            == model
}

fn pool_holds(pool: &Vec<ModelChoice>, provider: &str, model: &str) -> (r: bool)
    ensures
        r == in_pool(pool@, provider@, model@),
{
    let mut i: usize = 0;
    while i < pool.len()
        invariant
            i <= pool@.len(),
            forall|k: int|
                0 <= k < i ==> !((#[trigger] pool@[k]).provider_id@ == provider@ && pool@[k].model@
                    == model@),
        decreases pool@.len() - i,
    {
        if same(pool[i].provider_id.as_str(), provider) && same(pool[i].model.as_str(), model) {
            assert(pool@[i as int].provider_id@ == provider@);
            return true;
        }
        i = i + 1;
    }
    false
}

/// A model is marked where the session's own pool holds it, or the global one
/// where the session has none of its own.
pub open spec fn is_marked(entry: ModelEntry, pool: Option<Vec<ModelChoice>>) -> bool {
    match pool {
        Some(pool) => in_pool(pool@, entry.provider_id@, entry.model@),
        None => entry.active,
    }
}

fn marked(entry: &ModelEntry, pool: &Option<Vec<ModelChoice>>) -> (r: bool)
    ensures
        r == is_marked(*entry, *pool),
{
    match pool {
        Some(pool) => pool_holds(pool, entry.provider_id.as_str(), entry.model.as_str()),
        None => entry.active,
    }
}

/// The marks with which the menu opens.
pub fn initial_marks(choices: &Vec<ModelEntry>, pool: &Option<Vec<ModelChoice>>) -> (r: Vec<bool>)
    ensures
        r@ == choices@.map_values(|e: ModelEntry| is_marked(e, *pool)),
{
    let mut out: Vec<bool> = Vec::new();
    let mut i: usize = 0;
    while i < choices.len()
        invariant
            i <= choices@.len(),
            out@.len() == i,
            forall|k: int| 0 <= k < i ==> #[trigger] out@[k] == is_marked(choices@[k], *pool),
        decreases choices@.len() - i,
    {
        out.push(marked(&choices[i], pool));
        i = i + 1;
    }
    assert(out@ =~= choices@.map_values(|e: ModelEntry| is_marked(e, *pool)));
    out
}

/// A model by provider and name.
pub open spec fn choice_text(c: ModelChoice) -> (Seq<char>, Seq<char>) {
    (c.provider_id@, c.model@)
}

pub open spec fn choice_texts(v: Seq<ModelChoice>) -> Seq<(Seq<char>, Seq<char>)> {
    v.map_values(|c: ModelChoice| choice_text(c))
}

/// The models among the first `n` that are marked.
pub open spec fn marked_among(choices: Seq<ModelEntry>, marks: Seq<bool>, n: int) -> Seq<
    (Seq<char>, Seq<char>),
>
    decreases n,
{
    if n <= 0 {
        Seq::empty()
    } else {
        let before = marked_among(choices, marks, n - 1);
        if marks[n - 1] {
            before.push((choices[n - 1].provider_id@, choices[n - 1].model@))
        } else {
            before
        }
    }
}

fn chosen_models(choices: &Vec<ModelEntry>, marks: &Vec<bool>) -> (r: Vec<ModelChoice>)
    requires
        marks@.len() == choices@.len(),
    ensures
        choice_texts(r@) == marked_among(choices@, marks@, choices@.len() as int),
{
    let mut out: Vec<ModelChoice> = Vec::new();
    let mut i: usize = 0;
    assert(choice_texts(out@) =~= marked_among(choices@, marks@, 0));
    while i < choices.len()
        invariant
            i <= choices@.len(),
            marks@.len() == choices@.len(),
            choice_texts(out@) == marked_among(choices@, marks@, i as int),
        decreases choices@.len() - i,
    {
        if marks[i] {
            let ghost before = choice_texts(out@);
            let choice = ModelChoice {
                provider_id: choices[i].provider_id.clone(),
                model: choices[i].model.clone(),
            };
            out.push(choice);
            assert(choice_texts(out@) =~= before.push(choice_text(choice)));
        }
        i = i + 1;
    }
    out
}

pub open spec fn no_models(lang: Lang) -> Seq<char> {
    pick(
        lang,
        "no configured provider models; configure a model first"@,
        "没有已配置的 provider 模型；请先配置模型"@,
    )
}

/// What a request about the models of a session comes to.
#[derive(Debug)]
pub enum ModelsRequest {
    /// Follow the global pool again.
    FollowGlobal,
    /// The one model that the argument names.
    Named(String),
    Menu,
    List,
}

/// A request about the models of a session: an argument decides; without one
/// there is a menu at a terminal, and a list elsewhere.
pub fn run_models_for_session(
    lang: Lang,
    has_choices: bool,
    target: Option<&str>,
    interactive: bool,
) -> (r: Result<ModelsRequest, String>)
    ensures
        match r {
            Ok(request) => has_choices && match opt_text(target) {
                Some(target) => if lower(trimmed(target)) == lower("default"@) || lower(
                    trimmed(target),
                ) == lower("global"@) {
                    request is FollowGlobal
                } else {
                    request matches ModelsRequest::Named(name) && name@ == trimmed(target)
                },
                None => if interactive {
                    request is Menu
                } else {
                    request is List
                },
            },
            Err(note) => !has_choices && note@ == no_models(lang),
        },
{
    if !has_choices {
        return Err(
            t(
                lang,
                "no configured provider models; configure a model first",
                "没有已配置的 provider 模型；请先配置模型",
            ).to_owned(),
        );
    }
    match target {
        Some(target) => {
            let target = trim(target);
            if same_ignoring_case(target, "default") || same_ignoring_case(target, "global") {
                Ok(ModelsRequest::FollowGlobal)
            } else {
                Ok(ModelsRequest::Named(target.to_owned()))
            }
        },
        None => if interactive {
            Ok(ModelsRequest::Menu)
        } else {
            Ok(ModelsRequest::List)
        },
    }
}

pub open spec fn follows_global(lang: Lang) -> Seq<char> {
    pick(
        lang,
        "this session now follows the global active pool"@,
        "当前会话已恢复跟随全局激活模型池"@,
    )
}

pub fn follows_global_text(lang: Lang) -> (r: &'static str)
    ensures
        r@ == follows_global(lang),
{
    t(
        lang,
        "this session now follows the global active pool",
        "当前会话已恢复跟随全局激活模型池",
    )
}

/// What the menu of the models changes: the models to use, if they change, and
/// what is said of it.
pub fn models_picked(lang: Lang, choices: &Vec<ModelEntry>, initial: &Vec<bool>, marks: &Vec<bool>) -> (
    r: (Option<Vec<ModelChoice>>, &'static str))
    requires
        marks@.len() == choices@.len(),
        initial@.len() == choices@.len(),
    ensures
        if marks@ == initial@ {
            r.0 is None && r.1@ == pick(lang, "no changes"@, "未做修改"@)
        } else {
            let wanted = marked_among(choices@, marks@, choices@.len() as int);
            &&& r.0 matches Some(models) && choice_texts(models@) == wanted
            &&& r.1@ == if wanted.len() == 0 {
                follows_global(lang)
            } else {
                pick(lang, "session models updated"@, "已更新当前会话模型"@)
            }
        },
{
    let mut i: usize = 0;
    let mut changed: bool = false;
    while i < marks.len()
        invariant
            i <= marks@.len(),
            marks@.len() == initial@.len(),
            changed == (exists|k: int| 0 <= k < i && marks@[k] != #[trigger] initial@[k]),
        decreases marks@.len() - i,
    {
        if marks[i] != initial[i] {
            assert(marks@[i as int] != initial@[i as int]);
            changed = true;
        }
        i = i + 1;
    }
    if !changed {
        assert forall|k: int| 0 <= k < marks@.len() implies marks@[k] == initial@[k] by {
            assert(initial@[k] == initial@[k]);
        }
        assert(marks@ =~= initial@);
        return (None, t(lang, "no changes", "未做修改"));
    }
    let models = chosen_models(choices, marks);
    assert(choice_texts(models@).len() == models@.len());
    let note = if models.is_empty() {
        follows_global_text(lang)
    } else {
        t(lang, "session models updated", "已更新当前会话模型")
    };
    (Some(models), note)
}

/// A line of the list.
pub open spec fn model_line(entry: ModelEntry, pool: Option<Vec<ModelChoice>>, number: nat) -> Seq<char> {
    (if is_marked(entry, pool) {
        "[*]"@
    } else {
        "[ ]"@
    }) + " "@ + decimal(number) + ". "@ + entry.label@
}

pub open spec fn models_legend(lang: Lang, own: bool) -> Seq<char> {
    if own {
        pick(
            lang,
            "[*] = models pinned to the current session"@,
            "[*] = 当前会话固定使用的模型"@,
        )
    } else {
        pick(
            lang,
            "[*] = global active pool (the current session follows it)"@,
            "[*] = 全局激活模型池（当前会话跟随全局）"@,
        )
    }
}

/// The list, with what its marks mean.
pub open spec fn models_list(lang: Lang, choices: Seq<ModelEntry>, pool: Option<Vec<ModelChoice>>) -> Seq<
    Seq<char>,
> {
    Seq::new(choices.len(), |i: int| model_line(choices[i], pool, (i + 1) as nat)).push(
        models_legend(lang, pool is Some),
    )
}

pub fn print_model_choices(
    lang: Lang,
    choices: &Vec<ModelEntry>,
    pool: &Option<Vec<ModelChoice>>,
) -> (r: Vec<String>)
    ensures
        texts(r@) == models_list(lang, choices@, *pool),
{
    let mut out: Vec<String> = Vec::new();
    let n: usize = choices.len();
    let mut i: usize = 0;
    while i < n
        invariant
            i <= n,
            n == choices@.len(),
            out@.len() == i,
            forall|k: int|
                0 <= k < i ==> (#[trigger] out@[k])@ == model_line(
                    choices@[k],
                    *pool,
                    (k + 1) as nat,
                ),
        decreases n - i,
    {
        let number = decimal_text((i + 1) as u64);
        let mut line = (if marked(&choices[i], pool) {
            "[*]"
        } else {
            "[ ]"
        }).to_owned();
        line.append(" ");
        line.append(number.as_str());
        line.append(". ");
        line.append(choices[i].label.as_str());
        out.push(line);
        i = i + 1;
    }
    let legend = match pool {
        Some(_) => t(
            lang,
            "[*] = models pinned to the current session",
            "[*] = 当前会话固定使用的模型",
        ),
        None => t(
            lang,
            "[*] = global active pool (the current session follows it)",
            "[*] = 全局激活模型池（当前会话跟随全局）",
        ),
    };
    out.push(legend.to_owned());
    assert(texts(out@) =~= models_list(lang, choices@, *pool));
    out
}

/// The list with the way to switch behind it.
pub fn run_list_models(lang: Lang, choices: &Vec<ModelEntry>, pool: &Option<Vec<ModelChoice>>) -> (r:
    Result<Vec<String>, String>)
    ensures
        match r {
            Ok(lines) => choices@.len() > 0 && texts(lines@) == models_list(
                lang,
                choices@,
                *pool,
            ).push(
                pick(
                    lang,
                    "switch with: laozhou models <index|provider/model>; 'laozhou models default' follows the global pool"@,
                    "切换：laozhou models <序号|供应商/模型>；laozhou models default 恢复跟随全局模型池"@,
                ),
            ),
            Err(note) => choices@.len() == 0 && note@ == no_models(lang),
        },
{
    if choices.is_empty() {
        return Err(
            t(
                lang,
                "no configured provider models; configure a model first",
                "没有已配置的 provider 模型；请先配置模型",
            ).to_owned(),
        );
    }
    let mut out = print_model_choices(lang, choices, pool);
    let hint = t(
        lang,
        "switch with: laozhou models <index|provider/model>; 'laozhou models default' follows the global pool",
        "切换：laozhou models <序号|供应商/模型>；laozhou models default 恢复跟随全局模型池",
    ).to_owned();
    proof {
        crate::text::lemma_texts_push(out@, hint);
    }
    out.push(hint);
    Ok(out)
}

/// A choice has that provider and model.
pub open spec fn is_choice(choices: Seq<ModelEntry>, m: ModelChoice) -> bool {
    exists|k: int|
        0 <= k < choices.len() && (#[trigger] choices[k]).provider_id@ == m.provider_id@
            && choices[k].model@ == m.model@
}

fn known_choice(choices: &Vec<ModelEntry>, m: &ModelChoice) -> (r: bool)
    ensures
        r == is_choice(choices@, *m),
{
    let mut i: usize = 0;
    while i < choices.len()
        invariant
            i <= choices@.len(),
            forall|k: int|
                0 <= k < i ==> !((#[trigger] choices@[k]).provider_id@ == m.provider_id@
                    && choices@[k].model@ == m.model@),
        decreases choices@.len() - i,
    {
        if same(choices[i].provider_id.as_str(), m.provider_id.as_str()) && same(
            choices[i].model.as_str(),
            m.model.as_str(),
        ) {
            assert(choices@[i as int].provider_id@ == m.provider_id@);
            return true;
        }
        i = i + 1;
    }
    false
}

/// The pool that is stored for a session: nothing where it follows the global
/// one. A model that is not among the choices is refused.
pub fn set_session_models(lang: Lang, choices: &Vec<ModelEntry>, models: Vec<ModelChoice>) -> (r:
    Result<Option<Vec<ModelChoice>>, String>)
    ensures
        match r {
            Ok(pool) => {
                &&& forall|i: int| 0 <= i < models@.len() ==> is_choice(choices@, #[trigger] models@[i])
                &&& pool == if models@.len() == 0 {
                    None
                } else {
                    Some(models)
                }
            },
            Err(note) => exists|i: int|
                {
                    &&& 0 <= i < models@.len()
                    &&& !is_choice(choices@, #[trigger] models@[i])
                    &&& forall|k: int| 0 <= k < i ==> is_choice(choices@, #[trigger] models@[k])
                    &&& note@ == pick(lang, "unknown model: "@, "未知模型："@)
                        + models@[i].provider_id@ + "/"@ + models@[i].model@
                },
        },
{
    let mut i: usize = 0;
    while i < models.len()
        invariant
            i <= models@.len(),
            forall|k: int| 0 <= k < i ==> is_choice(choices@, #[trigger] models@[k]),
        decreases models@.len() - i,
    {
        let m = &models[i];
        if !known_choice(choices, m) {
            let mut note = t(lang, "unknown model: ", "未知模型：").to_owned();
            note.append(m.provider_id.as_str());
            note.append("/");
            note.append(m.model.as_str());
            assert(!is_choice(choices@, models@[i as int]));
            return Err(note);
        }
        i = i + 1;
    }
    if models.is_empty() {
        Ok(None)
    } else {
        Ok(Some(models))
    }
}

/// The session whose models are asked for: the one given, else the current one.
pub fn session_model_override_snapshot(session_id: Option<&str>, current: &str) -> (r: String)
    ensures
        r@ == match opt_text(session_id) {
            Some(id) => id,
            None => current@,
        },
{
    match session_id {
        Some(id) => id.to_owned(),
        None => current.to_owned(),
    }
}

/// The models that a session has of its own take the place of the global pool;
/// where they cannot be read, the pool stays, and that is worth a warning.
pub fn apply_session_model_override(
    active: &mut Option<Vec<ModelChoice>>,
    stored: Result<Option<Vec<ModelChoice>>, String>,
) -> (warn: bool)
    ensures
        *final(active) == match stored {
            Ok(Some(models)) => Some(models),
            _ => *old(active),
        },
        warn == (stored is Err),
{
    match stored {
        Ok(Some(models)) => {
            *active = Some(models);
            false
        },
        Ok(None) => false,
        Err(_) => true,
    }
}

/// The pool that the footer shows: the session's own where it has one.
pub fn footer_config_for_session(
    global: Option<Vec<ModelChoice>>,
    stored: Result<Option<Vec<ModelChoice>>, String>,
) -> (r: Option<Vec<ModelChoice>>)
    ensures
        r == match stored {
            Ok(Some(models)) => Some(models),
            _ => global,
        },
{
    match stored {
        Ok(Some(models)) => Some(models),
        _ => global,
    }
}

/// A file that holds a persona.
pub open spec fn is_persona_file(name: Seq<char>) -> bool {
    ends_in(name, ".md"@) && lower(name) != lower("system-prompt.md"@)
}

/// The names among the first `n` files that are personas.
pub open spec fn personas_among(names: Seq<Seq<char>>, n: int) -> Seq<Seq<char>>
    decreases n,
{
    if n <= 0 {
        Seq::empty()
    } else if is_persona_file(names[n - 1]) {
        personas_among(names, n - 1).push(names[n - 1])
    } else {
        personas_among(names, n - 1)
    }
}

/// The personas in a directory, sorted.
pub fn list_persona_files(files: &Vec<String>) -> (r: Vec<String>)
    ensures
        ascending(texts(r@)),
        texts(r@).to_multiset() == personas_among(
            texts(files@),
            files@.len() as int,
        ).to_multiset(),
{
    let mut out: Vec<String> = Vec::new();
    let mut i: usize = 0;
    assert(texts(out@) =~= personas_among(texts(files@), 0));
    while i < files.len()
        invariant
            i <= files@.len(),
            texts(out@) == personas_among(texts(files@), i as int),
        decreases files@.len() - i,
    {
        let name = files[i].as_str();
        assert(texts(files@)[i as int] == name@);
        if ends_with(name, ".md") && !same_ignoring_case(name, "system-prompt.md") {
            let copy = files[i].clone();
            proof {
                crate::text::lemma_texts_push(out@, copy);
            }
            out.push(copy);
        }
        i = i + 1;
    }
    sorted_names(out)
}

/// A name without the ending of a file of text, however often it stands there.
pub open spec fn without_md(name: Seq<char>) -> Seq<char>
    decreases name.len(),
{
    if ".md"@.len() > 0 && ends_in(name, ".md"@) {
        without_md(name.take(name.len() - ".md"@.len()))
    } else {
        name
    }
}

fn strip_md(name: &str) -> (r: String)
    ensures
        r@ == without_md(name@),
{
    let v = to_chars(name);
    let mut n: usize = v.len();
    proof {
        reveal_strlit(".md");
        assert(v@.take(n as int) =~= v@);
    }
    loop
        invariant
            n <= v@.len(),
            ".md"@.len() == 3,
            without_md(v@.take(n as int)) == without_md(name@),
        decreases n,
    {
        let current = from_chars(&v, 0, n);
        assert(current@ =~= v@.take(n as int));
        if !ends_with(current.as_str(), ".md") {
            return current;
        }
        assert(v@.take(n as int).take(n - 3) =~= v@.take(n - 3));
        n = n - 3;
    }
}

/// Text stands somewhere in another.
pub open spec fn stands_in(part: Seq<char>, whole: Seq<char>) -> bool {
    exists|at: int| #[trigger] occurs_at(whole, at, part)
}

/// A persona answers to its name, and to any part of it.
pub open spec fn persona_matches(name: Seq<char>, argument: Seq<char>) -> bool {
    lower(name) == lower(argument) || stands_in(without_md(lower(argument)), without_md(lower(name)))
}

/// The argument means the persona that is built in.
pub open spec fn means_default(argument: Seq<char>) -> bool {
    lower(argument) == lower("default"@) || lower(argument) == lower("laozhou"@) || argument
        == "内置"@
}

/// The persona that an argument names; the built-in one is the empty name.
pub fn persona_named(lang: Lang, personas: &Vec<String>, argument: &str) -> (r: Result<String, String>)
    ensures
        match r {
            Ok(name) => {
                ||| means_default(argument@) && name@.len() == 0
                ||| !means_default(argument@) && exists|i: int|
                    {
                        &&& 0 <= i < personas@.len()
                        &&& #[trigger] persona_matches(personas@[i]@, argument@)
                        &&& name@ == personas@[i]@
                        &&& forall|k: int|
                            0 <= k < i ==> !persona_matches(#[trigger] personas@[k]@, argument@)
                    }
            },
            Err(note) => {
                &&& !means_default(argument@)
                &&& forall|k: int|
                    0 <= k < personas@.len() ==> !persona_matches(
                        #[trigger] personas@[k]@,
                        argument@,
                    )
                &&& note@ == labelled(
                    pick(lang, "no persona file matches"@, "没有匹配的人格文件"@),
                    argument@,
                )
            },
        },
        (exists|k: int|
            0 <= k < personas@.len() && lower((#[trigger] personas@[k])@) == lower(argument@))
            ==> r is Ok,
{
    if same_ignoring_case(argument, "default") || same_ignoring_case(argument, "laozhou") || same(
        argument,
        "内置",
    ) {
        return Ok(String::new());
    }
    let lowered = lowercase(argument);
    let needle = strip_md(lowered.as_str());
    let mut i: usize = 0;
    while i < personas.len()
        invariant
            i <= personas@.len(),
            !means_default(argument@),
            needle@ == without_md(lower(argument@)),
            forall|k: int|
                0 <= k < i ==> !persona_matches(#[trigger] personas@[k]@, argument@),
        decreases personas@.len() - i,
    {
        let name = personas[i].as_str();
        let lowered_name = lowercase(name);
        let stem = strip_md(lowered_name.as_str());
        let chars = to_chars(stem.as_str());
        let part = find_text(&chars, 0, needle.as_str());
        proof {
            if let Some(at) = part {
                assert(occurs_at(stem@, at as int, needle@));
            }
        }
        if same_ignoring_case(name, argument) || part.is_some() {
            assert(persona_matches(personas@[i as int]@, argument@));
            return Ok(personas[i].clone());
        }
        i = i + 1;
    }
    Err(labelled_text(t(lang, "no persona file matches", "没有匹配的人格文件"), argument))
}

pub open spec fn default_persona(lang: Lang) -> Seq<char> {
    pick(lang, "Laozhou (built-in default)"@, "Laozhou（内置默认）"@)
}

/// How a persona is called.
pub open spec fn persona_label(lang: Lang, name: Seq<char>) -> Seq<char> {
    if name.len() == 0 {
        default_persona(lang)
    } else {
        name
    }
}

fn persona_label_text<'a>(lang: Lang, name: &'a str) -> (r: &'a str)
    ensures
        r@ == persona_label(lang, name@),
{
    if name.is_empty() {
        t(lang, "Laozhou (built-in default)", "Laozhou（内置默认）")
    } else {
        name
    }
}

/// The rows of the menu of personas, and where its focus starts: on the active
/// one, else on the built-in one.
pub fn persona_menu(lang: Lang, personas: &Vec<String>, current: &str) -> (r: (Vec<String>, usize))
    ensures
        texts(r.0@) == seq![default_persona(lang)] + texts(personas@),
        r.1 <= personas@.len(),
        r.1 > 0 ==> personas@[r.1 - 1]@ == current@ && forall|k: int|
            0 <= k < r.1 - 1 ==> (#[trigger] personas@[k])@ != current@,
        r.1 == 0 ==> current@.len() == 0 || forall|k: int|
            0 <= k < personas@.len() ==> (#[trigger] personas@[k])@ != current@,
        current@.len() == 0 ==> r.1 == 0,
{
    let mut items: Vec<String> = Vec::new();
    items.push(t(lang, "Laozhou (built-in default)", "Laozhou（内置默认）").to_owned());
    let mut initial: usize = 0;
    let n: usize = personas.len();
    let mut i: usize = 0;
    while i < n
        invariant
            i <= n,
            n == personas@.len(),
            items@.len() == i + 1,
            items@[0]@ == default_persona(lang),
            forall|k: int| 0 < k <= i ==> (#[trigger] items@[k])@ == personas@[k - 1]@,
            initial <= i,
            initial > 0 ==> personas@[initial - 1]@ == current@ && forall|k: int|
                0 <= k < initial - 1 ==> (#[trigger] personas@[k])@ != current@,
            initial == 0 ==> current@.len() == 0 || forall|k: int|
                0 <= k < i ==> (#[trigger] personas@[k])@ != current@,
            current@.len() == 0 ==> initial == 0,
        decreases n - i,
    {
        if initial == 0 && !current.is_empty() && same(personas[i].as_str(), current) {
            initial = i + 1;
        }
        items.push(personas[i].clone());
        i = i + 1;
    }
    assert(texts(items@) =~= seq![default_persona(lang)] + texts(personas@));
    (items, initial)
}

/// The persona that a row of the menu stands for.
pub fn persona_at(personas: &Vec<String>, row: usize) -> (r: Option<String>)
    ensures
        opt_string(r) == if row == 0 {
            Some(Seq::empty())
        } else if row <= personas@.len() {
            Some(personas@[row - 1]@)
        } else {
            None
        },
{
    if row == 0 {
        Some(String::new())
    } else if row <= personas.len() {
        Some(personas[row - 1].clone())
    } else {
        None
    }
}

/// The list of personas where there is no menu.
pub fn persona_listing(lang: Lang, personas: &Vec<String>, current: &str) -> (r: Vec<String>)
    ensures
        texts(r@) == seq![
            labelled(pick(lang, "current persona"@, "当前人格"@), persona_label(lang, current@)),
        ] + texts(personas@).map_values(|name: Seq<char>| "  "@ + name) + seq![
            pick(lang, "switch with: /persona <name>"@, "切换：/persona <名称>"@),
        ],
{
    let mut out: Vec<String> = Vec::new();
    out.push(
        labelled_text(t(lang, "current persona", "当前人格"), persona_label_text(lang, current)),
    );
    let n: usize = personas.len();
    let mut i: usize = 0;
    while i < n
        invariant
            i <= n,
            n == personas@.len(),
            out@.len() == i + 1,
            out@[0]@ == labelled(
                pick(lang, "current persona"@, "当前人格"@),
                persona_label(lang, current@),
            ),
            forall|k: int| 0 < k <= i ==> (#[trigger] out@[k])@ == "  "@ + personas@[k - 1]@,
        decreases n - i,
    {
        let mut line = "  ".to_owned();
        line.append(personas[i].as_str());
        out.push(line);
        i = i + 1;
    }
    out.push(t(lang, "switch with: /persona <name>", "切换：/persona <名称>").to_owned());
    assert(texts(out@) =~= seq![
        labelled(pick(lang, "current persona"@, "当前人格"@), persona_label(lang, current@)),
    ] + texts(personas@).map_values(|name: Seq<char>| "  "@ + name) + seq![
        pick(lang, "switch with: /persona <name>"@, "切换：/persona <名称>"@),
    ]);
    out
}

/// What choosing a persona comes to: whether it is stored, and what is said.
pub fn run_persona_picker(lang: Lang, current: &str, target: &str) -> (r: (bool, String))
    ensures
        r.0 == (target@ != current@),
        r.1@ == if target@ == current@ {
            pick(lang, "no changes"@, "未做修改"@)
        } else {
            labelled(pick(lang, "active persona"@, "当前人格"@), persona_label(lang, target@))
        },
{
    if same(target, current) {
        (false, t(lang, "no changes", "未做修改").to_owned())
    } else {
        (
            true,
            labelled_text(t(lang, "active persona", "当前人格"), persona_label_text(lang, target)),
        )
    }
}

/// Each model is marked that the session's own pool holds; without a pool of its
/// own, each that is in use for all.
pub proof fn law_marks_show_the_pool(
    choices: &Vec<ModelEntry>,
    pool: &Option<Vec<ModelChoice>>,
    r: Vec<bool>,
    i: int,
)
    requires
        call_ensures(initial_marks, (choices, pool), r),
        0 <= i < choices@.len(),
    ensures
        r@.len() == choices@.len(),
        *pool is None ==> r@[i] == choices@[i].active,
        *pool matches Some(own) ==> (r@[i] <==> exists|k: int|
            0 <= k < own@.len() && (#[trigger] own@[k]).provider_id@ == choices@[i].provider_id@
                && own@[k].model@ == choices@[i].model@),
{
}

/// The menu stores the models that are marked, in the order of the list, and
/// nothing where no mark changed.
pub proof fn law_menu_stores_the_marked_models(
    lang: Lang,
    choices: &Vec<ModelEntry>,
    initial: &Vec<bool>,
    marks: &Vec<bool>,
    r: (Option<Vec<ModelChoice>>, &'static str),
    i: int,
)
    requires
        call_ensures(models_picked, (lang, choices, initial, marks), r),
        marks@.len() == choices@.len(),
        0 <= i < choices@.len(),
    ensures
        r.0 is None <==> marks@ == initial@,
        r.0 matches Some(models) ==> (marks@[i] ==> in_pool(
            models@,
            choices@[i].provider_id@,
            choices@[i].model@,
        )),
        r.0 matches Some(models) ==> models@.len() <= choices@.len(),
        r.0 matches Some(models) ==> ((forall|k: int| 0 <= k < marks@.len() ==> !#[trigger] marks@[k])
            ==> models@.len() == 0 && r.1@ == pick(
            lang,
            "this session now follows the global active pool"@,
            "当前会话已恢复跟随全局激活模型池"@,
        )),
{
    if let Some(models) = r.0 {
        let n = choices@.len() as int;
        lemma_marked_among(choices@, marks@, n, i);
        let wanted = marked_among(choices@, marks@, n);
        assert(choice_texts(models@).len() == models@.len());
        if marks@[i] {
            let k = choose|k: int|
                0 <= k < wanted.len() && #[trigger] wanted[k] == (
                    choices@[i].provider_id@,
                    choices@[i].model@,
                );
            assert(choice_texts(models@)[k] == choice_text(models@[k]));
            assert(models@[k].provider_id@ == choices@[i].provider_id@);
        }
    }
}

proof fn lemma_marked_among(choices: Seq<ModelEntry>, marks: Seq<bool>, n: int, i: int)
    requires
        0 <= n <= choices.len(),
        marks.len() == choices.len(),
    ensures
        marked_among(choices, marks, n).len() <= n,
        0 <= i < n && marks[i] ==> exists|k: int|
            0 <= k < marked_among(choices, marks, n).len() && #[trigger] marked_among(
                choices,
                marks,
                n,
            )[k] == (choices[i].provider_id@, choices[i].model@),
        (forall|k: int| 0 <= k < marks.len() ==> !#[trigger] marks[k]) ==> marked_among(
            choices,
            marks,
            n,
        ).len() == 0,
    decreases n,
{
    if n > 0 {
        lemma_marked_among(choices, marks, n - 1, i);
        let before = marked_among(choices, marks, n - 1);
        let all = marked_among(choices, marks, n);
        if 0 <= i < n && marks[i] {
            if i == n - 1 {
                assert(all[before.len() as int] == (choices[i].provider_id@, choices[i].model@));
            } else {
                let k = choose|k: int|
                    0 <= k < before.len() && #[trigger] before[k] == (
                        choices[i].provider_id@,
                        choices[i].model@,
                    );
                assert(all[k] == before[k]);
            }
        }
    }
}

/// A request with a name is about that model; `default` and `global` follow the
/// pool of all; without a name there is a menu at a terminal and a list elsewhere.
pub proof fn law_model_requests(
    lang: Lang,
    has_choices: bool,
    target: Option<&str>,
    interactive: bool,
    r: Result<ModelsRequest, String>,
)
    requires
        call_ensures(run_models_for_session, (lang, has_choices, target, interactive), r),
    ensures
        r is Ok <==> has_choices,
        r is Ok && target is None ==> (r->Ok_0 is Menu <==> interactive) && (r->Ok_0 is List
            <==> !interactive),
        r is Ok && target is Some ==> (r->Ok_0 is FollowGlobal <==> lower(trimmed(target->0@))
            == lower("default"@) || lower(trimmed(target->0@)) == lower("global"@)),
        r is Ok && target is Some && !(r->Ok_0 is FollowGlobal) ==> r->Ok_0 is Named
            && r->Ok_0->Named_0@ == trimmed(target->0@),
{
}

/// The list has a numbered line for each model, with its mark, and says at its
/// end what the marks mean.
pub proof fn law_models_are_listed_with_their_marks(
    lang: Lang,
    choices: &Vec<ModelEntry>,
    pool: &Option<Vec<ModelChoice>>,
    r: Vec<String>,
    i: int,
)
    requires
        call_ensures(print_model_choices, (lang, choices, pool), r),
        0 <= i < choices@.len(),
    ensures
        r@.len() == choices@.len() + 1,
        is_marked(choices@[i], *pool) ==> r@[i]@ == "[*]"@ + " "@ + decimal((i + 1) as nat) + ". "@
            + choices@[i].label@,
        !is_marked(choices@[i], *pool) ==> r@[i]@ == "[ ]"@ + " "@ + decimal((i + 1) as nat) + ". "@
            + choices@[i].label@,
        *pool is Some ==> r@[choices@.len() as int]@ == pick(
            lang,
            "[*] = models pinned to the current session"@,
            "[*] = 当前会话固定使用的模型"@,
        ),
        *pool is None ==> r@[choices@.len() as int]@ == pick(
            lang,
            "[*] = global active pool (the current session follows it)"@,
            "[*] = 全局激活模型池（当前会话跟随全局）"@,
        ),
{
    assert(texts(r@).len() == r@.len());
    assert(texts(r@)[i] == r@[i]@);
    assert(texts(r@)[choices@.len() as int] == r@[choices@.len() as int]@);
}

/// A pool is stored as it was given where every model is known; an empty one
/// follows the pool of all.
pub proof fn law_pools_hold_known_models(
    lang: Lang,
    choices: &Vec<ModelEntry>,
    models: Vec<ModelChoice>,
    r: Result<Option<Vec<ModelChoice>>, String>,
    i: int,
)
    requires
        call_ensures(set_session_models, (lang, choices, models), r),
    ensures
        models@.len() == 0 ==> r == Ok::<Option<Vec<ModelChoice>>, String>(None),
        models@.len() > 0 && r is Ok ==> r->Ok_0 == Some(models),
        r is Ok && 0 <= i < models@.len() ==> exists|k: int|
            0 <= k < choices@.len() && (#[trigger] choices@[k]).provider_id@
                == models@[i].provider_id@ && choices@[k].model@ == models@[i].model@,
        (forall|j: int| 0 <= j < models@.len() ==> is_choice(choices@, #[trigger] models@[j]))
            ==> r is Ok,
{
    if r is Ok && 0 <= i < models@.len() {
        assert(is_choice(choices@, models@[i]));
    }
}

/// The models that are stored for a session go before those of all; where they
/// cannot be read, the others stay and there is a warning.
pub proof fn law_own_models_go_first(
    active: &mut Option<Vec<ModelChoice>>,
    stored: Result<Option<Vec<ModelChoice>>, String>,
    warn: bool,
    global: Option<Vec<ModelChoice>>,
    shown: Option<Vec<ModelChoice>>,
    id: Option<&str>,
    current: &str,
    asked: String,
)
    requires
        call_ensures(apply_session_model_override, (active, stored), warn),
        call_ensures(footer_config_for_session, (global, stored), shown),
        call_ensures(session_model_override_snapshot, (id, current), asked),
    ensures
        stored matches Ok(Some(models)) ==> *final(active) == Some(models) && shown == Some(models)
            && !warn,
        stored == Ok::<Option<Vec<ModelChoice>>, String>(None) ==> *final(active) == *old(active)
            && shown == global && !warn,
        stored is Err ==> *final(active) == *old(active) && shown == global && warn,
        id matches Some(given) ==> asked@ == given@,
        id is None ==> asked@ == current@,
{
}

/// A persona is a file of text, but for the prompt of the system; the list holds
/// each of them and nothing else.
pub proof fn law_personas_are_files_of_text(files: &Vec<String>, r: Vec<String>, i: int)
    requires
        call_ensures(list_persona_files, (files,), r),
    ensures
        0 <= i < files@.len() && is_persona_file(files@[i]@) ==> texts(r@).contains(files@[i]@),
        0 <= i < r@.len() ==> ends_in(r@[i]@, ".md"@) && lower(r@[i]@) != lower("system-prompt.md"@)
            && texts(files@).contains(r@[i]@),
        r@.len() <= files@.len(),
{
    broadcast use vstd::seq_lib::group_to_multiset_ensures;

    let n = files@.len() as int;
    let all = personas_among(texts(files@), n);
    lemma_personas_among(texts(files@), n);
    assert(texts(files@).len() == n);
    assert(texts(r@).len() == r@.len());
    assert(texts(r@).to_multiset().len() == all.to_multiset().len());
    if 0 <= i < n && is_persona_file(files@[i]@) {
        assert(texts(files@)[i] == files@[i]@);
        assert(all.contains(files@[i]@));
        assert(all.to_multiset().count(files@[i]@) > 0);
        assert(texts(r@).to_multiset().count(files@[i]@) > 0);
    }
    if 0 <= i < r@.len() {
        let name = r@[i]@;
        assert(texts(r@)[i] == name);
        assert(texts(r@).contains(name));
        assert(texts(r@).to_multiset().count(name) > 0);
        assert(all.to_multiset().count(name) > 0);
        assert(all.contains(name));
    }
}

proof fn lemma_personas_among(names: Seq<Seq<char>>, n: int)
    requires
        0 <= n <= names.len(),
    ensures
        forall|k: int|
            0 <= k < n && is_persona_file(#[trigger] names[k]) ==> personas_among(
                names,
                n,
            ).contains(names[k]),
        forall|name: Seq<char>|
            #[trigger] personas_among(names, n).contains(name) ==> is_persona_file(name)
                && names.contains(name),
        personas_among(names, n).len() <= n,
    decreases n,
{
    if n > 0 {
        lemma_personas_among(names, n - 1);
        let before = personas_among(names, n - 1);
        let all = personas_among(names, n);
        assert forall|k: int| 0 <= k < n && is_persona_file(#[trigger] names[k]) implies all.contains(
            names[k],
        ) by {
            if k == n - 1 {
                assert(all[before.len() as int] == names[k]);
            } else {
                assert(before.contains(names[k]));
                let at = choose|at: int| 0 <= at < before.len() && before[at] == names[k];
                assert(all[at] == names[k]);
            }
        }
        assert forall|name: Seq<char>| #[trigger] all.contains(name) implies is_persona_file(name)
            && names.contains(name) by {
            let at = choose|at: int| 0 <= at < all.len() && all[at] == name;
            if at < before.len() {
                assert(before[at] == name);
                assert(before.contains(name));
            } else {
                assert(name == names[n - 1]);
            }
        }
    }
}

/// A persona answers to its own name in whatever case, and to a part of it; it
/// answers to nothing that does not stand in its name.
pub proof fn law_personas_match_by_name(name: Seq<char>, argument: Seq<char>)
    ensures
        lower(name) == lower(argument) ==> persona_matches(name, argument),
        persona_matches(name, argument) && lower(name) != lower(argument) ==> exists|at: int|
            #[trigger] occurs_at(without_md(lower(name)), at, without_md(lower(argument))),
{
}

/// The built-in persona answers to three names and is stored as the empty one; any
/// other that is named is among the personas.
pub proof fn law_personas_answer_to_their_names(
    lang: Lang,
    personas: &Vec<String>,
    argument: &str,
    r: Result<String, String>,
)
    requires
        call_ensures(persona_named, (lang, personas, argument), r),
    ensures
        lower(argument@) == lower("default"@) || lower(argument@) == lower("laozhou"@) || argument@
            == "内置"@ ==> r is Ok && r->Ok_0@.len() == 0,
        r is Ok && r->Ok_0@.len() > 0 ==> exists|k: int|
            0 <= k < personas@.len() && (#[trigger] personas@[k])@ == r->Ok_0@,
        r is Err ==> r->Err_0@ == labelled(
            pick(lang, "no persona file matches"@, "没有匹配的人格文件"@),
            argument@,
        ),
{
}

/// The menu of personas has the built-in one first and the others behind it in
/// their order; a row stands for what it shows.
pub proof fn law_persona_menu_rows(
    lang: Lang,
    personas: &Vec<String>,
    current: &str,
    r: (Vec<String>, usize),
    row: usize,
    chosen: Option<String>,
)
    requires
        call_ensures(persona_menu, (lang, personas, current), r),
        call_ensures(persona_at, (personas, row), chosen),
    ensures
        r.0@.len() == personas@.len() + 1,
        chosen is Some <==> row <= personas@.len(),
        row == 0 ==> chosen->0@.len() == 0,
        0 < row <= personas@.len() ==> chosen->0@ == personas@[row - 1]@ && r.0@[row as int]@
            == personas@[row - 1]@,
        r.1 > 0 ==> r.0@[r.1 as int]@ == current@,
{
    assert(texts(r.0@).len() == r.0@.len());
    assert(texts(personas@).len() == personas@.len());
    if 0 < row <= personas@.len() {
        assert(texts(r.0@)[row as int] == r.0@[row as int]@);
        assert(texts(personas@)[row - 1] == personas@[row - 1]@);
    }
    if r.1 > 0 {
        assert(texts(r.0@)[r.1 as int] == r.0@[r.1 as int]@);
        assert(texts(personas@)[r.1 - 1] == personas@[r.1 - 1]@);
    }
}

/// Without a menu the personas are listed between the one in use and the way to
/// switch.
pub proof fn law_personas_are_listed(lang: Lang, personas: &Vec<String>, current: &str, r: Vec<String>, i: int)
    requires
        call_ensures(persona_listing, (lang, personas, current), r),
    ensures
        r@.len() == personas@.len() + 2,
        current@.len() > 0 ==> r@[0]@ == labelled(
            pick(lang, "current persona"@, "当前人格"@),
            current@,
        ),
        0 <= i < personas@.len() ==> r@[i + 1]@ == "  "@ + personas@[i]@,
{
    assert(texts(r@).len() == r@.len());
    assert(texts(personas@).len() == personas@.len());
    assert(texts(r@)[0] == r@[0]@);
    if 0 <= i < personas@.len() {
        assert(texts(r@)[i + 1] == r@[i + 1]@);
        assert(texts(personas@)[i] == personas@[i]@);
    }
}

/// A persona is stored where it is another one, and then named.
pub proof fn law_other_personas_are_stored(lang: Lang, current: &str, target: &str, r: (bool, String))
    requires
        call_ensures(run_persona_picker, (lang, current, target), r),
    ensures
        r.0 <==> target@ != current@,
        !r.0 ==> r.1@ == pick(lang, "no changes"@, "未做修改"@),
        r.0 && target@.len() > 0 ==> r.1@ == labelled(
            pick(lang, "active persona"@, "当前人格"@),
            target@,
        ),
        r.0 && target@.len() == 0 ==> r.1@ == labelled(
            pick(lang, "active persona"@, "当前人格"@),
            pick(lang, "Laozhou (built-in default)"@, "Laozhou（内置默认）"@),
        ),
{
}

} // verus!
