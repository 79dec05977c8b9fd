//! Skills: which names can be one, and what is listed of them.
use crate::lang::{pick, t, Lang};
use crate::notes::{labelled, labelled_text};
use crate::text::{same, sorted_names, ascending, texts, to_chars, trim, trimmed};
use vstd::prelude::*;
use vstd::string::*;

verus! {

/// A name that stays inside the directory of skills.
pub open spec fn is_skill_name(name: Seq<char>) -> bool {
    &&& name.len() > 0
    &&& !name.contains('/')
    &&& !name.contains('\\')
    &&& name != "."@
    &&& name != ".."@
}

fn skill_name_ok(name: &str) -> (r: bool)
    ensures
        r == is_skill_name(name@),
{
    if name.is_empty() || same(name, ".") || same(name, "..") {
        return false;
    }
    let v = to_chars(name);
    let mut i: usize = 0;
    while i < v.len()
        invariant
            i <= v@.len(),
            v@ == name@,
            forall|k: int| 0 <= k < i ==> #[trigger] v@[k] != '/' && v@[k] != '\\',
        decreases v@.len() - i,
    {
        if v[i] == '/' || v[i] == '\\' {
            assert(name@.contains(v@[i as int]));
            return false;
        }
        i = i + 1;
    }
    true
}

/// The directory of a skill, by its name alone, or why there is none: `found`
/// says whether a skill of that name was found.
pub fn skill_dir(lang: Lang, name: &str, found: bool) -> (r: Result<String, String>)
    ensures
        match r {
            Ok(dir) => is_skill_name(trimmed(name@)) && found && dir@ == trimmed(name@),
            Err(note) => {
                ||| !is_skill_name(trimmed(name@)) && note@ == labelled(
                    pick(lang, "invalid skill name"@, "无效 skill 名称"@),
                    name@,
                )
                ||| is_skill_name(trimmed(name@)) && !found && note@ == labelled(
                    pick(lang, "skill not found"@, "未找到 skill"@),
                    name@,
                )
            },
        },
{
    let clean = trim(name);
    if !skill_name_ok(clean) {
        return Err(labelled_text(t(lang, "invalid skill name", "无效 skill 名称"), name));
    }
    if !found {
        return Err(labelled_text(t(lang, "skill not found", "未找到 skill"), name));
    }
    Ok(clean.to_owned())
}

/// An entry of the directory of skills.
#[derive(Debug)]
pub struct SkillEntry {
    pub name: String,
    /// It is a directory with a description of a skill.
    pub is_skill: bool,
}

/// The names of the skills among the first `n` entries.
pub open spec fn skills_among(entries: Seq<SkillEntry>, n: int) -> Seq<Seq<char>>
    decreases n,
{
    if n <= 0 {
        Seq::empty()
    } else if entries[n - 1].is_skill {
        skills_among(entries, n - 1).push(entries[n - 1].name@)
    } else {
        skills_among(entries, n - 1)
    }
}

/// The names of the skills, sorted.
pub fn skill_names(entries: &Vec<SkillEntry>) -> (r: Vec<String>)
    ensures
        ascending(texts(r@)),
        texts(r@).to_multiset() == skills_among(entries@, entries@.len() as int).to_multiset(),
{
    let mut out: Vec<String> = Vec::new();
    let mut i: usize = 0;
    assert(texts(out@) =~= skills_among(entries@, 0));
    while i < entries.len()
        invariant
            i <= entries@.len(),
            texts(out@) == skills_among(entries@, i as int),
        decreases entries@.len() - i,
    {
        if entries[i].is_skill {
            let name = entries[i].name.clone();
            proof {
                crate::text::lemma_texts_push(out@, name);
            }
            out.push(name);
        }
        i = i + 1;
    }
    sorted_names(out)
}

/// A skill in the list.
pub fn skill_line(lang: Lang, name: &str, disabled: bool) -> (r: String)
    ensures
        r@ == name@ + if disabled {
            pick(lang, " [disabled]"@, " [已禁用]"@)
        } else {
            Seq::empty()
        },
{
    let mut r = name.to_owned();
    if disabled {
        r.append(t(lang, " [disabled]", " [已禁用]"));
    }
    assert(r@ =~= name@ + if disabled {
        pick(lang, " [disabled]"@, " [已禁用]"@)
    } else {
        Seq::empty()
    });
    r
}

/// How many of the first `n` are set.
pub open spec fn set_among(marks: Seq<bool>, n: int) -> nat
    decreases n,
{
    if n <= 0 {
        0
    } else {
        set_among(marks, n - 1) + if marks[n - 1] {
            1nat
        } else {
            0
        }
    }
}

/// How many skills there are, switched off, and in use.
#[derive(Clone, Copy, Debug, PartialEq, Eq, Structural)]
pub struct SkillStats {
    pub skills: usize,
    pub disabled: usize,
    pub enabled: usize,
}

pub fn skill_stats(disabled: &Vec<bool>) -> (r: SkillStats)
    ensures
        r.skills == disabled@.len(),
        r.disabled == set_among(disabled@, disabled@.len() as int),
        r.enabled + r.disabled == r.skills,
{
    let mut count: usize = 0;
    let n: usize = disabled.len();
    let mut i: usize = 0;
    while i < n
        invariant
            i <= n,
            n == disabled@.len(),
            count <= i,
            count == set_among(disabled@, i as int),
        decreases n - i,
    {
        if disabled[i] {
            count = count + 1;
        }
        i = i + 1;
    }
    SkillStats { skills: n, disabled: count, enabled: n.saturating_sub(count) }
}

/// A skill is cleared away where it was generated and is switched off.
pub fn is_pruned(generated: bool, disabled: bool) -> (r: bool)
    ensures
        r == (generated && disabled),
{
    generated && disabled
}

/// A skill is found by its name without the white space around it; a name that
/// leads out of the directory is refused before anything is looked for.
pub proof fn law_skills_stay_in_their_directory(lang: Lang, name: &str, found: bool, r: Result<String, String>)
    requires
        call_ensures(skill_dir, (lang, name, found), r),
    ensures
        r is Ok ==> found && r->Ok_0@ == trimmed(name@) && r->Ok_0@.len() > 0
            && !r->Ok_0@.contains('/') && !r->Ok_0@.contains('\\') && r->Ok_0@ != "."@ && r->Ok_0@
            != ".."@,
        trimmed(name@).contains('/') || trimmed(name@).contains('\\') || trimmed(name@).len() == 0
            || trimmed(name@) == "."@ || trimmed(name@) == ".."@ ==> r is Err && r->Err_0@
            == labelled(pick(lang, "invalid skill name"@, "无效 skill 名称"@), name@),
        !found ==> r is Err,
        found && trimmed(name@).len() > 0 && !trimmed(name@).contains('/') && !trimmed(
            name@,
        ).contains('\\') && trimmed(name@) != "."@ && trimmed(name@) != ".."@ ==> r is Ok,
{
}

/// Every skill of the directory is listed, and nothing that is none.
pub proof fn law_every_skill_is_listed(entries: &Vec<SkillEntry>, r: Vec<String>, i: int)
    requires
        call_ensures(skill_names, (entries,), r),
    ensures
        0 <= i < entries@.len() && entries@[i].is_skill ==> texts(r@).contains(entries@[i].name@),
        0 <= i < r@.len() ==> exists|k: int|
            0 <= k < entries@.len() && (#[trigger] entries@[k]).is_skill && entries@[k].name@
                == r@[i]@,
        r@.len() <= entries@.len(),
{
    broadcast use vstd::seq_lib::group_to_multiset_ensures;

    let n = entries@.len() as int;
    let all = skills_among(entries@, n);
    lemma_skills_among(entries@, n);
    assert(texts(r@).len() == r@.len());
    assert(texts(r@).to_multiset().len() == all.to_multiset().len());
    if 0 <= i < n && entries@[i].is_skill {
        assert(all.contains(entries@[i].name@));
        assert(all.to_multiset().count(entries@[i].name@) > 0);
    }
    if 0 <= i < r@.len() {
        let name = r@[i]@;
        assert(texts(r@)[i] == name);
        assert(texts(r@).contains(name));
        assert(texts(r@).to_multiset().count(name) > 0);
        assert(all.to_multiset().count(name) > 0);
        assert(all.contains(name));
    }
}

proof fn lemma_skills_among(entries: Seq<SkillEntry>, n: int)
    requires
        0 <= n <= entries.len(),
    ensures
        forall|k: int|
            0 <= k < n && (#[trigger] entries[k]).is_skill ==> skills_among(entries, n).contains(
                entries[k].name@,
            ),
        forall|name: Seq<char>|
            #[trigger] skills_among(entries, n).contains(name) ==> exists|k: int|
                0 <= k < entries.len() && (#[trigger] entries[k]).is_skill && entries[k].name@
                    == name,
        skills_among(entries, n).len() <= n,
    decreases n,
{
    if n > 0 {
        lemma_skills_among(entries, n - 1);
        let before = skills_among(entries, n - 1);
        let all = skills_among(entries, n);
        assert forall|k: int| 0 <= k < n && (#[trigger] entries[k]).is_skill implies all.contains(
            entries[k].name@,
        ) by {
            if k == n - 1 {
                assert(all[before.len() as int] == entries[k].name@);
            } else {
                let at = choose|at: int| 0 <= at < before.len() && before[at] == entries[k].name@;
                assert(all[at] == entries[k].name@);
            }
        }
        assert forall|name: Seq<char>| #[trigger] all.contains(name) implies exists|k: int|
            0 <= k < entries.len() && (#[trigger] entries[k]).is_skill && entries[k].name@ == name by {
            let at = choose|at: int| 0 <= at < all.len() && all[at] == name;
            if at < before.len() {
                assert(before[at] == name);
                assert(before.contains(name));
            } else {
                assert(entries[n - 1].is_skill && entries[n - 1].name@ == name);
            }
        }
    }
}

/// A skill that is switched off is marked; what is switched off and what is in use
/// make all of them; only a generated skill that is switched off is cleared away.
pub proof fn law_switched_off_skills(
    lang: Lang,
    name: &str,
    off: bool,
    line: String,
    marks: &Vec<bool>,
    stats: SkillStats,
    generated: bool,
    pruned: bool,
)
    requires
        call_ensures(skill_line, (lang, name, off), line),
        call_ensures(skill_stats, (marks,), stats),
        call_ensures(is_pruned, (generated, off), pruned),
    ensures
        !off ==> line@ == name@,
        off ==> line@ == name@ + pick(lang, " [disabled]"@, " [已禁用]"@),
        stats.skills == marks@.len(),
        stats.enabled + stats.disabled == stats.skills,
        (forall|i: int| 0 <= i < marks@.len() ==> #[trigger] marks@[i]) ==> stats.enabled == 0,
        (forall|i: int| 0 <= i < marks@.len() ==> !#[trigger] marks@[i]) ==> stats.disabled == 0,
        pruned <==> generated && off,
{
    lemma_set_among(marks@, marks@.len() as int);
    if !off {
        assert(line@ =~= name@);
    }
}

proof fn lemma_set_among(marks: Seq<bool>, n: int)
    requires
        0 <= n <= marks.len(),
    ensures
        (forall|i: int| 0 <= i < marks.len() ==> #[trigger] marks[i]) ==> set_among(marks, n) == n,
        (forall|i: int| 0 <= i < marks.len() ==> !#[trigger] marks[i]) ==> set_among(marks, n) == 0,
    decreases n,
{
    if n > 0 {
        lemma_set_among(marks, n - 1);
    }
}

} // verus!
