//! The two languages of the interface.
use vstd::prelude::*;

verus! {

#[derive(Clone, Copy, Debug, PartialEq, Eq, Structural)]
pub enum Lang {
    En,
    Zh,
}

/// The text of the two that belongs to the language.
pub open spec fn pick(lang: Lang, en: Seq<char>, zh: Seq<char>) -> Seq<char> {
    match lang {
        Lang::En => en,
        Lang::Zh => zh,
    }
}

pub fn t<'a>(lang: Lang, en: &'a str, zh: &'a str) -> (r: &'a str)
    ensures
        r@ == pick(lang, en@, zh@),
{
    match lang {
        Lang::En => en,
        Lang::Zh => zh,
    }
}

/// Each language has its own text.
pub proof fn law_each_language_has_its_text(lang: Lang, en: &str, zh: &str, r: &str)
    requires
        call_ensures(t, (lang, en, zh), r),
    ensures
        lang is En ==> r@ == en@,
        lang is Zh ==> r@ == zh@,
{
}

} // verus!
