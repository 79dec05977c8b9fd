//! The values that the daemon attaches to its frames.
use crate::text::{same, texts, trim, trimmed};
use vstd::prelude::*;
use vstd::string::*;

verus! {

/// A JSON value. Numbers are kept as far as the interface reads them.
#[derive(Debug)]
pub enum Json {
    Null,
    Bool(bool),
    Unsigned(u64),
    Negative(i64),
    /// A number that is not whole or does not fit.
    OtherNumber,
    Text(String),
    Array(Vec<Json>),
    Object(Vec<(String, Json)>),
}

/// The value of the first entry with that key.
pub open spec fn entry_named(entries: Seq<(String, Json)>, key: Seq<char>) -> Option<Json>
    decreases entries.len(),
{
    if entries.len() == 0 {
        None
    } else if entries[0].0@ == key {
        Some(entries[0].1)
    } else {
        entry_named(entries.drop_first(), key)
    }
}

/// A member of an object; nothing where the value is no object or lacks it.
pub open spec fn member(value: Json, key: Seq<char>) -> Option<Json> {
    match value {
        Json::Object(entries) => entry_named(entries@, key),
        _ => None,
    }
}

/// A text member; empty where there is none.
pub open spec fn text_member(value: Json, key: Seq<char>) -> Seq<char> {
    match member(value, key) {
        Some(Json::Text(text)) => text@,
        _ => Seq::empty(),
    }
}

/// A truth value; false where there is none.
pub open spec fn flag_member(value: Json, key: Seq<char>) -> bool {
    member(value, key) == Some(Json::Bool(true))
}

/// A number that is not negative.
pub open spec fn count_member(value: Json, key: Seq<char>) -> Option<u64> {
    match member(value, key) {
        Some(Json::Unsigned(n)) => Some(n),
        _ => None,
    }
}

/// The texts among the elements of an array.
pub open spec fn texts_among(values: Seq<Json>, n: int) -> Seq<Seq<char>>
    decreases n,
{
    if n <= 0 {
        Seq::empty()
    } else {
        match values[n - 1] {
            Json::Text(text) => texts_among(values, n - 1).push(text@),
            _ => texts_among(values, n - 1),
        }
    }
}

/// The texts in an array member; none where there is no such member.
pub open spec fn text_list_member(value: Json, key: Seq<char>) -> Seq<Seq<char>> {
    match member(value, key) {
        Some(Json::Array(values)) => texts_among(values@, values@.len() as int),
        _ => Seq::empty(),
    }
}

impl Json {
    pub fn get(&self, key: &str) -> (r: Option<&Json>)
        ensures
            match (r, member(*self, key@)) {
                (Some(a), Some(b)) => *a == b,
                (None, None) => true,
                _ => false,
            },
    {
        match self {
            Json::Object(entries) => {
                let mut i: usize = 0;
                assert(entries@.skip(0) =~= entries@);
                while i < entries.len()
                    invariant
                        i <= entries@.len(),
                        *self == Json::Object(*entries),
                        entry_named(entries@, key@) == entry_named(
                            entries@.skip(i as int),
                            key@,
                        ),
                    decreases entries@.len() - i,
                {
                    assert(entries@.skip(i as int)[0] == entries@[i as int]);
                    assert(entries@.skip(i as int).drop_first() =~= entries@.skip(i + 1));
                    if same(entries[i].0.as_str(), key) {
                        return Some(&entries[i].1);
                    }
                    i = i + 1;
                }
                None
            },
            _ => None,
        }
    }

    pub fn text(&self, key: &str) -> (r: &str)
        ensures
            r@ == text_member(*self, key@),
    {
        proof {
            reveal_strlit("");
            assert(""@ =~= Seq::<char>::empty());
        }
        match self.get(key) {
            Some(Json::Text(text)) => text.as_str(),
            _ => "",
        }
    }

    pub fn flag(&self, key: &str) -> (r: bool)
        ensures
            r == flag_member(*self, key@),
    {
        match self.get(key) {
            Some(Json::Bool(b)) => *b,
            _ => false,
        }
    }

    pub fn count(&self, key: &str) -> (r: Option<u64>)
        ensures
            r == count_member(*self, key@),
    {
        match self.get(key) {
            Some(Json::Unsigned(n)) => Some(*n),
            _ => None,
        }
    }

    /// A text member, if there is one.
    pub fn opt_text(&self, key: &str) -> (r: Option<String>)
        ensures
            match (r, member(*self, key@)) {
                (Some(a), Some(Json::Text(b))) => a@ == b@,
                (Some(_), _) => false,
                (None, Some(Json::Text(_))) => false,
                (None, _) => true,
            },
    {
        match self.get(key) {
            Some(Json::Text(text)) => Some(text.clone()),
            _ => None,
        }
    }

    pub fn text_list(&self, key: &str) -> (r: Vec<String>)
        ensures
            texts(r@) == text_list_member(*self, key@),
    {
        let mut out: Vec<String> = Vec::new();
        assert(texts(out@) =~= Seq::empty());
        if let Some(Json::Array(values)) = self.get(key) {
            let mut i: usize = 0;
            while i < values.len()
                invariant
                    i <= values@.len(),
                    texts(out@) == texts_among(values@, i as int),
                decreases values@.len() - i,
            {
                if let Json::Text(text) = &values[i] {
                    let entry = text.clone();
                    proof {
                        crate::text::lemma_texts_push(out@, entry);
                    }
                    out.push(entry);
                }
                i = i + 1;
            }
        }
        out
    }
}

pub fn ipc_text<'a>(data: &'a Json, key: &str) -> (r: &'a str)
    ensures
        r@ == text_member(*data, key@),
{
    data.text(key)
}

/// The picture that an event of a tool speaks of; an identity of nothing but
/// white space is none.
pub open spec fn image_asset(event: Json) -> Option<Seq<char>> {
    match member(event, "asset"@) {
        Some(asset) => {
            let id = text_member(asset, "id"@);
            if trimmed(id).len() == 0 {
                None
            } else {
                Some(id)
            }
        },
        None => None,
    }
}

pub fn remote_tool_image_asset_id<'a>(event: &'a Json) -> (r: Option<&'a str>)
    ensures
        match (r, image_asset(*event)) {
            (Some(a), Some(b)) => a@ == b,
            (None, None) => true,
            _ => false,
        },
{
    match event.get("asset") {
        Some(asset) => {
            let id = asset.text("id");
            if trim(id).is_empty() {
                None
            } else {
                Some(id)
            }
        },
        None => None,
    }
}

/// Looking a key up in an object gives the value of its first entry with that
/// key, and nothing where no entry has it.
pub proof fn law_member_is_the_first_entry(entries: Vec<(String, Json)>, key: Seq<char>, i: int)
    requires
        0 <= i <= entries@.len(),
        forall|j: int| 0 <= j < i ==> (#[trigger] entries@[j]).0@ != key,
    ensures
        i < entries@.len() && entries@[i].0@ == key ==> member(Json::Object(entries), key) == Some(
            entries@[i].1,
        ),
        i == entries@.len() ==> member(Json::Object(entries), key) is None,
{
    lemma_entry_named(entries@, key, i);
}

proof fn lemma_entry_named(entries: Seq<(String, Json)>, key: Seq<char>, i: int)
    requires
        0 <= i <= entries.len(),
        forall|j: int| 0 <= j < i ==> (#[trigger] entries[j]).0@ != key,
    ensures
        i < entries.len() && entries[i].0@ == key ==> entry_named(entries, key) == Some(
            entries[i].1,
        ),
        i == entries.len() ==> entry_named(entries, key) is None,
    decreases entries.len(),
{
    if i > 0 {
        assert(entries[0].0@ != key);
        let rest = entries.drop_first();
        assert forall|j: int| 0 <= j < i - 1 implies (#[trigger] rest[j]).0@ != key by {
            assert(rest[j] == entries[j + 1]);
        }
        lemma_entry_named(rest, key, i - 1);
    }
}

/// What is no object has no members.
pub proof fn law_only_objects_have_members(value: Json, key: Seq<char>)
    requires
        !(value is Object),
    ensures
        member(value, key) is None,
{
}

/// Each reader of a member gives what stands there where it is of the reader's
/// kind, and its own nothing otherwise.
pub proof fn law_members_are_read_by_kind(value: &Json, key: &str, text: &str, flag: bool, count: Option<u64>)
    requires
        call_ensures(Json::text, (value, key), text),
        call_ensures(Json::flag, (value, key), flag),
        call_ensures(Json::count, (value, key), count),
    ensures
        member(*value, key@) matches Some(Json::Text(t)) ==> text@ == t@ && !flag && count is None,
        member(*value, key@) matches Some(Json::Bool(b)) ==> text@.len() == 0 && flag == b
            && count is None,
        member(*value, key@) matches Some(Json::Unsigned(n)) ==> text@.len() == 0 && !flag
            && count == Some(n),
        member(*value, key@) is None ==> text@.len() == 0 && !flag && count is None,
{
}

/// A list of texts keeps the texts of the array in their order: one more element
/// adds itself where it is a text, and nothing otherwise.
pub proof fn law_text_lists_grow_by_texts(values: Seq<Json>, next: Json)
    ensures
        texts_among(Seq::empty(), 0).len() == 0,
        next matches Json::Text(t) ==> texts_among(values.push(next), (values.len() + 1) as int)
            == texts_among(values, values.len() as int).push(t@),
        !(next is Text) ==> texts_among(values.push(next), (values.len() + 1) as int) == texts_among(
            values,
            values.len() as int,
        ),
{
    lemma_texts_among_prefix(values.push(next), values, values.len() as int);
}

proof fn lemma_texts_among_prefix(a: Seq<Json>, b: Seq<Json>, n: int)
    requires
        n <= a.len(),
        n <= b.len(),
        forall|i: int| 0 <= i < n ==> a[i] == b[i],
    ensures
        texts_among(a, n) == texts_among(b, n),
    decreases n,
{
    if n > 0 {
        lemma_texts_among_prefix(a, b, n - 1);
    }
}

/// The picture of an event is the text under `asset`, `id`, unless that is blank.
pub proof fn law_picture_is_named_by_its_asset(event: &Json, asset: Json, r: Option<&str>)
    requires
        call_ensures(remote_tool_image_asset_id, (event,), r),
    ensures
        member(*event, "asset"@) is None ==> r is None,
        member(*event, "asset"@) == Some(asset) ==> match member(asset, "id"@) {
            Some(Json::Text(id)) => match r {
                Some(found) => found@ == id@ && trimmed(id@).len() > 0,
                None => trimmed(id@).len() == 0,
            },
            _ => r is None,
        },
{
    lemma_blank_is_blank();
}

proof fn lemma_blank_is_blank()
    ensures
        trimmed(Seq::<char>::empty()).len() == 0,
{
}

} // verus!
