//! JSON values and their mathematical model.

use vstd::prelude::*;

use crate::text::text_eq;

verus! {

/// The mathematical model of a JSON value.
pub enum Json {
    Null,
    Bool(bool),
    /// A number, as its JSON text.
    Number(Seq<char>),
    Str(Seq<char>),
    Array(Seq<Json>),
    /// Object members, in order.
    Object(Seq<(Seq<char>, Json)>),
}

/// A JSON value. An object keeps its members in the order in which they were
/// given; a lookup by key finds the first member with that key.
#[derive(Debug, PartialEq)]
pub enum JsonValue {
    Null,
    Bool(bool),
    /// A number, kept as its JSON text (`42`, `-0.5`, `1e3`).
    Number(String),
    String(String),
    Array(Vec<JsonValue>),
    Object(Vec<(String, JsonValue)>),
}

/// The model of a value.
pub open spec fn json_view(v: JsonValue) -> Json
    decreases v,
{
    match v {
        JsonValue::Null => Json::Null,
        JsonValue::Bool(b) => Json::Bool(b),
        JsonValue::Number(n) => Json::Number(n@),
        JsonValue::String(s) => Json::Str(s@),
        JsonValue::Array(items) => Json::Array(items_view(items@)),
        JsonValue::Object(members) => Json::Object(members_view(members@)),
    }
}

/// The models of the elements of an array.
pub open spec fn items_view(s: Seq<JsonValue>) -> Seq<Json>
    decreases s,
{
    if s.len() == 0 {
        Seq::empty()
    } else {
        items_view(s.drop_last()).push(json_view(s.last()))
    }
}

/// The models of the members of an object.
pub open spec fn members_view(s: Seq<(String, JsonValue)>) -> Seq<(Seq<char>, Json)>
    decreases s,
{
    if s.len() == 0 {
        Seq::empty()
    } else {
        members_view(s.drop_last()).push((s.last().0@, json_view(s.last().1)))
    }
}

impl View for JsonValue {
    type V = Json;

    open spec fn view(&self) -> Json {
        json_view(*self)
    }
}

/// The position of the first member of `ms` at or after `i` with key `key`,
/// or -1 where there is none.
pub open spec fn key_index_from(ms: Seq<(Seq<char>, Json)>, key: Seq<char>, i: int) -> int
    decreases ms.len() - i,
{
    if i < 0 || i >= ms.len() {
        -1
    } else if ms[i].0 == key {
        i
    } else {
        key_index_from(ms, key, i + 1)
    }
}

/// The position of the first member of `ms` with key `key`, or -1.
pub open spec fn key_index(ms: Seq<(Seq<char>, Json)>, key: Seq<char>) -> int {
    key_index_from(ms, key, 0)
}

/// The value of the first member of `ms` with key `key`.
pub open spec fn lookup(ms: Seq<(Seq<char>, Json)>, key: Seq<char>) -> Option<Json> {
    let j = key_index(ms, key);
    if 0 <= j < ms.len() {
        Some(ms[j].1)
    } else {
        None
    }
}

/// The value of member `key` of `j`, where `j` is an object that has one.
pub open spec fn field(j: Json, key: Seq<char>) -> Option<Json> {
    match j {
        Json::Object(ms) => lookup(ms, key),
        _ => None,
    }
}

/// The model of a value, where there is one.
pub open spec fn opt_json(d: Option<&JsonValue>) -> Option<Json> {
    match d {
        Some(v) => Some(v@),
        None => None,
    }
}

/// The text of `j` where it is a string.
pub open spec fn str_of(j: Option<Json>) -> Option<Seq<char>> {
    match j {
        Some(Json::Str(s)) => Some(s),
        _ => None,
    }
}

/// The models of an array's elements, one for one.
pub proof fn lemma_items_view(s: Seq<JsonValue>)
    ensures
        items_view(s).len() == s.len(),
        forall|i: int| 0 <= i < s.len() ==> #[trigger] items_view(s)[i] == s[i]@,
    decreases s.len(),
{
    if s.len() > 0 {
        lemma_items_view(s.drop_last());
    }
}

/// The models of an object's members, one for one.
pub proof fn lemma_members_view(s: Seq<(String, JsonValue)>)
    ensures
        members_view(s).len() == s.len(),
        forall|i: int|
            0 <= i < s.len() ==> #[trigger] members_view(s)[i] == (s[i].0@, s[i].1@),
    decreases s.len(),
{
    if s.len() > 0 {
        lemma_members_view(s.drop_last());
    }
}

impl JsonValue {
    /// A copy of this value, member for member.
    pub fn copy(&self) -> (r: JsonValue)
        ensures
            r@ == self@,
        decreases self,
    {
        match self {
            JsonValue::Null => JsonValue::Null,
            JsonValue::Bool(b) => JsonValue::Bool(*b),
            JsonValue::Number(n) => JsonValue::Number(n.clone()),
            JsonValue::String(s) => JsonValue::String(s.clone()),
            JsonValue::Array(items) => JsonValue::Array(copy_items(items)),
            JsonValue::Object(members) => JsonValue::Object(copy_members(members)),
        }
    }

    /// The value of the first member with key `key`, where this is an object.
    pub fn get(&self, key: &str) -> (r: Option<&JsonValue>)
        ensures
            opt_json(r) == field(self@, key@),
    {
        match self {
            JsonValue::Object(members) => member(members, key),
            _ => None,
        }
    }

    /// The text of this value, where it is a string.
    pub fn as_str(&self) -> (r: Option<&str>)
        ensures
            match r {
                Some(s) => self@ == Json::Str(s@),
                None => !(self@ is Str),
            },
    {
        match self {
            JsonValue::String(s) => Some(s.as_str()),
            _ => None,
        }
    }
}

/// The position of the first member with key `key`.
pub fn key_position(members: &Vec<(String, JsonValue)>, key: &str) -> (r: Option<usize>)
    ensures
        match r {
            Some(j) => j < members.len() && key_index(members_view(members@), key@) == j,
            None => key_index(members_view(members@), key@) == -1,
        },
{
    proof {
        lemma_members_view(members@);
    }
    let ghost ms = members_view(members@);
    let mut i: usize = 0;
    while i < members.len()
        invariant
            0 <= i <= members.len(),
            ms == members_view(members@),
            ms.len() == members.len(),
            forall|k: int|
                0 <= k < members.len() ==> #[trigger] ms[k] == (members@[k].0@, members@[k].1@),
            key_index(ms, key@) == key_index_from(ms, key@, i as int),
        decreases members.len() - i,
    {
        if text_eq(members[i].0.as_str(), key) {
            assert(ms[i as int].0 == key@);
            return Some(i);
        }
        i += 1;
    }
    None
}

/// A copy of the elements of an array, element for element.
fn copy_items(items: &Vec<JsonValue>) -> (r: Vec<JsonValue>)
    ensures
        items_view(r@) == items_view(items@),
    decreases items,
{
    let mut r: Vec<JsonValue> = Vec::new();
    let mut i: usize = 0;
    while i < items.len()
        invariant
            0 <= i <= items.len(),
            items_view(r@) == items_view(items@.subrange(0, i as int)),
        decreases items.len() - i,
    {
        assert(decreases_to!(items => items[i as int]));
        let x = items[i].copy();
        let ghost before = r@;
        r.push(x);
        proof {
            assert(r@.drop_last() =~= before);
            assert(items@.subrange(0, i + 1).drop_last() =~= items@.subrange(0, i as int));
            assert(items_view(r@) == items_view(before).push(json_view(items[i as int])));
        }
        i += 1;
    }
    assert(items@.subrange(0, items.len() as int) =~= items@);
    r
}

/// The value of the first member of `members` with key `key`.
pub fn member<'a>(members: &'a Vec<(String, JsonValue)>, key: &str) -> (r: Option<&'a JsonValue>)
    ensures
        opt_json(r) == lookup(members_view(members@), key@),
{
    proof {
        lemma_members_view(members@);
    }
    match key_position(members, key) {
        Some(j) => Some(&members[j].1),
        None => None,
    }
}

/// A copy of the members of an object, member for member.
pub fn copy_members(members: &Vec<(String, JsonValue)>) -> (r: Vec<(String, JsonValue)>)
    ensures
        members_view(r@) == members_view(members@),
    decreases members,
{
    let mut r: Vec<(String, JsonValue)> = Vec::new();
    let mut i: usize = 0;
    while i < members.len()
        invariant
            0 <= i <= members.len(),
            members_view(r@) == members_view(members@.subrange(0, i as int)),
        decreases members.len() - i,
    {
        assert(decreases_to!(members => members[i as int].1));
        let x = members[i].1.copy();
        let ghost before = r@;
        r.push((members[i].0.clone(), x));
        proof {
            assert(r@.drop_last() =~= before);
            assert(members@.subrange(0, i + 1).drop_last() =~= members@.subrange(0, i as int));
        }
        i += 1;
    }
    assert(members@.subrange(0, members.len() as int) =~= members@);
    r
}

} // verus!
