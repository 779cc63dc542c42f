//! A loosely-typed value model: the tagged union that node field maps hold.
//!
//! The block editor hands trees over as JSON, so field values are JSON-shaped
//! data: null, booleans, numbers, strings, arrays and objects. Numbers keep
//! the three-way split that JSON readers commonly use (non-negative integer,
//! negative integer, binary64 float carried by its bit pattern), so a value
//! round-trips through the interpreter without loss.

use vstd::prelude::*;
use crate::strutil::str_eq;

verus! {

/// A JSON number: a non-negative integer, a negative integer, or a float
/// carried opaquely as the bit pattern of a binary64 value.
#[derive(Clone, Copy, Debug, PartialEq, Eq, Structural)]
pub enum JsonNum {
    PosInt(u64),
    NegInt(i64),
    FloatBits(u64),
}

impl JsonNum {
    /// The number as a signed 64-bit integer, when it is an integer in range.
    pub open spec fn spec_as_int(self) -> Option<i64> {
        match self {
            JsonNum::PosInt(u) => if u <= i64::MAX as u64 {
                Some(u as i64)
            } else {
                None
            },
            JsonNum::NegInt(i) => Some(i),
            JsonNum::FloatBits(_) => None,
        }
    }

    pub fn as_int(self) -> (r: Option<i64>)
        ensures
            r == self.spec_as_int(),
    {
        match self {
            JsonNum::PosInt(u) => if u <= i64::MAX as u64 {
                Some(u as i64)
            } else {
                None
            },
            JsonNum::NegInt(i) => Some(i),
            JsonNum::FloatBits(_) => None,
        }
    }
}

/// A loosely-typed value. Object entries keep their order; a key is looked
/// up by first match.
#[derive(Debug, PartialEq)]
pub enum JsonValue {
    Null,
    Bool(bool),
    Num(JsonNum),
    Str(String),
    Arr(Vec<JsonValue>),
    Obj(Vec<(String, JsonValue)>),
}

/// The mathematical shape of a `JsonValue`: strings become character
/// sequences, vectors become sequences.
pub enum JsonView {
    Null,
    Bool(bool),
    Num(JsonNum),
    Str(Seq<char>),
    Arr(Seq<JsonView>),
    Obj(Seq<(Seq<char>, JsonView)>),
}

pub open spec fn json_view(v: JsonValue) -> JsonView
    decreases v,
{
    match v {
        JsonValue::Null => JsonView::Null,
        JsonValue::Bool(b) => JsonView::Bool(b),
        JsonValue::Num(n) => JsonView::Num(n),
        JsonValue::Str(s) => JsonView::Str(s@),
        JsonValue::Arr(items) => JsonView::Arr(json_seq_view(items@)),
        JsonValue::Obj(entries) => JsonView::Obj(json_entries_view(entries@)),
    }
}

pub open spec fn json_seq_view(s: Seq<JsonValue>) -> Seq<JsonView>
    decreases s,
{
    if s.len() == 0 {
        Seq::empty()
    } else {
        json_seq_view(s.subrange(0, s.len() - 1)).push(json_view(s[s.len() - 1]))
    }
}

pub open spec fn json_entry_view(e: (String, JsonValue)) -> (Seq<char>, JsonView)
    decreases e,
{
    (e.0@, json_view(e.1))
}

pub open spec fn json_entries_view(s: Seq<(String, JsonValue)>) -> Seq<(Seq<char>, JsonView)>
    decreases s,
{
    if s.len() == 0 {
        Seq::empty()
    } else {
        json_entries_view(s.subrange(0, s.len() - 1)).push(json_entry_view(s[s.len() - 1]))
    }
}

impl View for JsonValue {
    type V = JsonView;

    open spec fn view(&self) -> JsonView {
        json_view(*self)
    }
}

/// `json_seq_view` maps the sequence elementwise.
pub broadcast proof fn lemma_json_seq_view(s: Seq<JsonValue>)
    ensures
        (#[trigger] json_seq_view(s)).len() == s.len(),
        forall|i: int| 0 <= i < s.len() ==> json_seq_view(s)[i] == json_view(s[i]),
    decreases s.len(),
{
    if s.len() > 0 {
        lemma_json_seq_view(s.subrange(0, s.len() - 1));
    }
}

/// `json_entries_view` maps the sequence elementwise.
pub broadcast proof fn lemma_json_entries_view(s: Seq<(String, JsonValue)>)
    ensures
        (#[trigger] json_entries_view(s)).len() == s.len(),
        forall|i: int| 0 <= i < s.len() ==> json_entries_view(s)[i] == json_entry_view(s[i]),
    decreases s.len(),
{
    if s.len() > 0 {
        lemma_json_entries_view(s.subrange(0, s.len() - 1));
    }
}

/// First-match lookup among object entries.
pub open spec fn spec_lookup(entries: Seq<(Seq<char>, JsonView)>, key: Seq<char>) -> Option<
    JsonView,
>
    decreases entries,
{
    if entries.len() == 0 {
        None
    } else if entries[0].0 == key {
        Some(entries[0].1)
    } else {
        spec_lookup(entries.subrange(1, entries.len() as int), key)
    }
}

/// Field lookup on a value: objects answer by first match, every other
/// shape has no fields.
pub open spec fn spec_get(v: JsonView, key: Seq<char>) -> Option<JsonView> {
    match v {
        JsonView::Obj(entries) => spec_lookup(entries, key),
        _ => None,
    }
}

/// A successful lookup answers with the value of some entry.
pub proof fn lemma_lookup_index(entries: Seq<(Seq<char>, JsonView)>, key: Seq<char>)
    requires
        spec_lookup(entries, key) is Some,
    ensures
        exists|i: int|
            0 <= i < entries.len() && (#[trigger] entries[i]).1 == spec_lookup(entries, key)->0,
    decreases entries.len(),
{
    if entries.len() > 0 {
        if entries[0].0 == key {
            assert(entries[0].1 == spec_lookup(entries, key)->0);
        } else {
            let rest = entries.subrange(1, entries.len() as int);
            lemma_lookup_index(rest, key);
            let i = choose|i: int|
                0 <= i < rest.len() && (#[trigger] rest[i]).1 == spec_lookup(rest, key)->0;
            assert(entries[i + 1].1 == spec_lookup(entries, key)->0);
        }
    }
}

/// When the first `i` entries miss the key, the lookup is decided at or
/// after position `i`.
proof fn lemma_lookup_first_match(
    entries: Seq<(Seq<char>, JsonView)>,
    key: Seq<char>,
    i: int,
)
    requires
        0 <= i <= entries.len(),
        forall|j: int| 0 <= j < i ==> (#[trigger] entries[j]).0 != key,
        i == entries.len() || entries[i].0 == key,
    ensures
        spec_lookup(entries, key) == (if i == entries.len() {
            None::<JsonView>
        } else {
            Some(entries[i].1)
        }),
    decreases i,
{
    if i > 0 {
        let rest = entries.subrange(1, entries.len() as int);
        lemma_lookup_first_match(rest, key, i - 1);
    }
}

impl JsonValue {
    /// The field named `key`, if this value is an object that has one.
    pub fn get_field<'a>(&'a self, key: &str) -> (r: Option<&'a JsonValue>)
        ensures
            match r {
                Some(f) => spec_get(self@, key@) == Some(f@),
                None => spec_get(self@, key@) is None,
            },
    {
        broadcast use lemma_json_entries_view;

        match self {
            JsonValue::Obj(entries) => {
                let ghost eview = json_entries_view(entries@);
                let mut i: usize = 0;
                while i < entries.len()
                    invariant
                        i <= entries@.len(),
                        *self == JsonValue::Obj(*entries),
                        eview == json_entries_view(entries@),
                        eview.len() == entries@.len(),
                        forall|j: int| 0 <= j < i ==> (#[trigger] eview[j]).0 != key@,
                    decreases entries@.len() - i,
                {
                    let entry = &entries[i];
                    proof {
                        lemma_json_entries_view(entries@);
                        assert(eview[i as int] == json_entry_view(entries@[i as int]));
                    }
                    if str_eq(entry.0.as_str(), key) {
                        proof {
                            lemma_lookup_first_match(eview, key@, i as int);
                            assert(self@ == JsonView::Obj(eview));
                            assert(eview[i as int].1 == json_view(entries@[i as int].1));
                        }
                        return Some(&entries[i].1);
                    }
                    i += 1;
                }
                proof {
                    lemma_lookup_first_match(eview, key@, entries@.len() as int);
                }
                None
            },
            _ => None,
        }
    }
}

} // verus!
