//! A plain-value model of JSON documents.
//!
//! Numbers keep the representation they were read with (unsigned, negative
//! or floating integer) together with their reading as an IEEE-754 double,
//! held by its bit pattern.
use crate::text::{chars_eq_str, chars_of};
use vstd::prelude::*;

verus! {

broadcast use vstd::std_specs::vec::group_vec_axioms;

/// An IEEE-754 binary64 value, held by its bit pattern.
#[derive(Debug, Clone, Copy, PartialEq, Eq)]
pub struct DoubleBits {
    pub bits: u64,
}

/// How a JSON number was written.
#[derive(Debug, Clone, Copy, PartialEq, Eq)]
pub enum NumberRepr {
    PosInt(u64),
    NegInt(i64),
    Float(DoubleBits),
}

/// A JSON number: its representation and, when it was read from text or
/// written as a double, its reading as a double; numbers this library
/// builds from integers carry no reading.
#[derive(Debug, Clone, Copy, PartialEq, Eq)]
pub struct JsonNumber {
    pub repr: NumberRepr,
    pub double: Option<DoubleBits>,
}

impl JsonNumber {
    /// A number written as the double `d`.
    pub fn from_double(d: DoubleBits) -> (n: JsonNumber)
        ensures
            n == (JsonNumber { repr: NumberRepr::Float(d), double: Some(d) }),
    {
        JsonNumber { repr: NumberRepr::Float(d), double: Some(d) }
    }
}

/// A JSON value. Object members keep their order; a key occurs at most once
/// in the objects this library builds.
#[derive(Debug, PartialEq)]
pub enum JsonValue {
    Null,
    Bool(bool),
    Number(JsonNumber),
    String(String),
    Array(Vec<JsonValue>),
    Object(Vec<(String, JsonValue)>),
}

/// The mathematical content of a [`JsonValue`].
pub enum SpecJson {
    Null,
    Bool(bool),
    Number(JsonNumber),
    Str(Seq<char>),
    Array(Seq<SpecJson>),
    Object(Seq<(Seq<char>, SpecJson)>),
}

impl View for JsonValue {
    type V = SpecJson;

    open spec fn view(&self) -> SpecJson
        decreases self, 0nat,
    {
        match self {
            JsonValue::Null => SpecJson::Null,
            JsonValue::Bool(b) => SpecJson::Bool(*b),
            JsonValue::Number(n) => SpecJson::Number(*n),
            JsonValue::String(s) => SpecJson::Str(s@),
            JsonValue::Array(items) => SpecJson::Array(json_views(items@)),
            JsonValue::Object(entries) => SpecJson::Object(member_views(entries@)),
        }
    }
}

/// Views of a sequence of values.
pub open spec fn json_views(s: Seq<JsonValue>) -> Seq<SpecJson>
    decreases s, s.len(),
{
    if s.len() == 0 {
        Seq::empty()
    } else {
        json_views(s.subrange(0, s.len() - 1)).push(s[s.len() - 1]@)
    }
}

/// Views of a sequence of object members.
pub open spec fn member_views(s: Seq<(String, JsonValue)>) -> Seq<(Seq<char>, SpecJson)>
    decreases s, s.len(),
{
    if s.len() == 0 {
        Seq::empty()
    } else {
        member_views(s.subrange(0, s.len() - 1)).push((s[s.len() - 1].0@, s[s.len() - 1].1@))
    }
}

/// The value of the first member named `key`, if any.
pub open spec fn member(entries: Seq<(Seq<char>, SpecJson)>, key: Seq<char>) -> Option<SpecJson>
    decreases entries.len(),
{
    if entries.len() == 0 {
        None
    } else if entries[0].0 == key {
        Some(entries[0].1)
    } else {
        member(entries.drop_first(), key)
    }
}

/// `v.get(key)`: the member `key` of an object, `None` for anything else.
pub open spec fn get_spec(v: SpecJson, key: Seq<char>) -> Option<SpecJson> {
    match v {
        SpecJson::Object(entries) => member(entries, key),
        _ => None,
    }
}

/// `v.as_str()`.
pub open spec fn as_str_spec(v: Option<SpecJson>) -> Option<Seq<char>> {
    match v {
        Some(SpecJson::Str(s)) => Some(s),
        _ => None,
    }
}

/// `v.as_bool()`.
pub open spec fn as_bool_spec(v: Option<SpecJson>) -> Option<bool> {
    match v {
        Some(SpecJson::Bool(b)) => Some(b),
        _ => None,
    }
}

/// `v.as_f64()`: the double reading of a number.
pub open spec fn as_double_spec(v: Option<SpecJson>) -> Option<DoubleBits> {
    match v {
        Some(SpecJson::Number(n)) => n.double,
        _ => None,
    }
}

/// `v.as_array()`.
pub open spec fn as_array_spec(v: Option<SpecJson>) -> Option<Seq<SpecJson>> {
    match v {
        Some(SpecJson::Array(a)) => Some(a),
        _ => None,
    }
}

/// `v.as_object()`.
pub open spec fn as_object_spec(v: SpecJson) -> Option<Seq<(Seq<char>, SpecJson)>> {
    match v {
        SpecJson::Object(entries) => Some(entries),
        _ => None,
    }
}

/// Views keep length and position.
pub proof fn lemma_json_views(s: Seq<JsonValue>)
    ensures
        json_views(s).len() == s.len(),
        forall|j: int| 0 <= j < s.len() ==> #[trigger] json_views(s)[j] == s[j]@,
    decreases s.len(),
{
    if s.len() > 0 {
        lemma_json_views(s.subrange(0, s.len() - 1));
        assert(json_views(s) == json_views(s.subrange(0, s.len() - 1)).push(s[s.len() - 1]@));
    }
}

/// Member views keep length and position.
pub proof fn lemma_member_views(s: Seq<(String, JsonValue)>)
    ensures
        member_views(s).len() == s.len(),
        forall|j: int|
            0 <= j < s.len() ==> #[trigger] member_views(s)[j] == (s[j].0@, s[j].1@),
    decreases s.len(),
{
    if s.len() > 0 {
        lemma_member_views(s.subrange(0, s.len() - 1));
        assert(member_views(s) == member_views(s.subrange(0, s.len() - 1)).push(
            (s[s.len() - 1].0@, s[s.len() - 1].1@),
        ));
    }
}

/// `member` finds the first member with the key.
pub proof fn lemma_member_index(m: Seq<(Seq<char>, SpecJson)>, key: Seq<char>, i: int)
    requires
        0 <= i <= m.len(),
        forall|j: int| 0 <= j < i ==> (#[trigger] m[j]).0 != key,
    ensures
        i < m.len() && m[i].0 == key ==> member(m, key) == Some(m[i].1),
        i == m.len() ==> member(m, key) is None,
    decreases i,
{
    if i > 0 {
        assert(m[0].0 != key);
        lemma_member_index(m.drop_first(), key, i - 1);
    }
}

/// A copy of an optional string.
pub fn copy_opt_string(s: &Option<String>) -> (r: Option<String>)
    ensures
        r == *s,
{
    match s {
        Some(x) => Some(x.clone()),
        None => None,
    }
}

impl JsonValue {
    /// A copy of this value.
    #[verifier::loop_isolation(false)]
    pub fn copy(&self) -> (r: JsonValue)
        ensures
            r@ == self@,
        decreases self,
    {
        match self {
            JsonValue::Null => JsonValue::Null,
            JsonValue::Bool(b) => JsonValue::Bool(*b),
            JsonValue::Number(n) => JsonValue::Number(*n),
            JsonValue::String(s) => JsonValue::String(s.clone()),
            JsonValue::Array(items) => {
                let mut out: Vec<JsonValue> = Vec::new();
                let mut i: usize = 0;
                while i < items.len()
                    invariant
                        i <= items.len(),
                        out.len() == i,
                        forall|j: int| 0 <= j < i ==> (#[trigger] out@[j])@ == items@[j]@,
                    decreases items.len() - i,
                {
                    proof {
                        assert(decreases_to!(*self => *items));
                        assert(decreases_to!(*items => items[i as int]));
                    }
                    out.push(items[i].copy());
                    i = i + 1;
                }
                proof {
                    lemma_json_views(out@);
                    lemma_json_views(items@);
                    assert(json_views(out@) =~= json_views(items@));
                }
                JsonValue::Array(out)
            },
            JsonValue::Object(entries) => {
                let mut out: Vec<(String, JsonValue)> = Vec::new();
                let mut i: usize = 0;
                while i < entries.len()
                    invariant
                        i <= entries.len(),
                        out.len() == i,
                        forall|j: int|
                            0 <= j < i ==> (#[trigger] out@[j]).0@ == entries@[j].0@ && out@[j].1@
                                == entries@[j].1@,
                    decreases entries.len() - i,
                {
                    proof {
                        assert(decreases_to!(*self => *entries));
                        assert(decreases_to!(*entries => entries[i as int]));
                        assert(decreases_to!(entries[i as int] => entries[i as int].1));
                    }
                    let e = (entries[i].0.clone(), entries[i].1.copy());
                    out.push(e);
                    i = i + 1;
                }
                proof {
                    lemma_member_views(out@);
                    lemma_member_views(entries@);
                    assert(member_views(out@) =~= member_views(entries@));
                }
                JsonValue::Object(out)
            },
        }
    }

    /// `self.get(key)`.
    pub fn get(&self, key: &str) -> (r: Option<&JsonValue>)
        ensures
            r matches Some(x) ==> get_spec(self@, key@) == Some(x@),
            r is None ==> get_spec(self@, key@) is None,
    {
        match self {
            JsonValue::Object(entries) => {
                let k = chars_of(key);
                let ghost m = member_views(entries@);
                proof {
                    lemma_member_views(entries@);
                }
                assert(self@ == SpecJson::Object(m));
                let mut i: usize = 0;
                while i < entries.len()
                    invariant
                        i <= entries.len(),
                        k@ == key@,
                        m == member_views(entries@),
                        m.len() == entries@.len(),
                        self@ == SpecJson::Object(m),
                        forall|j: int| 0 <= j < m.len() ==> #[trigger] m[j] == (entries@[j].0@, entries@[j].1@),
                        forall|j: int| 0 <= j < i ==> (#[trigger] m[j]).0 != key@,
                    decreases entries.len() - i,
                {
                    let name = chars_of(entries[i].0.as_str());
                    if crate::text::chars_eq(name.as_slice(), k.as_slice()) {
                        assert(m[i as int].0 == key@);
                        proof {
                            lemma_member_index(m, key@, i as int);
                        }
                        assert(member(m, key@) == Some(entries@[i as int].1@));
                        assert(get_spec(self@, key@) == member(m, key@));
                        return Some(&entries[i].1);
                    }
                    assert(m[i as int].0 != key@);
                    i = i + 1;
                }
                proof {
                    lemma_member_index(m, key@, i as int);
                }
                None
            },
            _ => None,
        }
    }

    /// `self.as_str()`.
    pub fn as_str(&self) -> (r: Option<&String>)
        ensures
            r matches Some(s) ==> as_str_spec(Some(self@)) == Some(s@),
            r is None ==> as_str_spec(Some(self@)) is None,
    {
        match self {
            JsonValue::String(s) => Some(s),
            _ => None,
        }
    }

    /// A string value.
    pub fn from_str(s: &str) -> (r: JsonValue)
        ensures
            r@ == SpecJson::Str(s@),
    {
        JsonValue::String(String::from_str(s))
    }
}

/// Whether a string equals a literal (character-wise).
pub fn string_is(s: &String, lit: &str) -> (r: bool)
    ensures
        r == (s@ == lit@),
{
    let v = chars_of(s.as_str());
    chars_eq_str(v.as_slice(), lit)
}

impl JsonValue {
    /// An object with a single member.
    pub fn single(key: &str, value: JsonValue) -> (r: JsonValue)
        ensures
            r@ == SpecJson::Object(seq![(key@, value@)]),
    {
        let ghost vv = value@;
        let mut entries: Vec<(String, JsonValue)> = Vec::new();
        entries.push((String::from_str(key), value));
        proof {
            lemma_member_views(entries@);
            assert(member_views(entries@) =~= seq![(key@, vv)]);
        }
        JsonValue::Object(entries)
    }
}

} // verus!
