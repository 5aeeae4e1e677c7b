//! JSON values.

use serde_json::Value;
use vstd::prelude::*;

use crate::data::{key_index, lookup, no_items, put, Dup};
use crate::text::same;

verus! {

broadcast use vstd::seq_lib::group_seq_properties;

/// A JSON value. A number is kept by kind: whole and not negative, whole and
/// negative, or any other by its notation.
#[derive(Debug)]
pub enum Json {
    Null,
    Bool(bool),
    UInt(u64),
    Int(i64),
    Real(String),
    Text(String),
    List(Vec<Json>),
    Object(Vec<(String, Json)>),
}

/// The contents of a JSON value.
pub enum JsonV {
    Null,
    Bool(bool),
    UInt(u64),
    Int(i64),
    Real(Seq<char>),
    Text(Seq<char>),
    List(Seq<JsonV>),
    Object(Seq<(Seq<char>, JsonV)>),
}

impl DeepView for Json {
    type V = JsonV;

    open spec fn deep_view(&self) -> JsonV {
        json_view(*self)
    }
}

/// The contents of a JSON value.
pub open spec fn json_view(j: Json) -> JsonV
    decreases j,
{
    match j {
        Json::Null => JsonV::Null,
        Json::Bool(b) => JsonV::Bool(b),
        Json::UInt(n) => JsonV::UInt(n),
        Json::Int(n) => JsonV::Int(n),
        Json::Real(s) => JsonV::Real(s@),
        Json::Text(s) => JsonV::Text(s@),
        Json::List(v) => JsonV::List(
            Seq::new(
                v@.len(),
                |i: int|
                    if 0 <= i < v@.len() {
                        json_view(v@[i])
                    } else {
                        JsonV::Null
                    },
            ),
        ),
        Json::Object(v) => JsonV::Object(
            Seq::new(
                v@.len(),
                |i: int|
                    if 0 <= i < v@.len() {
                        (v@[i].0@, json_view(v@[i].1))
                    } else {
                        (Seq::empty(), JsonV::Null)
                    },
            ),
        ),
    }
}

impl Dup for Json {
    fn dup(&self) -> (r: Json)
        decreases self,
    {
        match self {
            Json::Null => Json::Null,
            Json::Bool(b) => Json::Bool(*b),
            Json::UInt(n) => Json::UInt(*n),
            Json::Int(n) => Json::Int(*n),
            Json::Real(s) => Json::Real(s.clone()),
            Json::Text(s) => Json::Text(s.clone()),
            Json::List(v) => {
                let mut r: Vec<Json> = Vec::new();
                let mut i: usize = 0;
                while i < v.len()
                    invariant
                        self is List,
                        self->List_0 == *v,
                        i <= v@.len(),
                        r@.len() == i,
                        forall|j: int| 0 <= j < i ==> json_view(#[trigger] r@[j]) == json_view(v@[j]),
                    decreases v@.len() - i,
                {
                    assert(decreases_to!(*v => v[i as int]));
                    r.push(v[i].dup());
                    i = i + 1;
                }
                let out = Json::List(r);
                assert(json_view(out)->List_0 =~= json_view(*self)->List_0);
                out
            },
            Json::Object(v) => {
                let mut r: Vec<(String, Json)> = Vec::new();
                let mut i: usize = 0;
                while i < v.len()
                    invariant
                        self is Object,
                        self->Object_0 == *v,
                        i <= v@.len(),
                        r@.len() == i,
                        forall|j: int|
                            0 <= j < i ==> (#[trigger] r@[j]).0@ == v@[j].0@ && json_view(r@[j].1)
                                == json_view(v@[j].1),
                    decreases v@.len() - i,
                {
                    assert(decreases_to!(*v => v[i as int]));
                    let key = v[i].0.clone();
                    let value = v[i].1.dup();
                    r.push((key, value));
                    i = i + 1;
                }
                let out = Json::Object(r);
                assert(json_view(out)->Object_0 =~= json_view(*self)->Object_0);
                out
            },
        }
    }
}

// ---------------------------------------------------------------------------
// Making values
// ---------------------------------------------------------------------------

/// A list of values.
pub fn list_of(v: Vec<Json>) -> (r: Json)
    ensures
        r.deep_view() == JsonV::List(v.deep_view()),
{
    let ghost vv = v.deep_view();
    let r = Json::List(v);
    assert(json_view(r)->List_0 =~= vv);
    r
}

/// An object with entries.
pub fn object_of(v: Vec<(String, Json)>) -> (r: Json)
    ensures
        r.deep_view() == JsonV::Object(v.deep_view()),
{
    let ghost vv = v.deep_view();
    let r = Json::Object(v);
    assert(json_view(r)->Object_0 =~= vv);
    r
}

/// A text.
pub fn text_of(s: &str) -> (r: Json)
    ensures
        r.deep_view() == JsonV::Text(s@),
{
    Json::Text(s.to_owned())
}

/// An optional text as a value.
pub open spec fn text_or_null(o: Option<Seq<char>>) -> JsonV {
    match o {
        Some(s) => JsonV::Text(s),
        None => JsonV::Null,
    }
}

/// An optional text as a value.
pub fn text_or_null_of(o: &Option<String>) -> (r: Json)
    ensures
        r.deep_view() == text_or_null(o.deep_view()),
{
    match o {
        Some(s) => Json::Text(s.clone()),
        None => Json::Null,
    }
}

/// Texts as a value.
pub open spec fn texts(list: Seq<Seq<char>>) -> JsonV {
    JsonV::List(list.map_values(|s: Seq<char>| JsonV::Text(s)))
}

/// Texts as a value.
pub fn texts_of(list: &Vec<String>) -> (r: Json)
    ensures
        r.deep_view() == texts(list.deep_view()),
{
    let ghost lv = list.deep_view();
    let ghost all = lv.map_values(|s: Seq<char>| JsonV::Text(s));
    let mut v: Vec<Json> = no_items();
    let mut i: usize = 0;
    while i < list.len()
        invariant
            i <= list@.len(),
            lv == list.deep_view(),
            all == lv.map_values(|s: Seq<char>| JsonV::Text(s)),
            v.deep_view() == all.take(i as int),
        decreases list@.len() - i,
    {
        assert(lv[i as int] == list@[i as int]@);
        put(&mut v, Json::Text(list[i].clone()));
        assert(all.take(i + 1) =~= all.take(i as int).push(all[i as int]));
        i = i + 1;
    }
    assert(all.take(all.len() as int) =~= all);
    list_of(v)
}

/// Puts an entry behind others.
pub fn put_field(v: &mut Vec<(String, Json)>, key: &str, value: Json)
    ensures
        final(v).deep_view() == old(v).deep_view().push((key@, value.deep_view())),
{
    put(v, (key.to_owned(), value));
}

// ---------------------------------------------------------------------------
// Reading values
// ---------------------------------------------------------------------------

/// The value under a key; only objects have any.
pub open spec fn field(j: JsonV, key: Seq<char>) -> Option<JsonV> {
    match j {
        JsonV::Object(m) => lookup(m, key),
        _ => None,
    }
}

/// The text under a key.
pub open spec fn text_field(j: JsonV, key: Seq<char>) -> Option<Seq<char>> {
    match field(j, key) {
        Some(JsonV::Text(s)) => Some(s),
        _ => None,
    }
}

/// The whole number under a key that is not negative.
pub open spec fn number_field(j: JsonV, key: Seq<char>) -> Option<u64> {
    match field(j, key) {
        Some(JsonV::UInt(n)) => Some(n),
        _ => None,
    }
}

/// The truth value under a key.
pub open spec fn bool_field(j: JsonV, key: Seq<char>) -> Option<bool> {
    match field(j, key) {
        Some(JsonV::Bool(b)) => Some(b),
        _ => None,
    }
}

impl Json {
    /// The value under a key.
    pub fn get(&self, key: &str) -> (r: Option<&Json>)
        ensures
            match r {
                Some(j) => field(self.deep_view(), key@) == Some(j.deep_view()),
                None => field(self.deep_view(), key@) is None,
            },
    {
        match self {
            Json::Object(v) => {
                let ghost m = self.deep_view()->Object_0;
                let mut i: usize = 0;
                while i < v.len()
                    invariant
                        i <= v@.len(),
                        *self == Json::Object(*v),
                        m == self.deep_view()->Object_0,
                        m.len() == v@.len(),
                        key_index(m, key@, 0) == key_index(m, key@, i as int),
                    decreases v@.len() - i,
                {
                    assert(m[i as int] == (v@[i as int].0@, json_view(v@[i as int].1)));
                    if same(v[i].0.as_str(), key) {
                        return Some(&v[i].1);
                    }
                    i = i + 1;
                }
                None
            },
            _ => None,
        }
    }

    /// The text under a key.
    pub fn get_text(&self, key: &str) -> (r: Option<String>)
        ensures
            r.deep_view() == text_field(self.deep_view(), key@),
    {
        match self.get(key) {
            Some(Json::Text(s)) => Some(s.clone()),
            _ => None,
        }
    }

    /// The whole number under a key that is not negative.
    pub fn get_number(&self, key: &str) -> (r: Option<u64>)
        ensures
            r == number_field(self.deep_view(), key@),
    {
        match self.get(key) {
            Some(Json::UInt(n)) => Some(*n),
            _ => None,
        }
    }

    /// The truth value under a key.
    pub fn get_bool(&self, key: &str) -> (r: Option<bool>)
        ensures
            r == bool_field(self.deep_view(), key@),
    {
        match self.get(key) {
            Some(Json::Bool(b)) => Some(*b),
            _ => None,
        }
    }
}

// ---------------------------------------------------------------------------
// Reading
// ---------------------------------------------------------------------------

/// A JSON value of the crate `serde_json`.
#[verifier::external_type_specification]
#[verifier::external_body]
pub struct ExValue(serde_json::Value);

/// What `serde_json::from_str` makes of a text: the value, or the text of the error.
pub uninterp spec fn value_read(text: Seq<char>) -> Result<Value, Seq<char>>;

/// What a value of `serde_json` holds.
pub uninterp spec fn value_held(v: Value) -> JsonV;

/// `serde_json::from_str` for a `serde_json::Value`: reads a text that is one JSON
/// value, or says what is wrong with it. What comes out depends on the text alone.
#[verifier::external_body]
fn read_value(text: &str) -> (r: Result<Value, String>)
    ensures
        match r {
            Ok(v) => value_read(text@) == Ok::<Value, Seq<char>>(v),
            Err(e) => value_read(text@) == Err::<Value, Seq<char>>(e@),
        },
{
    serde_json::from_str::<Value>(text).map_err(|e| e.to_string())
}

/// The variants of `serde_json::Value`, with `Number::as_u64` and `Number::as_i64`
/// for the kinds of numbers: the same value, part by part, as a `Json`. The result
/// is what the value holds.
#[verifier::external_body]
fn hold_value(v: &Value) -> (r: Json)
    ensures
        r.deep_view() == value_held(*v),
{
    match v {
        Value::Null => Json::Null,
        Value::Bool(b) => Json::Bool(*b),
        Value::Number(n) => match (n.as_u64(), n.as_i64()) {
            (Some(u), _) => Json::UInt(u),
            (None, Some(i)) => Json::Int(i),
            (None, None) => Json::Real(n.to_string()),
        },
        Value::String(s) => Json::Text(s.clone()),
        Value::Array(l) => Json::List(l.iter().map(|x| hold_value(x)).collect()),
        Value::Object(m) => Json::Object(
            m.iter().map(|(k, x)| (k.clone(), hold_value(x))).collect(),
        ),
    }
}

/// The value that a text is, or what is wrong with it.
pub open spec fn json_read(text: Seq<char>) -> Result<JsonV, Seq<char>> {
    match value_read(text) {
        Ok(v) => Ok(value_held(v)),
        Err(e) => Err(e),
    }
}

/// Reads a text that is one JSON value.
pub fn read_json(text: &str) -> (r: Result<Json, String>)
    ensures
        match r {
            Ok(j) => json_read(text@) == Ok::<JsonV, Seq<char>>(j.deep_view()),
            Err(e) => json_read(text@) == Err::<JsonV, Seq<char>>(e@),
        },
{
    match read_value(text) {
        Ok(v) => Ok(hold_value(&v)),
        Err(e) => Err(e),
    }
}

} // verus!
