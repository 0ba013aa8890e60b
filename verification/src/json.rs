//! JSON values: what the socket carries between the daemon and its clients.
//!
//! `Json` is the library's own value, which the rest of the library reads.
//! Text is parsed and printed by `serde_json`.

use serde_json::Value;
use vstd::prelude::*;

use crate::text::same;

verus! {

/// A JSON value. An object lists each key once.
#[derive(Debug, PartialEq, Eq)]
pub enum Json {
    Null,
    Bool(bool),
    /// A number that is a `u64`.
    Uint(u64),
    /// A negative integer.
    Int(i64),
    /// Any other number, as it is printed.
    Real(String),
    Str(String),
    Array(Vec<Json>),
    Object(Vec<(String, Json)>),
}

/// A JSON value as plain sequences.
pub enum JsonModel {
    Null,
    Bool(bool),
    Uint(u64),
    Int(i64),
    Real(Seq<char>),
    Str(Seq<char>),
    Array(Seq<JsonModel>),
    Object(Seq<(Seq<char>, JsonModel)>),
}

impl Json {
    /// The value as plain sequences.
    pub open spec fn model(self) -> JsonModel
        decreases self,
    {
        match self {
            Json::Null => JsonModel::Null,
            Json::Bool(b) => JsonModel::Bool(b),
            Json::Uint(n) => JsonModel::Uint(n),
            Json::Int(n) => JsonModel::Int(n),
            Json::Real(s) => JsonModel::Real(s@),
            Json::Str(s) => JsonModel::Str(s@),
            Json::Array(v) => JsonModel::Array(
                Seq::new(
                    v@.len(),
                    |i: int|
                        if 0 <= i < v@.len() {
                            v@[i].model()
                        } else {
                            JsonModel::Null
                        },
                ),
            ),
            Json::Object(v) => JsonModel::Object(
                Seq::new(
                    v@.len(),
                    |i: int|
                        if 0 <= i < v@.len() {
                            (v@[i].0@, v@[i].1.model())
                        } else {
                            (Seq::empty(), JsonModel::Null)
                        },
                ),
            ),
        }
    }

    /// Whether no number in the value is a `Real`.
    pub open spec fn integral(self) -> bool
        decreases self,
    {
        match self {
            Json::Real(_) => false,
            Json::Array(v) => forall|i: int| 0 <= i < v@.len() ==> (#[trigger] v@[i]).integral(),
            Json::Object(v) => forall|i: int|
                0 <= i < v@.len() ==> (#[trigger] v@[i]).1.integral(),
            _ => true,
        }
    }

    /// Whether every object in the value lists its keys in ascending order,
    /// each once.
    pub open spec fn ordered(self) -> bool
        decreases self,
    {
        match self {
            Json::Array(v) => forall|i: int| 0 <= i < v@.len() ==> (#[trigger] v@[i]).ordered(),
            Json::Object(v) => {
                &&& forall|i: int, j: int|
                    0 <= i < j < v@.len() ==> crate::order::precedes(
                        (#[trigger] v@[i]).0@,
                        (#[trigger] v@[j]).0@,
                    )
                &&& forall|i: int| 0 <= i < v@.len() ==> (#[trigger] v@[i]).1.ordered()
            },
            _ => true,
        }
    }

    /// What stands under a key of an object.
    pub open spec fn at(self, key: Seq<char>) -> Option<Json> {
        match self {
            Json::Object(v) => entry(v@, key, 0),
            _ => None,
        }
    }

    /// The text, when this is one.
    pub open spec fn text(self) -> Option<Seq<char>> {
        match self {
            Json::Str(s) => Some(s@),
            _ => None,
        }
    }

    /// The number, when this is a `u64`.
    pub open spec fn uint(self) -> Option<u64> {
        match self {
            Json::Uint(n) => Some(n),
            _ => None,
        }
    }

    /// The truth value, when this is one.
    pub open spec fn truth(self) -> Option<bool> {
        match self {
            Json::Bool(b) => Some(b),
            _ => None,
        }
    }

    /// The items, when this is an array.
    pub open spec fn items(self) -> Option<Seq<Json>> {
        match self {
            Json::Array(v) => Some(v@),
            _ => None,
        }
    }

    /// The text under a key.
    pub open spec fn text_at(self, key: Seq<char>) -> Option<Seq<char>> {
        match self.at(key) {
            Some(j) => j.text(),
            None => None,
        }
    }

    /// The number under a key.
    pub open spec fn uint_at(self, key: Seq<char>) -> Option<u64> {
        match self.at(key) {
            Some(j) => j.uint(),
            None => None,
        }
    }

    /// The truth value under a key.
    pub open spec fn truth_at(self, key: Seq<char>) -> Option<bool> {
        match self.at(key) {
            Some(j) => j.truth(),
            None => None,
        }
    }

    /// What stands under a key of an object.
    pub fn get(&self, key: &str) -> (r: Option<&Json>)
        ensures
            match r {
                Some(j) => self.at(key@) == Some(*j),
                None => self.at(key@) is None,
            },
    {
        match self {
            Json::Object(v) => {
                let mut i: usize = 0;
                while i < v.len()
                    invariant
                        i <= v@.len(),
                        *self == Json::Object(*v),
                        entry(v@, key@, 0) == entry(v@, key@, i as int),
                    decreases v@.len() - i,
                {
                    if same(v[i].0.as_str(), key) {
                        return Some(&v[i].1);
                    }
                    i += 1;
                }
                None
            },
            _ => None,
        }
    }

    /// The text, when this is one.
    pub fn as_str(&self) -> (r: Option<&str>)
        ensures
            match r {
                Some(s) => self.text() == Some(s@),
                None => self.text() is None,
            },
    {
        match self {
            Json::Str(s) => Some(s.as_str()),
            _ => None,
        }
    }

    /// The number, when this is a `u64`.
    pub fn as_u64(&self) -> (r: Option<u64>)
        ensures
            r == self.uint(),
    {
        match self {
            Json::Uint(n) => Some(*n),
            _ => None,
        }
    }

    /// The truth value, when this is one.
    pub fn as_bool(&self) -> (r: Option<bool>)
        ensures
            r == self.truth(),
    {
        match self {
            Json::Bool(b) => Some(*b),
            _ => None,
        }
    }

    /// The items, when this is an array.
    pub fn as_array(&self) -> (r: Option<&[Json]>)
        ensures
            match r {
                Some(v) => self.items() == Some(v@),
                None => self.items() is None,
            },
    {
        match self {
            Json::Array(v) => Some(v.as_slice()),
            _ => None,
        }
    }

    /// Whether this is an object.
    pub fn is_object(&self) -> (r: bool)
        ensures
            r == (self is Object),
    {
        match self {
            Json::Object(_) => true,
            _ => false,
        }
    }

    /// The text under a key.
    pub fn get_str(&self, key: &str) -> (r: Option<&str>)
        ensures
            match r {
                Some(s) => self.text_at(key@) == Some(s@),
                None => self.text_at(key@) is None,
            },
    {
        match self.get(key) {
            Some(j) => j.as_str(),
            None => None,
        }
    }

    /// The number under a key.
    pub fn get_u64(&self, key: &str) -> (r: Option<u64>)
        ensures
            r == self.uint_at(key@),
    {
        match self.get(key) {
            Some(j) => j.as_u64(),
            None => None,
        }
    }

    /// The truth value under a key.
    pub fn get_bool(&self, key: &str) -> (r: Option<bool>)
        ensures
            r == self.truth_at(key@),
    {
        match self.get(key) {
            Some(j) => j.as_bool(),
            None => None,
        }
    }
}

/// What stands under a key, at or after position `i`.
pub open spec fn entry(v: Seq<(String, Json)>, key: Seq<char>, i: int) -> Option<Json>
    decreases v.len() - i,
{
    if i >= v.len() || i < 0 {
        None
    } else if v[i].0@ == key {
        Some(v[i].1)
    } else {
        entry(v, key, i + 1)
    }
}

// ---- serde_json ----------------------------------------------------------

/// `serde_json::Value`, opaque: what it holds is `value_model`.
#[verifier::external_type_specification]
#[verifier::external_body]
pub struct ExValue(serde_json::Value);

/// What a `serde_json::Value` holds: an integer by its sign, any other number
/// by its printed form, an object by its keys in ascending order.
pub uninterp spec fn value_model(v: Value) -> JsonModel;

/// What `serde_json::from_str` makes of a text: a value, or why there is none.
pub uninterp spec fn json_read(text: Seq<char>) -> Result<JsonModel, Seq<char>>;

/// What `serde_json::to_string` prints of a value, or why it does not.
pub uninterp spec fn json_compact(m: JsonModel) -> Result<Seq<char>, Seq<char>>;

/// What `serde_json::to_string_pretty` prints of a value, or why it does not.
pub uninterp spec fn json_pretty(m: JsonModel) -> Result<Seq<char>, Seq<char>>;

/// `serde_json::from_str` into a `Value`: the same text gives the same value,
/// or the same complaint.
#[verifier::external_body]
pub(crate) fn parse_value(text: &str) -> (r: Result<Value, String>)
    ensures
        match r {
            Ok(v) => json_read(text@) == Ok::<JsonModel, Seq<char>>(value_model(v)),
            Err(e) => json_read(text@) == Err::<JsonModel, Seq<char>>(e@),
        },
{
    serde_json::from_str::<Value>(text).map_err(|e| e.to_string())
}

/// `serde_json::to_string` of a `Value`.
#[verifier::external_body]
fn value_text(v: &Value) -> (r: Result<String, String>)
    ensures
        match r {
            Ok(s) => json_compact(value_model(*v)) == Ok::<Seq<char>, Seq<char>>(s@),
            Err(e) => json_compact(value_model(*v)) == Err::<Seq<char>, Seq<char>>(e@),
        },
{
    serde_json::to_string(v).map_err(|e| e.to_string())
}

/// `serde_json::to_string_pretty` of a `Value`.
#[verifier::external_body]
pub(crate) fn pretty_text(v: &Value) -> (r: Result<String, String>)
    ensures
        match r {
            Ok(s) => json_pretty(value_model(*v)) == Ok::<Seq<char>, Seq<char>>(s@),
            Err(e) => json_pretty(value_model(*v)) == Err::<Seq<char>, Seq<char>>(e@),
        },
{
    serde_json::to_string_pretty(v).map_err(|e| e.to_string())
}

/// `Value::as_bool`: the truth value, when the value is one.
#[verifier::external_body]
fn value_bool(v: &Value) -> (r: Option<bool>)
    ensures
        r == match value_model(*v) {
            JsonModel::Bool(b) => Some(b),
            _ => None,
        },
{
    v.as_bool()
}

/// `Value::as_u64`: the number, when the value is one that a `u64` holds.
#[verifier::external_body]
fn value_u64(v: &Value) -> (r: Option<u64>)
    ensures
        r == match value_model(*v) {
            JsonModel::Uint(n) => Some(n),
            _ => None,
        },
{
    v.as_u64()
}

/// `Value::as_i64`: the number, when the value is one that an `i64` holds.
#[verifier::external_body]
fn value_i64(v: &Value) -> (r: Option<i64>)
    ensures
        r == match value_model(*v) {
            JsonModel::Uint(n) => if n <= i64::MAX {
                Some(n as i64)
            } else {
                None
            },
            JsonModel::Int(n) => Some(n),
            _ => None,
        },
{
    v.as_i64()
}

/// `Value::as_str`: the text, when the value is one.
#[verifier::external_body]
fn value_str(v: &Value) -> (r: Option<&str>)
    ensures
        match r {
            Some(s) => value_model(*v) == JsonModel::Str(s@),
            None => !(value_model(*v) is Str),
        },
{
    v.as_str()
}

/// `Value::as_array`: the items, when the value is an array.
#[verifier::external_body]
fn value_items(v: &Value) -> (r: Option<&Vec<Value>>)
    ensures
        match r {
            Some(a) => value_model(*v) == JsonModel::Array(
                a@.map_values(|x: Value| value_model(x)),
            ),
            None => !(value_model(*v) is Array),
        },
{
    v.as_array()
}

/// `Value::as_object`: the entries in the order of the map's own iterator, when
/// the value is an object. A map holds each key once.
#[verifier::external_body]
fn value_entries(v: &Value) -> (r: Option<Vec<(&String, &Value)>>)
    ensures
        match r {
            Some(e) => value_model(*v) == JsonModel::Object(
                e@.map_values(|p: (&String, &Value)| (p.0@, value_model(*p.1))),
            ),
            None => !(value_model(*v) is Object),
        },
{
    v.as_object().map(|m| m.iter().collect())
}

/// `Value::is_null`.
#[verifier::external_body]
fn value_is_null(v: &Value) -> (r: bool)
    ensures
        r == (value_model(*v) is Null),
{
    v.is_null()
}

/// `Value`'s own text. Of a number that is no integer it is the form by which
/// `value_model` knows it; of any other value nothing is said.
#[verifier::external_body]
fn number_text(v: &Value) -> (r: String)
    ensures
        value_model(*v) matches JsonModel::Real(s) ==> r@ == s,
{
    v.to_string()
}

/// `Value::get` by a key: what stands under it, when the value is an object
/// that holds it.
#[verifier::external_body]
pub(crate) fn value_get<'a>(v: &'a Value, key: &str) -> (r: Option<&'a Value>)
    ensures
        match r {
            Some(x) => model_at(value_model(*v), key@) == Some(value_model(*x)),
            None => model_at(value_model(*v), key@) is None,
        },
{
    v.get(key)
}

/// What stands under a key of an object.
pub open spec fn model_at(m: JsonModel, key: Seq<char>) -> Option<JsonModel> {
    match m {
        JsonModel::Object(e) => model_entry(e, key, 0),
        _ => None,
    }
}

/// What stands under a key, at or after position `i`.
pub open spec fn model_entry(e: Seq<(Seq<char>, JsonModel)>, key: Seq<char>, i: int) -> Option<
    JsonModel,
>
    decreases e.len() - i,
{
    if i >= e.len() || i < 0 {
        None
    } else if e[i].0 == key {
        Some(e[i].1)
    } else {
        model_entry(e, key, i + 1)
    }
}

/// Looking a key up in a value and in its model is the same.
pub proof fn lookup_agrees(j: Json, key: Seq<char>)
    ensures
        model_at(j.model(), key) == match j.at(key) {
            Some(x) => Some(x.model()),
            None => None,
        },
{
    if let Json::Object(v) = j {
        entry_agrees(v@, j.model()->Object_0, key, 0);
    }
}

proof fn entry_agrees(
    v: Seq<(String, Json)>,
    m: Seq<(Seq<char>, JsonModel)>,
    key: Seq<char>,
    i: int,
)
    requires
        0 <= i,
        v.len() == m.len(),
        forall|k: int| 0 <= k < v.len() ==> #[trigger] m[k] == (v[k].0@, v[k].1.model()),
    ensures
        model_entry(m, key, i) == match entry(v, key, i) {
            Some(x) => Some(x.model()),
            None => None,
        },
    decreases v.len() - i,
{
    if i < v.len() {
        assert(m[i] == (v[i].0@, v[i].1.model()));
        entry_agrees(v, m, key, i + 1);
    }
}

/// The library's value for a `serde_json::Value`.
pub(crate) fn from_value(v: &Value) -> (r: Json)
    ensures
        r.model() == value_model(*v),
    decreases value_model(*v),
{
    let ghost m = value_model(*v);
    if value_is_null(v) {
        return Json::Null;
    }
    if let Some(b) = value_bool(v) {
        return Json::Bool(b);
    }
    if let Some(n) = value_u64(v) {
        return Json::Uint(n);
    }
    if let Some(n) = value_i64(v) {
        return Json::Int(n);
    }
    if let Some(s) = value_str(v) {
        return Json::Str(s.to_owned());
    }
    if let Some(items) = value_items(v) {
        let mut out: Vec<Json> = Vec::new();
        let mut i: usize = 0;
        let ghost inner = items@.map_values(|x: Value| value_model(x));
        while i < items.len()
            invariant
                i <= items@.len(),
                m == value_model(*v),
                m == JsonModel::Array(inner),
                inner == items@.map_values(|x: Value| value_model(x)),
                out@.len() == i,
                forall|k: int| 0 <= k < i ==> (#[trigger] out@[k]).model() == inner[k],
            decreases items@.len() - i,
        {
            assert(inner[i as int] == value_model(items@[i as int]));
            assert(decreases_to!(m => m->Array_0));
            assert(decreases_to!(inner => inner[i as int]));
            out.push(from_value(&items[i]));
            i += 1;
        }
        let r = Json::Array(out);
        assert(r.model()->Array_0 =~= inner);
        return r;
    }
    if let Some(entries) = value_entries(v) {
        let mut out: Vec<(String, Json)> = Vec::new();
        let mut i: usize = 0;
        let ghost inner = entries@.map_values(
            |p: (&String, &Value)| (p.0@, value_model(*p.1)),
        );
        while i < entries.len()
            invariant
                i <= entries@.len(),
                m == value_model(*v),
                m == JsonModel::Object(inner),
                inner == entries@.map_values(|p: (&String, &Value)| (p.0@, value_model(*p.1))),
                out@.len() == i,
                forall|k: int|
                    0 <= k < i ==> ((#[trigger] out@[k]).0@, out@[k].1.model()) == inner[k],
            decreases entries@.len() - i,
        {
            assert(inner[i as int] == (entries@[i as int].0@, value_model(*entries@[i as int].1)));
            assert(decreases_to!(m => m->Object_0));
            assert(decreases_to!(inner => inner[i as int]));
            assert(decreases_to!(inner[i as int] => inner[i as int].1));
            let key = entries[i].0.clone();
            let item = from_value(entries[i].1);
            out.push((key, item));
            i += 1;
        }
        let r = Json::Object(out);
        assert(r.model()->Object_0 =~= inner);
        return r;
    }
    Json::Real(number_text(v))
}

/// Parse a text as JSON.
pub fn read(text: &str) -> (r: Result<Json, String>)
    ensures
        match r {
            Ok(j) => json_read(text@) == Ok::<JsonModel, Seq<char>>(j.model()),
            Err(e) => json_read(text@) == Err::<JsonModel, Seq<char>>(e@),
        },
{
    match parse_value(text) {
        Ok(v) => Ok(from_value(&v)),
        Err(e) => Err(e),
    }
}

/// `Value::Null`.
#[verifier::external_body]
fn null_value() -> (r: Value)
    ensures
        value_model(r) == JsonModel::Null,
{
    Value::Null
}

/// `Value::from` a truth value.
#[verifier::external_body]
fn bool_value(b: bool) -> (r: Value)
    ensures
        value_model(r) == JsonModel::Bool(b),
{
    Value::from(b)
}

/// `Value::from` a `u64`.
#[verifier::external_body]
fn u64_value(n: u64) -> (r: Value)
    ensures
        value_model(r) == JsonModel::Uint(n),
{
    Value::from(n)
}

/// `Value::from` a negative `i64`.
#[verifier::external_body]
fn i64_value(n: i64) -> (r: Value)
    requires
        n < 0,
    ensures
        value_model(r) == JsonModel::Int(n),
{
    Value::from(n)
}

/// `Value::from` a text.
#[verifier::external_body]
fn str_value(s: &str) -> (r: Value)
    ensures
        value_model(r) == JsonModel::Str(s@),
{
    Value::from(s)
}

/// `Value::from` a list of values.
#[verifier::external_body]
fn array_value(v: Vec<Value>) -> (r: Value)
    ensures
        value_model(r) == JsonModel::Array(v@.map_values(|x: Value| value_model(x))),
{
    Value::from(v)
}

/// An object collected from its entries. The map keeps its keys in ascending
/// order, so entries that come in that order stay as they are.
#[verifier::external_body]
fn object_value(e: Vec<(String, Value)>) -> (r: Value)
    requires
        forall|i: int, j: int|
            0 <= i < j < e@.len() ==> crate::order::precedes(
                (#[trigger] e@[i]).0@,
                (#[trigger] e@[j]).0@,
            ),
    ensures
        value_model(r) == JsonModel::Object(
            e@.map_values(|p: (String, Value)| (p.0@, value_model(p.1))),
        ),
{
    e.into_iter().collect()
}

/// Whether every number below zero is in `Int`, and every other in `Uint`.
pub open spec fn signs_ok(j: Json) -> bool
    decreases j,
{
    match j {
        Json::Int(n) => n < 0,
        Json::Array(v) => forall|i: int| 0 <= i < v@.len() ==> signs_ok(#[trigger] v@[i]),
        Json::Object(v) => forall|i: int| 0 <= i < v@.len() ==> signs_ok((#[trigger] v@[i]).1),
        _ => true,
    }
}

/// The `serde_json::Value` for a value of the library.
fn to_value(j: &Json) -> (r: Value)
    requires
        j.integral(),
        j.ordered(),
        signs_ok(*j),
    ensures
        value_model(r) == j.model(),
    decreases j,
{
    match j {
        Json::Null => null_value(),
        Json::Bool(b) => bool_value(*b),
        Json::Uint(n) => u64_value(*n),
        Json::Int(n) => i64_value(*n),
        Json::Real(_) => null_value(),
        Json::Str(s) => str_value(s.as_str()),
        Json::Array(v) => {
            let mut out: Vec<Value> = Vec::new();
            let mut i: usize = 0;
            while i < v.len()
                invariant
                    i <= v@.len(),
                    *j == Json::Array(*v),
                    j.integral(),
                    j.ordered(),
                    signs_ok(*j),
                    out@.len() == i,
                    forall|k: int|
                        0 <= k < i ==> value_model(#[trigger] out@[k]) == v@[k].model(),
                decreases v@.len() - i,
            {
                let item = &v[i];
                assert(*item == v@[i as int]);
                assert(decreases_to!(*j => j->Array_0));
                assert(decreases_to!(*v => v@[i as int]));
                out.push(to_value(item));
                i += 1;
            }
            assert(out@.map_values(|x: Value| value_model(x)) =~= j.model()->Array_0);
            array_value(out)
        },
        Json::Object(v) => {
            let mut out: Vec<(String, Value)> = Vec::new();
            let mut i: usize = 0;
            while i < v.len()
                invariant
                    i <= v@.len(),
                    *j == Json::Object(*v),
                    j.integral(),
                    j.ordered(),
                    signs_ok(*j),
                    out@.len() == i,
                    forall|k: int|
                        0 <= k < i ==> (#[trigger] out@[k]).0 == v@[k].0 && value_model(out@[k].1)
                            == v@[k].1.model(),
                decreases v@.len() - i,
            {
                let pair = &v[i];
                assert(*pair == v@[i as int]);
                assert(decreases_to!(*j => j->Object_0));
                assert(decreases_to!(*v => v@[i as int]));
                assert(decreases_to!(*pair => pair.1));
                let item = to_value(&pair.1);
                out.push((pair.0.clone(), item));
                i += 1;
            }
            assert(out@.map_values(|p: (String, Value)| (p.0@, value_model(p.1)))
                =~= j.model()->Object_0);
            assert forall|a: int, b: int| 0 <= a < b < out@.len() implies crate::order::precedes(
                (#[trigger] out@[a]).0@,
                (#[trigger] out@[b]).0@,
            ) by {
                assert(out@[a].0 == v@[a].0 && out@[b].0 == v@[b].0);
            }
            object_value(out)
        },
    }
}

/// Whether a value can be printed: its numbers are integers, each under its sign, and
/// its keys ascend.
pub fn prints(j: &Json) -> (r: bool)
    ensures
        r == (j.integral() && j.ordered() && signs_ok(*j)),
    decreases j,
{
    match j {
        Json::Real(_) => false,
        Json::Int(n) => *n < 0,
        Json::Array(v) => {
            let mut i: usize = 0;
            while i < v.len()
                invariant
                    i <= v@.len(),
                    *j == Json::Array(*v),
                    forall|k: int|
                        0 <= k < i ==> (#[trigger] v@[k]).integral() && v@[k].ordered() && signs_ok(
                            v@[k],
                        ),
                decreases v@.len() - i,
            {
                let item = &v[i];
                assert(*item == v@[i as int]);
                assert(decreases_to!(*j => j->Array_0));
                assert(decreases_to!(*v => v@[i as int]));
                if !prints(item) {
                    return false;
                }
                i += 1;
            }
            true
        },
        Json::Object(v) => {
            let mut i: usize = 0;
            while i < v.len()
                invariant
                    i <= v@.len(),
                    *j == Json::Object(*v),
                    forall|k: int|
                        0 <= k < i ==> (#[trigger] v@[k]).1.integral() && v@[k].1.ordered()
                            && signs_ok(v@[k].1),
                    forall|a: int, b: int|
                        0 <= a < b < i ==> crate::order::precedes(
                            (#[trigger] v@[a]).0@,
                            (#[trigger] v@[b]).0@,
                        ),
                decreases v@.len() - i,
            {
                let pair = &v[i];
                assert(*pair == v@[i as int]);
                assert(decreases_to!(*j => j->Object_0));
                assert(decreases_to!(*v => v@[i as int]));
                assert(decreases_to!(*pair => pair.1));
                if !prints(&pair.1) {
                    return false;
                }
                if i > 0 && !crate::order::less(v[i - 1].0.as_str(), pair.0.as_str()) {
                    assert(!crate::order::precedes(v@[i - 1].0@, v@[i as int].0@));
                    return false;
                }
                proof {
                    assert forall|a: int| 0 <= a < i implies crate::order::precedes(
                        (#[trigger] v@[a]).0@,
                        v@[i as int].0@,
                    ) by {
                        if a < i - 1 {
                            crate::order::order_is_transitive(
                                v@[a].0@,
                                v@[i - 1].0@,
                                v@[i as int].0@,
                            );
                        }
                    }
                }
                i += 1;
            }
            true
        },
        _ => true,
    }
}

/// Print a value of integers, texts, lists and objects on one line.
pub fn write(j: &Json) -> (r: Result<String, String>)
    requires
        j.integral(),
        j.ordered(),
        signs_ok(*j),
    ensures
        match r {
            Ok(s) => json_compact(j.model()) == Ok::<Seq<char>, Seq<char>>(s@),
            Err(e) => json_compact(j.model()) == Err::<Seq<char>, Seq<char>>(e@),
        },
{
    let v = to_value(j);
    value_text(&v)
}

/// Looking a key up finds the first entry under it, and nothing where there is none or
/// the value is no object.
pub proof fn the_first_entry_counts(j: Json, key: Seq<char>)
    ensures
        !(j is Object) ==> j.at(key) is None,
        j matches Json::Object(v) ==> {
            &&& (j.at(key) is None <==> forall|i: int|
                0 <= i < v@.len() ==> (#[trigger] v@[i]).0@ != key)
            &&& j.at(key) matches Some(x) ==> exists|i: int|
                0 <= i < v@.len() && (#[trigger] v@[i]).0@ == key && v@[i].1 == x && forall|k: int|
                    0 <= k < i ==> (#[trigger] v@[k]).0@ != key
        },
{
    if let Json::Object(v) = j {
        entry_is_first(v@, key, 0);
    }
}

proof fn entry_is_first(v: Seq<(String, Json)>, key: Seq<char>, i: int)
    requires
        0 <= i,
    ensures
        entry(v, key, i) is None <==> forall|k: int| i <= k < v.len() ==> (#[trigger] v[k]).0@ != key,
        entry(v, key, i) matches Some(x) ==> exists|at: int|
            i <= at < v.len() && (#[trigger] v[at]).0@ == key && v[at].1 == x && forall|k: int|
                i <= k < at ==> (#[trigger] v[k]).0@ != key,
    decreases v.len() - i,
{
    if i < v.len() {
        entry_is_first(v, key, i + 1);
        if v[i].0@ == key {
            assert(v[i].1 == entry(v, key, i)->0);
        } else if entry(v, key, i) is Some {
            let at = choose|at: int|
                i + 1 <= at < v.len() && (#[trigger] v[at]).0@ == key && v[at].1 == entry(
                    v,
                    key,
                    i + 1,
                )->0 && forall|k: int| i + 1 <= k < at ==> (#[trigger] v[k]).0@ != key;
            assert(v[at].0@ == key && v[at].1 == entry(v, key, i)->0);
        }
    }
}

/// A value is read as what it is and as nothing else.
pub proof fn a_value_is_what_it_is(j: Json, key: Seq<char>, b: bool, n: u64, t: Seq<char>)
    ensures
        j.truth_at(key) == Some(b) <==> j.at(key) == Some(Json::Bool(b)),
        j.uint_at(key) == Some(n) <==> j.at(key) == Some(Json::Uint(n)),
        j.text_at(key) == Some(t) <==> (j.at(key) matches Some(Json::Str(s)) && s@ == t),
        j.truth() == Some(b) <==> j == Json::Bool(b),
        j.uint() == Some(n) <==> j == Json::Uint(n),
        j.text() == Some(t) <==> (j matches Json::Str(s) && s@ == t),
        j.items() matches Some(v) ==> (j matches Json::Array(a) && a@ == v),
        j is Array ==> j.items() is Some,
{
}

} // verus!
