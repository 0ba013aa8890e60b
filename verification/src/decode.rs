//! Records out of JSON. A key that is not sent takes its default; a value of the
//! wrong kind makes what holds it unreadable. A record is sent as an object, and
//! its fields in order are read too.

use vstd::prelude::*;

use crate::json::Json;
use crate::text::{same, views};

verus! {

// ---- values --------------------------------------------------------------

/// A number that is 0 where it is missing.
pub open spec fn number_of(j: Option<Json>) -> Option<u64> {
    match j {
        None => Some(0),
        Some(v) => v.uint(),
    }
}

/// A truth value that is false where it is missing.
pub open spec fn flag_of(j: Option<Json>) -> Option<bool> {
    match j {
        None => Some(false),
        Some(v) => v.truth(),
    }
}

/// A text that is empty where it is missing.
pub open spec fn text_of(j: Option<Json>) -> Option<Seq<char>> {
    match j {
        None => Some(Seq::empty()),
        Some(v) => v.text(),
    }
}

/// A number that may be missing or null.
pub open spec fn maybe_number(j: Option<Json>) -> Option<Option<u64>> {
    match j {
        None => Some(None),
        Some(v) => match v {
            Json::Null => Some(None),
            Json::Uint(n) => Some(Some(n)),
            _ => None,
        },
    }
}

/// A text that may be missing or null.
pub open spec fn maybe_text(j: Option<Json>) -> Option<Option<Seq<char>>> {
    match j {
        None => Some(None),
        Some(v) => match v {
            Json::Null => Some(None),
            Json::Str(s) => Some(Some(s@)),
            _ => None,
        },
    }
}

/// The text in an option, `None` where it is missing.
pub open spec fn told(s: Option<String>) -> Option<Seq<char>> {
    match s {
        Some(t) => Some(t@),
        None => None,
    }
}

/// What a reference points at, where there is one.
pub open spec fn held(j: Option<&Json>) -> Option<Json> {
    match j {
        Some(v) => Some(*v),
        None => None,
    }
}

/// A number that is 0 where it is missing, `None` where it is no number.
pub fn read_number(j: Option<&Json>) -> (r: Option<u64>)
    ensures
        r == number_of(held(j)),
{
    match j {
        None => Some(0),
        Some(v) => v.as_u64(),
    }
}

/// A truth value that is false where it is missing, `None` where it is none.
pub fn read_flag(j: Option<&Json>) -> (r: Option<bool>)
    ensures
        r == flag_of(held(j)),
{
    match j {
        None => Some(false),
        Some(v) => v.as_bool(),
    }
}

/// A text that is empty where it is missing, `None` where it is no text.
pub fn read_text(j: Option<&Json>) -> (r: Option<String>)
    ensures
        told(r) == text_of(held(j)),
{
    match j {
        None => Some(String::new()),
        Some(v) => match v.as_str() {
            Some(s) => Some(s.to_owned()),
            None => None,
        },
    }
}

/// A number that may be missing or null, `None` where it is another value.
pub fn read_maybe_number(j: Option<&Json>) -> (r: Option<Option<u64>>)
    ensures
        r == maybe_number(held(j)),
{
    match j {
        None => Some(None),
        Some(v) => match v {
            Json::Null => Some(None),
            Json::Uint(n) => Some(Some(*n)),
            _ => None,
        },
    }
}

/// A text that may be missing or null, `None` where it is another value.
pub fn read_maybe_text(j: Option<&Json>) -> (r: Option<Option<String>>)
    ensures
        match r {
            Some(t) => maybe_text(held(j)) == Some(told(t)),
            None => maybe_text(held(j)) is None,
        },
{
    match j {
        None => Some(None),
        Some(v) => match v {
            Json::Null => Some(None),
            Json::Str(s) => Some(Some(s.clone())),
            _ => None,
        },
    }
}

// ---- records -------------------------------------------------------------

/// Whether a value can hold a record of `n` fields.
pub open spec fn record(j: Json, n: int) -> bool {
    match j {
        Json::Object(_) => true,
        Json::Array(v) => v@.len() <= n,
        _ => false,
    }
}

/// A field of a record, by its key or by its position.
pub open spec fn field(j: Json, key: Seq<char>, i: int) -> Option<Json> {
    match j {
        Json::Object(_) => j.at(key),
        Json::Array(v) => if i < v@.len() {
            Some(v@[i])
        } else {
            None
        },
        _ => None,
    }
}

/// Whether a value can hold a record of `n` fields.
pub fn is_record(j: &Json, n: usize) -> (r: bool)
    ensures
        r == record(*j, n as int),
{
    match j {
        Json::Object(_) => true,
        Json::Array(v) => v.len() <= n,
        _ => false,
    }
}

/// A field of a record, by its key or by its position.
pub fn field_of<'a>(j: &'a Json, key: &str, i: usize) -> (r: Option<&'a Json>)
    ensures
        held(r) == field(*j, key@, i as int),
{
    match j {
        Json::Object(_) => j.get(key),
        Json::Array(v) => if i < v.len() {
            Some(&v[i])
        } else {
            None
        },
        _ => None,
    }
}

// ---- tables --------------------------------------------------------------

/// A text that may be missing.
pub open spec fn text_if_any(j: Option<Json>) -> Option<Option<Seq<char>>> {
    match j {
        None => Some(None),
        Some(v) => match v.text() {
            Some(t) => Some(Some(t)),
            None => None,
        },
    }
}

/// Read a text that may be missing.
pub fn read_if_any(j: Option<&Json>) -> (r: Option<Option<String>>)
    ensures
        match r {
            Some(t) => text_if_any(held(j)) == Some(told(t)),
            None => text_if_any(held(j)) is None,
        },
{
    match j {
        None => Some(None),
        Some(v) => match v.as_str() {
            Some(s) => Some(Some(s.to_owned())),
            None => None,
        },
    }
}

/// A truth value, or its default.
pub open spec fn flag_or(j: Option<Json>, d: bool) -> Option<bool> {
    match j {
        None => Some(d),
        Some(v) => v.truth(),
    }
}

/// A number, or its default.
pub open spec fn number_or(j: Option<Json>, d: u64) -> Option<u64> {
    match j {
        None => Some(d),
        Some(v) => v.uint(),
    }
}

/// A text, or its default.
pub open spec fn text_or(j: Option<Json>, d: Seq<char>) -> Option<Seq<char>> {
    match j {
        None => Some(d),
        Some(v) => v.text(),
    }
}

/// Whether each of these is a text.
pub open spec fn all_texts(v: Seq<Json>) -> bool {
    forall|i: int| 0 <= i < v.len() ==> (#[trigger] v[i]).text() is Some
}

/// The texts these are.
pub open spec fn text_values(v: Seq<Json>) -> Seq<Seq<char>> {
    v.map_values(|j: Json| j.text()->0)
}

/// A list of texts, empty where it is missing.
pub open spec fn texts_in(j: Option<Json>) -> Option<Seq<Seq<char>>> {
    match j {
        None => Some(Seq::empty()),
        Some(v) => match v.items() {
            Some(items) => if all_texts(items) {
                Some(text_values(items))
            } else {
                None
            },
            None => None,
        },
    }
}

/// Whether every key of these entries is a known one.
pub open spec fn known_keys(v: Seq<(String, Json)>, known: Seq<&'static str>) -> bool {
    forall|i: int| 0 <= i < v.len() ==> is_known((#[trigger] v[i]).0@, known)
}

/// Whether a key is a known one.
pub open spec fn is_known(key: Seq<char>, known: Seq<&'static str>) -> bool {
    exists|k: int| 0 <= k < known.len() && (#[trigger] known[k])@ == key
}

/// Whether a value is a table of known keys.
pub open spec fn table_of(j: Json, known: Seq<&'static str>) -> bool {
    j matches Json::Object(v) && known_keys(v@, known)
}

/// Whether a section is missing, or a table of known keys.
pub open spec fn section_of(j: Option<Json>, known: Seq<&'static str>) -> bool {
    match j {
        None => true,
        Some(v) => table_of(v, known),
    }
}

/// What stands under a key of a section.
pub open spec fn within(j: Option<Json>, key: Seq<char>) -> Option<Json> {
    match j {
        None => None,
        Some(v) => v.at(key),
    }
}

/// Read a truth value, or its default.
pub fn read_flag_or(j: Option<&Json>, d: bool) -> (r: Option<bool>)
    ensures
        r == flag_or(held(j), d),
{
    match j {
        None => Some(d),
        Some(v) => v.as_bool(),
    }
}

/// Read a number, or its default.
pub fn read_number_or(j: Option<&Json>, d: u64) -> (r: Option<u64>)
    ensures
        r == number_or(held(j), d),
{
    match j {
        None => Some(d),
        Some(v) => v.as_u64(),
    }
}

/// Read a text, or its default.
pub fn read_text_or(j: Option<&Json>, d: &str) -> (r: Option<String>)
    ensures
        told(r) == text_or(held(j), d@),
{
    match j {
        None => Some(d.to_owned()),
        Some(v) => match v.as_str() {
            Some(s) => Some(s.to_owned()),
            None => None,
        },
    }
}

/// Read texts.
pub fn read_items(v: &[Json]) -> (r: Option<Vec<String>>)
    ensures
        match r {
            Some(list) => all_texts(v@) && views(list@) == text_values(v@),
            None => !all_texts(v@),
        },
{
    let mut out: Vec<String> = Vec::new();
    let mut i: usize = 0;
    while i < v.len()
        invariant
            i <= v@.len(),
            out@.len() == i,
            forall|k: int| 0 <= k < i ==> (#[trigger] v@[k]).text() == Some(out@[k]@),
        decreases v@.len() - i,
    {
        match v[i].as_str() {
            Some(s) => {
                out.push(s.to_owned());
            },
            None => {
                assert(v@[i as int].text() is None);
                return None;
            },
        }
        i += 1;
    }
    assert(views(out@) =~= text_values(v@));
    Some(out)
}

/// Read a list of texts, empty where it is missing.
pub fn read_texts(j: Option<&Json>) -> (r: Option<Vec<String>>)
    ensures
        match r {
            Some(list) => texts_in(held(j)) == Some(views(list@)),
            None => texts_in(held(j)) is None,
        },
{
    match j {
        None => {
            let none: Vec<String> = Vec::new();
            assert(views(none@) =~= Seq::<Seq<char>>::empty());
            Some(none)
        },
        Some(v) => match v.as_array() {
            Some(items) => read_items(items),
            None => None,
        },
    }
}

/// Whether a value is a table of known keys.
pub fn is_table(j: &Json, known: &[&'static str]) -> (r: bool)
    ensures
        r == table_of(*j, known@),
{
    match j {
        Json::Object(v) => {
            let mut i: usize = 0;
            while i < v.len()
                invariant
                    i <= v@.len(),
                    *j == Json::Object(*v),
                    forall|a: int| 0 <= a < i ==> is_known((#[trigger] v@[a]).0@, known@),
                decreases v@.len() - i,
            {
                let mut found = false;
                let mut k: usize = 0;
                while k < known.len()
                    invariant
                        k <= known@.len(),
                        i < v@.len(),
                        found == exists|b: int|
                            0 <= b < k && (#[trigger] known@[b])@ == v@[i as int].0@,
                    decreases known@.len() - k,
                {
                    if same(v[i].0.as_str(), known[k]) {
                        found = true;
                        assert(known@[k as int]@ == v@[i as int].0@);
                    }
                    k += 1;
                }
                if !found {
                    assert(!is_known(v@[i as int].0@, known@));
                    return false;
                }
                i += 1;
            }
            true
        },
        _ => false,
    }
}

/// Whether a section is missing, or a table of known keys.
pub fn is_section(j: Option<&Json>, known: &[&'static str]) -> (r: bool)
    ensures
        r == section_of(held(j), known@),
{
    match j {
        None => true,
        Some(v) => is_table(v, known),
    }
}

/// What stands under a key of a section.
pub fn find<'a>(j: Option<&'a Json>, key: &str) -> (r: Option<&'a Json>)
    ensures
        held(r) == within(held(j), key@),
{
    match j {
        None => None,
        Some(v) => v.get(key),
    }
}

// ---- what holds of fields ------------------------------------------------

/// A field that is left out takes its default; one that is there is read where it has
/// the right kind, and is no value otherwise.
pub proof fn a_field_is_read_or_defaulted(v: Json, n: u64, b: bool, s: String, d: u64, e: bool, t: Seq<char>)
    ensures
        number_of(None) == Some(0u64) && flag_of(None) == Some(false) && text_of(None) == Some(
            Seq::<char>::empty(),
        ),
        number_or(None, d) == Some(d) && flag_or(None, e) == Some(e) && text_or(None, t) == Some(t),
        maybe_number(None) == Some(None::<u64>) && maybe_number(Some(Json::Null)) == Some(None::<u64>),
        maybe_text(None) == Some(None::<Seq<char>>) && maybe_text(Some(Json::Null)) == Some(
            None::<Seq<char>>,
        ),
        text_if_any(None) == Some(None::<Seq<char>>),
        number_of(Some(Json::Uint(n))) == Some(n) && number_or(Some(Json::Uint(n)), d) == Some(n)
            && maybe_number(Some(Json::Uint(n))) == Some(Some(n)),
        flag_of(Some(Json::Bool(b))) == Some(b) && flag_or(Some(Json::Bool(b)), e) == Some(b),
        text_of(Some(Json::Str(s))) == Some(s@) && text_or(Some(Json::Str(s)), t) == Some(s@)
            && maybe_text(Some(Json::Str(s))) == Some(Some(s@)) && text_if_any(Some(Json::Str(s)))
            == Some(Some(s@)),
        !(v is Uint) ==> number_of(Some(v)) is None && number_or(Some(v), d) is None,
        !(v is Uint || v is Null) ==> maybe_number(Some(v)) is None,
        !(v is Bool) ==> flag_of(Some(v)) is None && flag_or(Some(v), e) is None,
        !(v is Str) ==> text_of(Some(v)) is None && text_or(Some(v), t) is None && text_if_any(
            Some(v),
        ) is None,
        !(v is Str || v is Null) ==> maybe_text(Some(v)) is None,
{
}

/// A record's field is the entry of its name in an object, and stands in its place in a
/// list; nothing else has fields.
pub proof fn a_field_is_named_or_placed(j: Json, key: Seq<char>, i: int)
    requires
        0 <= i,
    ensures
        j is Object ==> field(j, key, i) == j.at(key) && record(j, i),
        j matches Json::Array(v) ==> (record(j, i) <==> v@.len() <= i) && (i < v@.len() ==> field(
            j,
            key,
            i,
        ) == Some(v@[i])) && (i >= v@.len() ==> field(j, key, i) is None),
        !(j is Object || j is Array) ==> field(j, key, i) is None && !record(j, i),
{
}

/// A list of texts is read item by item, and not at all where one of them is no text.
pub proof fn texts_are_read_one_by_one(v: Json)
    ensures
        texts_in(None) == Some(Seq::<Seq<char>>::empty()),
        !(v is Array) ==> texts_in(Some(v)) is None,
        v matches Json::Array(a) ==> {
            &&& texts_in(Some(v)) is Some <==> forall|i: int|
                0 <= i < a@.len() ==> (#[trigger] a@[i]) is Str
            &&& texts_in(Some(v)) matches Some(l) ==> l.len() == a@.len() && forall|i: int|
                0 <= i < l.len() ==> (a@[i] matches Json::Str(s) && s@ == #[trigger] l[i])
        },
{
    if let Json::Array(a) = v {
        assert forall|i: int| 0 <= i < a@.len() implies ((#[trigger] a@[i]).text() is Some <==> a@[i] is Str) by {}
        if all_texts(a@) {
            assert forall|i: int| 0 <= i < a@.len() implies (#[trigger] a@[i]) is Str by {
                assert(a@[i].text() is Some);
            }
        }
    }
}

/// A table is a known one where it is an object each of whose keys is among the known.
pub proof fn a_key_nobody_knows_spoils_a_table(j: Json, known: Seq<&'static str>, key: Seq<char>)
    ensures
        (exists|k: int| 0 <= k < known.len() && (#[trigger] known[k])@ == key) <==> is_known(key, known),
        !(j is Object) ==> !table_of(j, known),
        j matches Json::Object(v) ==> (table_of(j, known) <==> forall|i: int|
            0 <= i < v@.len() ==> is_known((#[trigger] v@[i]).0@, known)),
        section_of(None, known),
        section_of(Some(j), known) == table_of(j, known),
{
}

} // verus!
