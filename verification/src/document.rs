//! TOML documents.

use serde_json::Value;
use vstd::prelude::*;

use crate::config::emit::{depth, list_model, table_model, Setting, SettingModel};
use crate::json::{from_value, model_at, value_model, Json, JsonModel};
use crate::text::chars;

verus! {

/// `toml::Value`, opaque: what it holds is `toml_model`.
#[verifier::external_type_specification]
#[verifier::external_body]
pub struct ExToml(toml::Value);

/// What a `toml::Value` holds, a table with its entries in their order.
pub uninterp spec fn toml_model(v: toml::Value) -> SettingModel;

/// What `toml::from_str` makes of a text: a value, or why there is none.
pub uninterp spec fn toml_read(text: Seq<char>) -> Result<JsonModel, Seq<char>>;

/// What `toml::to_string` prints of a value, or why it does not.
pub uninterp spec fn toml_print(m: SettingModel) -> Result<Seq<char>, Seq<char>>;

/// Whether a value that was read holds the same as one that was printed: the same
/// texts, whole numbers and truth values, lists in the same order, and tables with
/// the same keys.
pub open spec fn mirrors(s: SettingModel, j: JsonModel) -> bool
    decreases s,
{
    match s {
        SettingModel::Text(t) => j == JsonModel::Str(t),
        SettingModel::Integer(n) => if n >= 0 {
            j == JsonModel::Uint(n as u64)
        } else {
            j == JsonModel::Int(n as i64)
        },
        SettingModel::Boolean(b) => j == JsonModel::Bool(b),
        SettingModel::List(items) => j matches JsonModel::Array(js) && mirrors_list(items, js),
        SettingModel::Table(t) => j is Object && mirrors_table(t, j),
        _ => true,
    }
}

/// Whether a list that was read holds the same as one that was printed.
pub open spec fn mirrors_list(items: Seq<SettingModel>, js: Seq<JsonModel>) -> bool
    decreases items,
{
    &&& js.len() == items.len()
    &&& forall|i: int| 0 <= i < items.len() ==> mirrors(#[trigger] items[i], js[i])
}

/// Whether a table that was read holds the same as one that was printed.
pub open spec fn mirrors_table(t: Seq<(Seq<char>, SettingModel)>, j: JsonModel) -> bool
    decreases t,
{
    &&& forall|i: int|
        0 <= i < t.len() ==> (model_at(j, (#[trigger] t[i]).0) matches Some(x) && mirrors(
            t[i].1,
            x,
        ))
    &&& forall|k: int|
        0 <= k < j->Object_0.len() ==> has_key(t, (#[trigger] j->Object_0[k]).0)
}

/// Whether a table has a key.
pub open spec fn has_key(t: Seq<(Seq<char>, SettingModel)>, key: Seq<char>) -> bool {
    exists|i: int| 0 <= i < t.len() && (#[trigger] t[i]).0 == key
}

/// Whether no two entries of a table share a key.
pub open spec fn distinct_keys(t: Seq<(Seq<char>, SettingModel)>) -> bool {
    forall|i: int, j: int|
        0 <= i < j < t.len() ==> (#[trigger] t[i]).0 != (#[trigger] t[j]).0
}

/// Whether no table, however deep, has a key twice.
pub open spec fn tidy(s: SettingModel) -> bool
    decreases s,
{
    match s {
        SettingModel::List(items) => tidy_list(items),
        SettingModel::Table(t) => tidy_table(t),
        SettingModel::Real(_) => false,
        SettingModel::Datetime(_) => false,
        _ => true,
    }
}

/// Whether every item of a list is tidy.
pub open spec fn tidy_list(items: Seq<SettingModel>) -> bool
    decreases items,
{
    forall|i: int| 0 <= i < items.len() ==> tidy(#[trigger] items[i])
}

/// Whether a table has no key twice and every value in it is tidy.
pub open spec fn tidy_table(t: Seq<(Seq<char>, SettingModel)>) -> bool
    decreases t,
{
    &&& distinct_keys(t)
    &&& forall|i: int| 0 <= i < t.len() ==> tidy((#[trigger] t[i]).1)
}

/// Whether a quotation mark stands 256 times in a row from a position on.
pub open spec fn quote_run(s: Seq<char>, i: int, mark: char) -> bool {
    &&& 0 <= i && i + 256 <= s.len()
    &&& forall|k: int| i <= k < i + 256 ==> #[trigger] s[k] == mark
}

/// Whether a text can be printed. The printer counts quotation marks in a row in one
/// byte, so 256 of a kind are more than it can take.
pub open spec fn printable_text(s: Seq<char>) -> bool {
    forall|i: int| !(#[trigger] quote_run(s, i, '"')) && !quote_run(s, i, '\'')
}

/// Whether every text of a value, however deep, can be printed.
pub open spec fn printable(s: SettingModel) -> bool
    decreases s,
{
    match s {
        SettingModel::Text(t) => printable_text(t),
        SettingModel::List(items) => printable_list(items),
        SettingModel::Table(t) => printable_table(t),
        _ => true,
    }
}

/// Whether every item of a list can be printed.
pub open spec fn printable_list(items: Seq<SettingModel>) -> bool
    decreases items,
{
    forall|i: int| 0 <= i < items.len() ==> printable(#[trigger] items[i])
}

/// Whether every value of a table can be printed.
pub open spec fn printable_table(t: Seq<(Seq<char>, SettingModel)>) -> bool
    decreases t,
{
    forall|i: int| 0 <= i < t.len() ==> printable((#[trigger] t[i]).1)
}

/// Whether a text can be printed.
pub fn text_prints(s: &str) -> (r: bool)
    ensures
        r == printable_text(s@),
{
    let cs = chars(s);
    let mut run: usize = 0;
    let mut i: usize = 0;
    while i < cs.len()
        invariant
            i <= cs@.len(),
            cs@ == s@,
            run <= i,
            run < 256,
            run > 0 ==> is_quote(cs@[i - 1]),
            forall|k: int| i - run <= k < i ==> #[trigger] cs@[k] == cs@[i - 1],
            run < i && run > 0 ==> cs@[i - run - 1] != cs@[i - 1],
            run == 0 && i > 0 ==> !is_quote(cs@[i - 1]),
            forall|j: int, m: char|
                j + 256 <= i && is_quote(m) ==> !(#[trigger] quote_run(cs@, j, m)),
        decreases cs@.len() - i,
    {
        let c = cs[i];
        if c == '"' || c == '\'' {
            if run > 0 && cs[i - 1] == c {
                run += 1;
            } else {
                run = 1;
            }
        } else {
            run = 0;
        }
        i += 1;
        if run == 256 {
            proof {
                let j: int = i - 256;
                assert(quote_run(s@, j, c));
                if printable_text(s@) {
                    assert(!quote_run(s@, j, '"') && !quote_run(s@, j, '\''));
                }
            }
            return false;
        }
        assert forall|j: int, m: char| j + 256 <= i && is_quote(m) implies !(#[trigger] quote_run(
            cs@,
            j,
            m,
        )) by {
            if quote_run(cs@, j, m) && j + 256 == i {
                assert(cs@[i - 1] == m);
                assert(cs@[i - run - 1] == m);
            }
        }
    }
    assert forall|j: int| !(#[trigger] quote_run(s@, j, '"')) && !quote_run(s@, j, '\'') by {
        assert(is_quote('"') && is_quote('\''));
    }
    true
}

/// Whether a character is a quotation mark.
pub open spec fn is_quote(c: char) -> bool {
    c == '"' || c == '\''
}

/// How deep lists and tables may nest for a printed document to be read again. The
/// reader gives up far beyond this.
pub const DEEPEST: u64 = 8;

/// Whether a text is a document that holds the same as a value.
pub open spec fn reads_as(text: Seq<char>, m: SettingModel) -> bool {
    toml_read(text) matches Ok(j) && mirrors(m, j)
}

/// `toml::from_str` into a `serde_json::Value`: the same text gives the same value,
/// or the same complaint.
#[verifier::external_body]
fn parse_toml(text: &str) -> (r: Result<Value, String>)
    ensures
        match r {
            Ok(v) => toml_read(text@) == Ok::<JsonModel, Seq<char>>(value_model(v)),
            Err(e) => toml_read(text@) == Err::<JsonModel, Seq<char>>(e@),
        },
{
    toml::from_str::<Value>(text).map_err(|e| e.to_string())
}

/// `toml::to_string` of a `toml::Value`. What it prints of a table, `toml::from_str`
/// reads back: the same keys with the same values.
#[verifier::external_body]
fn toml_text(v: &toml::Value) -> (r: Result<String, String>)
    requires
        printable(toml_model(*v)),
    ensures
        match r {
            Ok(s) => {
                &&& toml_print(toml_model(*v)) == Ok::<Seq<char>, Seq<char>>(s@)
                &&& toml_model(*v) is Table && tidy(toml_model(*v)) && depth(toml_model(*v))
                    <= DEEPEST ==> reads_as(s@, toml_model(*v))
            },
            Err(e) => toml_print(toml_model(*v)) == Err::<Seq<char>, Seq<char>>(e@),
        },
{
    toml::to_string(v).map_err(|e| e.to_string())
}

/// `toml::Value::String`.
#[verifier::external_body]
fn text_value(s: String) -> (r: toml::Value)
    ensures
        toml_model(r) == SettingModel::Text(s@),
{
    toml::Value::String(s)
}

/// `toml::Value::Integer`.
#[verifier::external_body]
fn integer_value(n: i64) -> (r: toml::Value)
    ensures
        toml_model(r) == SettingModel::Integer(n as int),
{
    toml::Value::Integer(n)
}

/// `toml::Value::Boolean`.
#[verifier::external_body]
fn boolean_value(b: bool) -> (r: toml::Value)
    ensures
        toml_model(r) == SettingModel::Boolean(b),
{
    toml::Value::Boolean(b)
}

/// `toml::Value::Array`, its items in order.
#[verifier::external_body]
fn list_value(items: Vec<toml::Value>) -> (r: toml::Value)
    ensures
        toml_model(r) == SettingModel::List(items@.map_values(|v: toml::Value| toml_model(v))),
{
    toml::Value::Array(items)
}

/// The entries of a table by what they hold.
pub open spec fn held_entries(entries: Seq<(String, toml::Value)>) -> Seq<
    (Seq<char>, SettingModel),
> {
    entries.map_values(|e: (String, toml::Value)| (e.0@, toml_model(e.1)))
}

/// `toml::Value::Table` of a map collected from entries, which keeps their order.
#[verifier::external_body]
fn table_value(entries: Vec<(String, toml::Value)>) -> (r: toml::Value)
    requires
        distinct_keys(held_entries(entries@)),
    ensures
        toml_model(r) == SettingModel::Table(held_entries(entries@)),
{
    toml::Value::Table(entries.into_iter().collect())
}

/// The `toml::Value` for a setting.
fn to_value(s: &Setting) -> (r: toml::Value)
    requires
        tidy(s.model()),
    ensures
        toml_model(r) == s.model(),
    decreases s,
{
    match s {
        Setting::Text(t) => text_value(t.clone()),
        Setting::Integer(n) => integer_value(*n),
        Setting::Boolean(b) => boolean_value(*b),
        Setting::List(items) => {
            let ghost m = list_model(*items);
            let mut out: Vec<toml::Value> = Vec::new();
            let mut i: usize = 0;
            while i < items.len()
                invariant
                    i <= items@.len(),
                    *s == Setting::List(*items),
                    m == list_model(*items),
                    tidy_list(m),
                    out@.len() == i,
                    forall|k: int| 0 <= k < i ==> toml_model(#[trigger] out@[k]) == m[k],
                decreases items@.len() - i,
            {
                assert(tidy(m[i as int]));
                assert(m[i as int] == items@[i as int].model());
                assert(decreases_to!(*s => s->List_0));
                assert(decreases_to!(*items => items@[i as int]));
                out.push(to_value(&items[i]));
                i += 1;
            }
            assert(out@.map_values(|v: toml::Value| toml_model(v)) =~= m);
            list_value(out)
        },
        Setting::Table(t) => {
            let ghost m = table_model(*t);
            let mut out: Vec<(String, toml::Value)> = Vec::new();
            let mut i: usize = 0;
            while i < t.len()
                invariant
                    i <= t@.len(),
                    *s == Setting::Table(*t),
                    m == table_model(*t),
                    tidy_table(m),
                    out@.len() == i,
                    forall|k: int|
                        0 <= k < i ==> ((#[trigger] out@[k]).0@, toml_model(out@[k].1)) == m[k],
                decreases t@.len() - i,
            {
                let entry = &t[i];
                assert(tidy(m[i as int].1));
                assert(m[i as int] == (entry.0@, entry.1.model()));
                assert(decreases_to!(*s => s->Table_0));
                assert(decreases_to!(*t => t@[i as int]));
                assert(decreases_to!(*entry => entry.1));
                out.push((entry.0.clone(), to_value(&entry.1)));
                i += 1;
            }
            assert(held_entries(out@) =~= m);
            table_value(out)
        },
        // No tidy value holds one of these.
        Setting::Real(t) => text_value(t.clone()),
        Setting::Datetime(t) => text_value(t.clone()),
    }
}

/// Print a setting as a TOML document.
pub fn print(s: &Setting) -> (r: Result<String, String>)
    requires
        tidy(s.model()),
        printable(s.model()),
    ensures
        match r {
            Ok(text) => {
                &&& toml_print(s.model()) == Ok::<Seq<char>, Seq<char>>(text@)
                &&& s.model() is Table && depth(s.model()) <= DEEPEST ==> reads_as(
                    text@,
                    s.model(),
                )
            },
            Err(e) => toml_print(s.model()) == Err::<Seq<char>, Seq<char>>(e@),
        },
{
    toml_text(&to_value(s))
}

/// Read a TOML document.
pub fn read(text: &str) -> (r: Result<Json, String>)
    ensures
        match r {
            Ok(j) => toml_read(text@) == Ok::<JsonModel, Seq<char>>(j.model()),
            Err(e) => toml_read(text@) == Err::<JsonModel, Seq<char>>(e@),
        },
{
    match parse_toml(text) {
        Ok(v) => Ok(from_value(&v)),
        Err(e) => Err(e),
    }
}

} // verus!
