//! The allowances panel: what the daemon is letting through right now.
//!
//! The table is the daemon's own answer, read off the status response. Nothing
//! here writes it: a button sends a command and the next status says what
//! happened, so a refused pair leaves the table exactly as it was.

use vstd::prelude::*;

use crate::gui::settings::devices::{describe, described, AttachedMap};
use crate::gui::status::{seen, Status};
use crate::ipc::{duration_text, format_duration};
use crate::json::Json;
use crate::text::{cat2, cat3, same, views};

verus! {

/// The column titles, in the order `Row` lists its fields.
pub const COLUMNS: [&'static str; 6] = ["SELECTOR", "BUS", "NAME", "GRANTED", "AGE", "EXPIRES"];

/// One line of the table.
#[derive(Debug, Clone, PartialEq, Eq)]
pub struct Row {
    pub selector: String,
    pub bus: String,
    /// The name the daemon knew when it granted this, what the devices reply
    /// calls the device now, or why there is neither. Never empty.
    pub name: String,
    /// How it was granted: paired, or promoted from a violation.
    pub granted: String,
    pub age: String,
    pub expiry: String,
}

/// The `allowances` array of a status response, empty when there is none.
pub open spec fn listed_in(status: Option<Status>) -> Seq<Json> {
    match status {
        Some(s) => match s.rest.at("allowances"@) {
            Some(v) => match v.items() {
                Some(items) => items,
                None => Seq::empty(),
            },
            None => Seq::empty(),
        },
        None => Seq::empty(),
    }
}

/// The text under a key, empty when there is none.
pub open spec fn text_or_empty(entry: Json, key: Seq<char>) -> Seq<char> {
    match entry.text_at(key) {
        Some(t) => t,
        None => Seq::empty(),
    }
}

/// When an allowance runs out. The daemon rounds up, so 0 is an allowance that
/// has run out and is waiting for the next sweep, not one with a second to live.
pub open spec fn expiry_text(secs: Option<u64>) -> Seq<char> {
    match secs {
        None => "never"@,
        Some(s) => if s == 0 {
            "expired"@
        } else {
            "in "@ + duration_text(s)
        },
    }
}

/// How old an allowance is.
pub open spec fn age_text(secs: Option<u64>) -> Seq<char> {
    match secs {
        Some(s) => duration_text(s),
        None => duration_text(0),
    }
}

/// The name shown for an allowance.
pub open spec fn name_shown(entry: Json, attached: Seq<(Seq<char>, Seq<char>)>) -> Seq<char> {
    let name = text_or_empty(entry, "name"@);
    if name.len() == 0 {
        described(text_or_empty(entry, "selector"@), attached)
    } else {
        name
    }
}

impl Row {
    /// Whether this is the row of one entry the daemon reported.
    pub open spec fn shows(self, entry: Json, attached: Seq<(Seq<char>, Seq<char>)>) -> bool {
        &&& self.selector@ == text_or_empty(entry, "selector"@)
        &&& self.bus@ == text_or_empty(entry, "bus"@)
        &&& self.name@ == name_shown(entry, attached)
        &&& self.granted@ == text_or_empty(entry, "granted_by"@)
        &&& self.age@ == age_text(entry.uint_at("age_secs"@))
        &&& self.expiry@ == expiry_text(entry.uint_at("expires_in_secs"@))
    }

    /// Whether two rows are the same but for the age and the expiry.
    pub open spec fn same_but_time(self, other: Row) -> bool {
        &&& self.selector@ == other.selector@
        &&& self.bus@ == other.bus@
        &&& self.name@ == other.name@
        &&& self.granted@ == other.granted@
    }
}

fn list<'a>(status: Option<&'a Status>) -> (r: Vec<&'a Json>)
    ensures
        r@.len() == listed_in(seen(status)).len(),
        forall|i: int| 0 <= i < r@.len() ==> *(#[trigger] r@[i]) == listed_in(seen(status))[i],
{
    let mut out: Vec<&'a Json> = Vec::new();
    if let Some(s) = status {
        if let Some(v) = s.rest.get("allowances") {
            if let Some(items) = v.as_array() {
                let mut i: usize = 0;
                while i < items.len()
                    invariant
                        i <= items@.len(),
                        out@.len() == i,
                        forall|k: int| 0 <= k < i ==> *(#[trigger] out@[k]) == items@[k],
                    decreases items@.len() - i,
                {
                    out.push(&items[i]);
                    i += 1;
                }
            }
        }
    }
    out
}

fn text(entry: &Json, key: &str) -> (r: String)
    ensures
        r@ == text_or_empty(*entry, key@),
{
    match entry.get_str(key) {
        Some(t) => t.to_owned(),
        None => String::new(),
    }
}

fn row(entry: &Json, attached: &AttachedMap) -> (r: Row)
    ensures
        r.shows(*entry, attached@),
{
    let selector = text(entry, "selector");
    let given = text(entry, "name");
    let name = if given.as_str().is_empty() {
        describe(selector.as_str(), attached)
    } else {
        given
    };
    let age = match entry.get_u64("age_secs") {
        Some(secs) => format_duration(secs),
        None => format_duration(0),
    };
    let expiry = match entry.get_u64("expires_in_secs") {
        None => "never".to_owned(),
        Some(secs) => if secs == 0 {
            "expired".to_owned()
        } else {
            cat2("in ", format_duration(secs).as_str())
        },
    };
    Row {
        selector,
        bus: text(entry, "bus"),
        name,
        granted: text(entry, "granted_by"),
        age,
        expiry,
    }
}

/// The table as the daemon reports it. `attached` is what the devices reply
/// knows, for the rows the daemon recorded no name on.
pub fn rows(status: Option<&Status>, attached: &AttachedMap) -> (r: Vec<Row>)
    ensures
        r@.len() == listed_in(seen(status)).len(),
        forall|i: int|
            0 <= i < r@.len() ==> (#[trigger] r@[i]).shows(listed_in(seen(status))[i], attached@),
{
    let entries = list(status);
    let mut out: Vec<Row> = Vec::new();
    let mut i: usize = 0;
    while i < entries.len()
        invariant
            i <= entries@.len(),
            entries@.len() == listed_in(seen(status)).len(),
            forall|k: int|
                0 <= k < entries@.len() ==> *(#[trigger] entries@[k]) == listed_in(
                    seen(status),
                )[k],
            out@.len() == i,
            forall|k: int|
                0 <= k < i ==> (#[trigger] out@[k]).shows(
                    listed_in(seen(status))[k],
                    attached@,
                ),
        decreases entries@.len() - i,
    {
        assert(*entries@[i as int] == listed_in(seen(status))[i as int]);
        out.push(row(entries[i], attached));
        i += 1;
    }
    out
}

/// Whether two tables are the same rows, ignoring age and expiry. Those two
/// move every second, so comparing them would rebuild the grid every tick and
/// take a half-made click with it.
pub fn same_rows(a: &[Row], b: &[Row]) -> (r: bool)
    ensures
        r <==> a@.len() == b@.len() && forall|i: int|
            0 <= i < a@.len() ==> (#[trigger] a@[i]).same_but_time(b@[i]),
{
    if a.len() != b.len() {
        return false;
    }
    let mut i: usize = 0;
    while i < a.len()
        invariant
            i <= a@.len(),
            a@.len() == b@.len(),
            forall|k: int| 0 <= k < i ==> (#[trigger] a@[k]).same_but_time(b@[k]),
        decreases a@.len() - i,
    {
        let x = &a[i];
        let y = &b[i];
        if !same(x.selector.as_str(), y.selector.as_str()) || !same(x.bus.as_str(), y.bus.as_str())
            || !same(x.name.as_str(), y.name.as_str()) || !same(
            x.granted.as_str(),
            y.granted.as_str(),
        ) {
            assert(!a@[i as int].same_but_time(b@[i as int]));
            return false;
        }
        i += 1;
    }
    true
}

/// The selectors of the first `n` entries that carry one.
pub open spec fn selectors_of(entries: Seq<Json>, n: int) -> Seq<Seq<char>>
    decreases n,
{
    if n <= 0 {
        Seq::empty()
    } else {
        match entries[n - 1].text_at("selector"@) {
            Some(s) => selectors_of(entries, n - 1).push(s),
            None => selectors_of(entries, n - 1),
        }
    }
}

/// The selectors alone, for the devices panel to mark what is already covered.
pub fn selectors(status: Option<&Status>) -> (r: Vec<String>)
    ensures
        views(r@) == selectors_of(
            listed_in(seen(status)),
            listed_in(seen(status)).len() as int,
        ),
{
    let entries = list(status);
    let ghost all = listed_in(seen(status));
    let mut out: Vec<String> = Vec::new();
    let mut i: usize = 0;
    assert(views(out@) =~= selectors_of(all, 0));
    while i < entries.len()
        invariant
            i <= entries@.len(),
            entries@.len() == all.len(),
            forall|k: int| 0 <= k < entries@.len() ==> *(#[trigger] entries@[k]) == all[k],
            views(out@) == selectors_of(all, i as int),
        decreases entries@.len() - i,
    {
        assert(*entries@[i as int] == all[i as int]);
        let ghost sofar = out@;
        if let Some(s) = entries[i].get_str("selector") {
            out.push(s.to_owned());
            assert(views(out@) =~= views(sofar).push(s@));
        }
        i += 1;
    }
    out
}

/// The seconds a pairing window stays open, as the status reports them.
pub open spec fn window_left(status: Option<Status>) -> Option<u64> {
    match status {
        Some(s) => s.rest.uint_at("pairing_window_secs_left"@),
        None => None,
    }
}

/// What the pairing controls say about themselves.
pub fn pairing_line(status: Option<&Status>) -> (r: String)
    ensures
        r@ == match window_left(seen(status)) {
            Some(secs) => "A pairing window is open: the next new device is allowed, "@
                + duration_text(secs) + " left"@,
            None => "No pairing window is open."@,
        },
{
    let left = match status {
        Some(s) => s.rest.get_u64("pairing_window_secs_left"),
        None => None,
    };
    match left {
        Some(secs) => cat3(
            "A pairing window is open: the next new device is allowed, ",
            format_duration(secs).as_str(),
            " left",
        ),
        None => "No pairing window is open.".to_owned(),
    }
}

/// A tick that only moves the clock rebuilds nothing: two reports whose entries
/// agree on selector, bus, name and grant make the same table.
pub proof fn time_alone_rebuilds_nothing(
    a: Row,
    b: Row,
    x: Json,
    y: Json,
    attached: Seq<(Seq<char>, Seq<char>)>,
)
    requires
        a.shows(x, attached),
        b.shows(y, attached),
        x.text_at("selector"@) == y.text_at("selector"@),
        x.text_at("bus"@) == y.text_at("bus"@),
        x.text_at("name"@) == y.text_at("name"@),
        x.text_at("granted_by"@) == y.text_at("granted_by"@),
    ensures
        a.same_but_time(b),
{
}

/// No row shows a blank where a name would go.
pub proof fn every_row_has_a_name(a: Row, x: Json, attached: Seq<(Seq<char>, Seq<char>)>)
    requires
        a.shows(x, attached),
    ensures
        a.name@.len() > 0,
{
    crate::gui::settings::devices::a_description_is_never_empty(
        text_or_empty(x, "selector"@),
        attached,
    );
}

/// An allowance is shown as the daemon lists it, its expiry as never, as past, or as the
/// time until it, and under the device's name where the daemon gave none.
pub proof fn an_allowance_is_shown_as_it_is_listed(
    row: Row,
    entry: Json,
    attached: Seq<(Seq<char>, Seq<char>)>,
)
    requires
        row.shows(entry, attached),
    ensures
        entry.at("selector"@) matches Some(Json::Str(s)) ==> row.selector@ == s@,
        entry.at("bus"@) matches Some(Json::Str(s)) ==> row.bus@ == s@,
        entry.at("granted_by"@) matches Some(Json::Str(s)) ==> row.granted@ == s@,
        entry.at("name"@) matches Some(Json::Str(s)) ==> (s@.len() > 0 ==> row.name@ == s@),
        !(entry.at("name"@) matches Some(Json::Str(s)) && s@.len() > 0) ==> row.name@ == described(
            row.selector@,
            attached,
        ),
        entry.at("age_secs"@) matches Some(Json::Uint(n)) ==> row.age@ == duration_text(n),
        entry.at("expires_in_secs"@) == Some(Json::Uint(0)) ==> row.expiry@ == "expired"@,
        entry.at("expires_in_secs"@) matches Some(Json::Uint(n)) ==> (n > 0 ==> row.expiry@ == "in "@
            + duration_text(n)),
        !(entry.at("expires_in_secs"@) matches Some(Json::Uint(_))) ==> row.expiry@ == "never"@,
{
}

/// The allowances are those that the status lists, and there are none without one.
pub proof fn the_allowances_are_those_listed(status: Option<Status>)
    ensures
        status is None ==> listed_in(status).len() == 0 && window_left(status) is None,
        status matches Some(s) ==> {
            &&& s.rest.at("allowances"@) matches Some(Json::Array(v)) ==> listed_in(status) == v@
            &&& !(s.rest.at("allowances"@) matches Some(Json::Array(_))) ==> listed_in(status).len()
                == 0
            &&& s.rest.at("pairing_window_secs_left"@) matches Some(Json::Uint(n)) ==> window_left(
                status,
            ) == Some(n)
        },
{
}

/// The selectors that are allowed are those of all entries that have one.
pub proof fn every_selector_is_among_them(entries: Seq<Json>, n: int, x: Seq<char>)
    requires
        0 <= n <= entries.len(),
    ensures
        selectors_of(entries, n).contains(x) <==> exists|i: int|
            0 <= i < n && ((#[trigger] entries[i]).at("selector"@) matches Some(Json::Str(s)) && s@
                == x),
    decreases n,
{
    if n > 0 {
        every_selector_is_among_them(entries, n - 1, x);
        let front = selectors_of(entries, n - 1);
        let all = selectors_of(entries, n);
        if front.contains(x) {
            let k = choose|k: int| 0 <= k < front.len() && front[k] == x;
            assert(all[k] == x);
        }
        if all.contains(x) {
            let k = choose|k: int| 0 <= k < all.len() && all[k] == x;
            if k < front.len() {
                assert(front[k] == x);
                assert(front.contains(x));
            } else {
                assert(entries[n - 1].text_at("selector"@) == Some(x));
            }
        }
        if entries[n - 1].at("selector"@) matches Some(Json::Str(s)) && s@ == x {
            assert(all[front.len() as int] == x);
        }
    }
}

/// A row is rebuilt exactly where one of its texts changed that time does not move.
pub proof fn what_time_does_not_move(a: Row, b: Row)
    ensures
        a.same_but_time(b) <==> a.selector@ == b.selector@ && a.bus@ == b.bus@ && a.name@ == b.name@
            && a.granted@ == b.granted@,
{
}

} // verus!
