//! The daemon's replies, decoded. An older daemon leaves keys out, and they take
//! their defaults.

use vstd::prelude::*;

use crate::decode::{
    field, field_of, flag_of, held, is_record, maybe_number, maybe_text, number_of, read_flag,
    read_maybe_number, read_maybe_text, read_number, read_text, record, text_of, told,
};
use crate::gui::status::{reply_data, BusDevices, DeviceEntry, Pending, Status, Violation};
use crate::json::Json;
use crate::text::same;

verus! {

/// Whether a value is a grace period. It has no defaults: each field is owed.
pub open spec fn pending_reads(j: Json) -> bool {
    &&& record(j, 3)
    &&& field(j, "bus"@, 0) matches Some(v) && v.text() is Some
    &&& field(j, "reason"@, 1) matches Some(v) && v.text() is Some
    &&& field(j, "secs_left"@, 2) matches Some(v) && v.uint() is Some
}

/// Whether a grace period is the one a value holds.
pub open spec fn pending_is(p: Pending, j: Json) -> bool {
    &&& field(j, "bus"@, 0) matches Some(v) && v.text() == Some(p.bus@)
    &&& field(j, "reason"@, 1) matches Some(v) && v.text() == Some(p.reason@)
    &&& field(j, "secs_left"@, 2) matches Some(v) && v.uint() == Some(p.secs_left)
}

fn read_pending(j: &Json) -> (r: Option<Pending>)
    ensures
        match r {
            Some(p) => pending_reads(*j) && pending_is(p, *j),
            None => !pending_reads(*j),
        },
{
    if !is_record(j, 3) {
        return None;
    }
    let bus = match field_of(j, "bus", 0) {
        Some(v) => v.as_str(),
        None => None,
    };
    let reason = match field_of(j, "reason", 1) {
        Some(v) => v.as_str(),
        None => None,
    };
    let secs_left = match field_of(j, "secs_left", 2) {
        Some(v) => v.as_u64(),
        None => None,
    };
    match (bus, reason, secs_left) {
        (Some(b), Some(r), Some(s)) => Some(
            Pending { bus: b.to_owned(), reason: r.to_owned(), secs_left: s },
        ),
        _ => None,
    }
}

/// Whether a value is a grace period, or says there is none.
pub open spec fn maybe_pending_reads(j: Option<Json>) -> bool {
    match j {
        None => true,
        Some(v) => v is Null || pending_reads(v),
    }
}

/// Whether a grace period, or none, is what a value holds.
pub open spec fn maybe_pending_is(p: Option<Pending>, j: Option<Json>) -> bool {
    match j {
        None => p is None,
        Some(v) => if v is Null {
            p is None
        } else {
            p matches Some(q) && pending_is(q, v)
        },
    }
}

fn read_maybe_pending(j: Option<&Json>) -> (r: Option<Option<Pending>>)
    ensures
        match r {
            Some(p) => maybe_pending_reads(held(j)) && maybe_pending_is(p, held(j)),
            None => !maybe_pending_reads(held(j)),
        },
{
    match j {
        None => Some(None),
        Some(v) => match v {
            Json::Null => Some(None),
            _ => match read_pending(v) {
                Some(p) => Some(Some(p)),
                None => None,
            },
        },
    }
}

// ---- status --------------------------------------------------------------

/// Whether a key is one of the fields a status names.
pub open spec fn named(key: Seq<char>) -> bool {
    ||| key == "armed"@
    ||| key == "mode"@
    ||| key == "uptime_secs"@
    ||| key == "disarm_remaining_secs"@
    ||| key == "usb_devices"@
    ||| key == "thunderbolt_devices"@
    ||| key == "sdcard_devices"@
    ||| key == "pci_devices"@
    ||| key == "violations_logged"@
    ||| key == "last_poll_ms_ago"@
    ||| key == "dry_run"@
    ||| key == "pending_violation"@
    ||| key == "power_state"@
    ||| key == "lid_state"@
    ||| key == "network_links_down"@
    ||| key == "config_path"@
    ||| key == "version"@
}

fn is_named(key: &str) -> (r: bool)
    ensures
        r == named(key@),
{
    same(key, "armed") || same(key, "mode") || same(key, "uptime_secs") || same(
        key,
        "disarm_remaining_secs",
    ) || same(key, "usb_devices") || same(key, "thunderbolt_devices") || same(key, "sdcard_devices")
        || same(key, "pci_devices") || same(key, "violations_logged") || same(
        key,
        "last_poll_ms_ago",
    ) || same(key, "dry_run") || same(key, "pending_violation") || same(key, "power_state") || same(
        key,
        "lid_state",
    ) || same(key, "network_links_down") || same(key, "config_path") || same(key, "version")
}

/// The entries among the first `n` whose key no field names.
pub open spec fn others(v: Seq<(String, Json)>, n: int) -> Seq<(String, Json)>
    decreases n,
{
    if n <= 0 {
        Seq::empty()
    } else if named(v[n - 1].0@) {
        others(v, n - 1)
    } else {
        others(v, n - 1).push(v[n - 1])
    }
}

/// What a key that no field names finds among all entries, it finds among the
/// others.
pub proof fn others_are_kept(v: Seq<(String, Json)>, n: int, key: Seq<char>)
    requires
        0 <= n <= v.len(),
        !named(key),
    ensures
        crate::json::entry(others(v, n), key, 0) == crate::json::entry(v.take(n), key, 0),
    decreases n,
{
    if n > 0 {
        others_are_kept(v, n - 1, key);
        assert(v.take(n) =~= v.take(n - 1).push(v[n - 1]));
        pushed(v.take(n - 1), v[n - 1], key, 0);
        if !named(v[n - 1].0@) {
            pushed(others(v, n - 1), v[n - 1], key, 0);
        }
    }
}

/// What a key finds once an entry was put at the end.
proof fn pushed(v: Seq<(String, Json)>, e: (String, Json), key: Seq<char>, i: int)
    requires
        0 <= i <= v.len(),
    ensures
        crate::json::entry(v.push(e), key, i) == match crate::json::entry(v, key, i) {
            Some(j) => Some(j),
            None => if e.0@ == key {
                Some(e.1)
            } else {
                None
            },
        },
    decreases v.len() - i,
{
    if i < v.len() {
        pushed(v, e, key, i + 1);
    } else {
        assert(crate::json::entry(v.push(e), key, i + 1) is None);
    }
}

/// Whether a value is the data of a status response.
pub open spec fn status_reads(j: Json) -> bool {
    &&& j is Object
    &&& j.truth_at("armed"@) is Some
    &&& j.text_at("mode"@) is Some
    &&& number_of(j.at("uptime_secs"@)) is Some
    &&& maybe_number(j.at("disarm_remaining_secs"@)) is Some
    &&& number_of(j.at("usb_devices"@)) is Some
    &&& number_of(j.at("thunderbolt_devices"@)) is Some
    &&& number_of(j.at("sdcard_devices"@)) is Some
    &&& number_of(j.at("pci_devices"@)) is Some
    &&& number_of(j.at("violations_logged"@)) is Some
    &&& maybe_number(j.at("last_poll_ms_ago"@)) is Some
    &&& flag_of(j.at("dry_run"@)) is Some
    &&& maybe_pending_reads(j.at("pending_violation"@))
    &&& maybe_text(j.at("power_state"@)) is Some
    &&& maybe_text(j.at("lid_state"@)) is Some
    &&& maybe_number(j.at("network_links_down"@)) is Some
    &&& text_of(j.at("config_path"@)) is Some
    &&& text_of(j.at("version"@)) is Some
}

/// Whether a status is the one a value holds.
pub open spec fn status_is(s: Status, j: Json) -> bool {
    &&& j.truth_at("armed"@) == Some(s.armed)
    &&& j.text_at("mode"@) == Some(s.mode@)
    &&& number_of(j.at("uptime_secs"@)) == Some(s.uptime_secs)
    &&& maybe_number(j.at("disarm_remaining_secs"@)) == Some(s.disarm_remaining_secs)
    &&& number_of(j.at("usb_devices"@)) == Some(s.usb_devices)
    &&& number_of(j.at("thunderbolt_devices"@)) == Some(s.thunderbolt_devices)
    &&& number_of(j.at("sdcard_devices"@)) == Some(s.sdcard_devices)
    &&& number_of(j.at("pci_devices"@)) == Some(s.pci_devices)
    &&& number_of(j.at("violations_logged"@)) == Some(s.violations_logged)
    &&& maybe_number(j.at("last_poll_ms_ago"@)) == Some(s.last_poll_ms_ago)
    &&& flag_of(j.at("dry_run"@)) == Some(s.dry_run)
    &&& maybe_pending_is(s.pending_violation, j.at("pending_violation"@))
    &&& maybe_text(j.at("power_state"@)) == Some(told(s.power_state))
    &&& maybe_text(j.at("lid_state"@)) == Some(told(s.lid_state))
    &&& maybe_number(j.at("network_links_down"@)) == Some(s.network_links_down)
    &&& text_of(j.at("config_path"@)) == Some(s.config_path@)
    &&& text_of(j.at("version"@)) == Some(s.version@)
    &&& rest_is(s.rest, j)
}

/// Whether these are the entries of a value that no field names.
pub open spec fn rest_is(rest: Json, j: Json) -> bool {
    match (rest, j) {
        (Json::Object(r), Json::Object(v)) => r@ == others(v@, v@.len() as int),
        _ => false,
    }
}

fn other_entries(entries: Vec<(String, Json)>) -> (r: Vec<(String, Json)>)
    ensures
        r@ == others(entries@, entries@.len() as int),
{
    let ghost all = entries@;
    let mut out: Vec<(String, Json)> = Vec::new();
    assert(out@ =~= others(all, 0));
    for e in it: entries
        invariant
            it.seq() == all,
            out@ == others(all, it.index() as int),
    {
        if !is_named(e.0.as_str()) {
            out.push(e);
        }
    }
    out
}

/// Decode the data of a status response.
pub fn read_status(j: Json) -> (r: Option<Status>)
    ensures
        match r {
            Some(s) => status_reads(j) && status_is(s, j),
            None => !status_reads(j),
        },
{
    if !j.is_object() {
        return None;
    }
    let armed = match j.get_bool("armed") {
        Some(v) => v,
        None => {
            return None;
        },
    };
    let mode = match j.get_str("mode") {
        Some(v) => v.to_owned(),
        None => {
            return None;
        },
    };
    let counts = match (
        read_number(j.get("uptime_secs")),
        read_number(j.get("usb_devices")),
        read_number(j.get("thunderbolt_devices")),
        read_number(j.get("sdcard_devices")),
        read_number(j.get("pci_devices")),
        read_number(j.get("violations_logged")),
    ) {
        (Some(a), Some(b), Some(c), Some(d), Some(e), Some(f)) => (a, b, c, d, e, f),
        _ => {
            return None;
        },
    };
    let maybes = match (
        read_maybe_number(j.get("disarm_remaining_secs")),
        read_maybe_number(j.get("last_poll_ms_ago")),
        read_maybe_number(j.get("network_links_down")),
    ) {
        (Some(a), Some(b), Some(c)) => (a, b, c),
        _ => {
            return None;
        },
    };
    let dry_run = match read_flag(j.get("dry_run")) {
        Some(v) => v,
        None => {
            return None;
        },
    };
    let pending_violation = match read_maybe_pending(j.get("pending_violation")) {
        Some(v) => v,
        None => {
            return None;
        },
    };
    let (power_state, lid_state) = match (
        read_maybe_text(j.get("power_state")),
        read_maybe_text(j.get("lid_state")),
    ) {
        (Some(a), Some(b)) => (a, b),
        _ => {
            return None;
        },
    };
    let (config_path, version) = match (
        read_text(j.get("config_path")),
        read_text(j.get("version")),
    ) {
        (Some(a), Some(b)) => (a, b),
        _ => {
            return None;
        },
    };
    let rest = match j {
        Json::Object(entries) => Json::Object(other_entries(entries)),
        _ => {
            return None;
        },
    };
    Some(
        Status {
            armed,
            mode,
            uptime_secs: counts.0,
            disarm_remaining_secs: maybes.0,
            usb_devices: counts.1,
            thunderbolt_devices: counts.2,
            sdcard_devices: counts.3,
            pci_devices: counts.4,
            violations_logged: counts.5,
            last_poll_ms_ago: maybes.1,
            dry_run,
            pending_violation,
            power_state,
            lid_state,
            network_links_down: maybes.2,
            config_path,
            version,
            rest,
        },
    )
}

/// What stands under a key of an object, taken out of it.
fn take(j: Json, key: &str) -> (r: Option<Json>)
    ensures
        r == j.at(key@),
{
    match j {
        Json::Object(entries) => {
            let mut left = entries;
            let ghost all = left@;
            let mut found: Option<Json> = None;
            while left.len() > 0
                invariant
                    left@.len() <= all.len(),
                    left@ == all.take(left@.len() as int),
                    found == crate::json::entry(all, key@, left@.len() as int),
                decreases left@.len(),
            {
                let ghost n = left@.len() as int;
                if let Some((k, v)) = left.pop() {
                    assert((k, v) == all[n - 1]);
                    assert(left@ =~= all.take(n - 1));
                    if same(k.as_str(), key) {
                        found = Some(v);
                    }
                }
            }
            found
        },
        _ => None,
    }
}

/// The status inside a response envelope, or None unless `ok` is true and the
/// data parses.
pub fn parse_response(resp: Json) -> (r: Option<Status>)
    ensures
        match r {
            Some(s) => {
                &&& resp.truth_at("ok"@) == Some(true)
                &&& resp.at("data"@) matches Some(d) && status_reads(d) && status_is(s, d)
            },
            None => resp.truth_at("ok"@) != Some(true) || match resp.at("data"@) {
                Some(d) => !status_reads(d),
                None => true,
            },
        },
{
    match resp.get_bool("ok") {
        Some(true) => {},
        _ => {
            return None;
        },
    }
    match take(resp, "data") {
        Some(data) => read_status(data),
        None => None,
    }
}

// ---- devices -------------------------------------------------------------

/// Whether a value is an entry of a bus listing: the bare line, or an object with
/// the line and the path.
pub open spec fn entry_reads(j: Json) -> bool {
    match j {
        Json::Str(_) => true,
        Json::Object(_) => text_of(j.at("text"@)) is Some && text_of(j.at("path"@)) is Some,
        _ => false,
    }
}

/// Whether an entry is the one a value holds.
pub open spec fn entry_is(e: DeviceEntry, j: Json) -> bool {
    match j {
        Json::Str(s) => e.text@ == s@ && e.path@.len() == 0,
        _ => text_of(j.at("text"@)) == Some(e.text@) && text_of(j.at("path"@)) == Some(e.path@),
    }
}

fn read_entry(j: &Json) -> (r: Option<DeviceEntry>)
    ensures
        match r {
            Some(e) => entry_reads(*j) && entry_is(e, *j),
            None => !entry_reads(*j),
        },
{
    match j {
        Json::Str(s) => Some(DeviceEntry { text: s.clone(), path: String::new() }),
        Json::Object(_) => match (read_text(j.get("text")), read_text(j.get("path"))) {
            (Some(text), Some(path)) => Some(DeviceEntry { text, path }),
            _ => None,
        },
        _ => None,
    }
}

/// Whether each of these is an entry.
pub open spec fn all_entries(v: Seq<Json>) -> bool {
    forall|i: int| 0 <= i < v.len() ==> entry_reads(#[trigger] v[i])
}

/// Whether a value is a list of entries. It may be missing.
pub open spec fn entries_read(j: Option<Json>) -> bool {
    match j {
        None => true,
        Some(a) => a.items() matches Some(v) && all_entries(v),
    }
}

/// Whether these are the entries of a list.
pub open spec fn entries_are(es: Seq<DeviceEntry>, j: Option<Json>) -> bool {
    match j {
        None => es.len() == 0,
        Some(a) => a.items() matches Some(v) && es.len() == v.len() && forall|i: int|
            0 <= i < es.len() ==> entry_is(#[trigger] es[i], v[i]),
    }
}

fn read_entries(j: Option<&Json>) -> (r: Option<Vec<DeviceEntry>>)
    ensures
        match r {
            Some(es) => entries_read(held(j)) && entries_are(es@, held(j)),
            None => !entries_read(held(j)),
        },
{
    let v = match j {
        None => {
            return Some(Vec::new());
        },
        Some(a) => match a.as_array() {
            Some(v) => v,
            None => {
                return None;
            },
        },
    };
    let mut out: Vec<DeviceEntry> = Vec::new();
    let mut i: usize = 0;
    while i < v.len()
        invariant
            i <= v@.len(),
            held(j) matches Some(a) && a.items() == Some(v@),
            out@.len() == i,
            forall|k: int|
                0 <= k < i ==> entry_reads(#[trigger] v@[k]) && entry_is(out@[k], v@[k]),
        decreases v@.len() - i,
    {
        match read_entry(&v[i]) {
            Some(e) => {
                out.push(e);
            },
            None => {
                assert(!all_entries(v@));
                return None;
            },
        }
        i += 1;
    }
    assert forall|k: int| 0 <= k < out@.len() implies entry_is(#[trigger] out@[k], v@[k]) by {
        assert(entry_reads(v@[k]));
    }
    Some(out)
}

/// Whether a value is what one bus reports.
pub open spec fn bus_reads(j: Json) -> bool {
    &&& record(j, 3)
    &&& flag_of(field(j, "watched"@, 0)) is Some
    &&& entries_read(field(j, "entries"@, 1))
    &&& number_of(field(j, "more"@, 2)) is Some
}

/// Whether this is what one bus reports.
pub open spec fn bus_is(d: BusDevices, j: Json) -> bool {
    &&& flag_of(field(j, "watched"@, 0)) == Some(d.watched)
    &&& entries_are(d.entries@, field(j, "entries"@, 1))
    &&& number_of(field(j, "more"@, 2)) == Some(d.more)
}

fn read_bus(j: &Json) -> (r: Option<BusDevices>)
    ensures
        match r {
            Some(d) => bus_reads(*j) && bus_is(d, *j),
            None => !bus_reads(*j),
        },
{
    if !is_record(j, 3) {
        return None;
    }
    match (
        read_flag(field_of(j, "watched", 0)),
        read_entries(field_of(j, "entries", 1)),
        read_number(field_of(j, "more", 2)),
    ) {
        (Some(watched), Some(entries), Some(more)) => Some(BusDevices { watched, entries, more }),
        _ => None,
    }
}

/// The entries among the first `n` whose value is what a bus reports.
pub open spec fn readable_buses(v: Seq<(String, Json)>, n: int) -> Seq<(String, Json)>
    decreases n,
{
    if n <= 0 {
        Seq::empty()
    } else if bus_reads(v[n - 1].1) {
        readable_buses(v, n - 1).push(v[n - 1])
    } else {
        readable_buses(v, n - 1)
    }
}

/// Whether these are the buses that readable entries hold, in their order.
pub open spec fn buses_are(ds: Seq<(String, BusDevices)>, v: Seq<(String, Json)>) -> bool {
    &&& ds.len() == v.len()
    &&& forall|i: int|
        0 <= i < ds.len() ==> (#[trigger] ds[i]).0@ == v[i].0@ && bus_is(ds[i].1, v[i].1)
}

/// The `buses` object of a devices response.
pub open spec fn buses_in(resp: Json) -> Option<Seq<(String, Json)>> {
    if resp.truth_at("ok"@) != Some(true) {
        None
    } else {
        match resp.at("data"@) {
            Some(d) => match d.at("buses"@) {
                Some(Json::Object(v)) => Some(v@),
                _ => None,
            },
            None => None,
        }
    }
}

/// The buses of a devices response. A bus whose value does not parse is dropped
/// rather than failing the whole response.
pub fn parse_devices(resp: &Json) -> (r: Option<Vec<(String, BusDevices)>>)
    ensures
        match r {
            Some(ds) => buses_in(*resp) matches Some(v) && buses_are(
                ds@,
                readable_buses(v, v.len() as int),
            ),
            None => buses_in(*resp) is None,
        },
{
    let data = match reply_data(resp) {
        Some(d) => d,
        None => {
            return None;
        },
    };
    let v = match data.get("buses") {
        Some(Json::Object(v)) => v,
        _ => {
            return None;
        },
    };
    let mut out: Vec<(String, BusDevices)> = Vec::new();
    let mut i: usize = 0;
    while i < v.len()
        invariant
            i <= v@.len(),
            buses_in(*resp) == Some(v@),
            buses_are(out@, readable_buses(v@, i as int)),
        decreases v@.len() - i,
    {
        let e = &v[i];
        if let Some(d) = read_bus(&e.1) {
            out.push((e.0.clone(), d));
        }
        i += 1;
    }
    Some(out)
}

// ---- violations ----------------------------------------------------------

/// Whether a value is a row of the history.
pub open spec fn violation_reads(j: Json) -> bool {
    &&& record(j, 5)
    &&& number_of(field(j, "at_unix"@, 0)) is Some
    &&& text_of(field(j, "bus"@, 1)) is Some
    &&& maybe_text(field(j, "selector"@, 2)) is Some
    &&& maybe_text(field(j, "name"@, 3)) is Some
    &&& text_of(field(j, "message"@, 4)) is Some
}

/// Whether a violation is the one a value holds.
pub open spec fn violation_is(v: Violation, j: Json) -> bool {
    &&& number_of(field(j, "at_unix"@, 0)) == Some(v.at_unix)
    &&& text_of(field(j, "bus"@, 1)) == Some(v.bus@)
    &&& maybe_text(field(j, "selector"@, 2)) == Some(told(v.selector))
    &&& maybe_text(field(j, "name"@, 3)) == Some(told(v.name))
    &&& text_of(field(j, "message"@, 4)) == Some(v.message@)
}

fn read_violation(j: &Json) -> (r: Option<Violation>)
    ensures
        match r {
            Some(v) => violation_reads(*j) && violation_is(v, *j),
            None => !violation_reads(*j),
        },
{
    if !is_record(j, 5) {
        return None;
    }
    match (
        read_number(field_of(j, "at_unix", 0)),
        read_text(field_of(j, "bus", 1)),
        read_maybe_text(field_of(j, "selector", 2)),
        read_maybe_text(field_of(j, "name", 3)),
        read_text(field_of(j, "message", 4)),
    ) {
        (Some(at_unix), Some(bus), Some(selector), Some(name), Some(message)) => Some(
            Violation { at_unix, bus, selector, name, message },
        ),
        _ => None,
    }
}

/// The rows among the first `n` that can be read.
pub open spec fn readable_rows(v: Seq<Json>, n: int) -> Seq<Json>
    decreases n,
{
    if n <= 0 {
        Seq::empty()
    } else if violation_reads(v[n - 1]) {
        readable_rows(v, n - 1).push(v[n - 1])
    } else {
        readable_rows(v, n - 1)
    }
}

/// Whether these are the violations that readable rows hold, in their order.
pub open spec fn rows_are(vs: Seq<Violation>, rows: Seq<Json>) -> bool {
    &&& vs.len() == rows.len()
    &&& forall|i: int| 0 <= i < vs.len() ==> violation_is(#[trigger] vs[i], rows[i])
}

/// The `violations` array of a violations response.
pub open spec fn rows_in(resp: Json) -> Option<Seq<Json>> {
    if resp.truth_at("ok"@) != Some(true) {
        None
    } else {
        match resp.at("data"@) {
            Some(d) => match d.at("violations"@) {
                Some(v) => v.items(),
                None => None,
            },
            None => None,
        }
    }
}

/// The rows of a violations response. A row that does not parse is dropped rather
/// than failing the whole response.
pub fn parse_violations(resp: &Json) -> (r: Option<Vec<Violation>>)
    ensures
        match r {
            Some(vs) => rows_in(*resp) matches Some(v) && rows_are(
                vs@,
                readable_rows(v, v.len() as int),
            ),
            None => rows_in(*resp) is None,
        },
{
    let data = match reply_data(resp) {
        Some(d) => d,
        None => {
            return None;
        },
    };
    let v = match data.get("violations") {
        Some(v) => match v.as_array() {
            Some(items) => items,
            None => {
                return None;
            },
        },
        None => {
            return None;
        },
    };
    let mut out: Vec<Violation> = Vec::new();
    let mut i: usize = 0;
    while i < v.len()
        invariant
            i <= v@.len(),
            rows_in(*resp) == Some(v@),
            rows_are(out@, readable_rows(v@, i as int)),
        decreases v@.len() - i,
    {
        if let Some(x) = read_violation(&v[i]) {
            out.push(x);
        }
        i += 1;
    }
    Some(out)
}

/// A status carries every flag the daemon sent: what a key finds in the data, it
/// finds among the rest.
pub proof fn a_status_keeps_every_other_key(s: Status, j: Json, key: Seq<char>)
    requires
        status_reads(j),
        status_is(s, j),
        !named(key),
    ensures
        s.rest.at(key) == j.at(key),
{
    if let Json::Object(v) = j {
        others_are_kept(v@, v@.len() as int, key);
        assert(v@.take(v@.len() as int) =~= v@);
    }
}

// ---- what holds of replies -----------------------------------------------

/// Whether a key holds a number, or is left out and the number is nought.
pub open spec fn counted(j: Option<Json>, n: u64) -> bool {
    j == Some(Json::Uint(n)) || (j is None && n == 0)
}

/// Whether a key holds what may be missing: the number, or nothing or null.
pub open spec fn perhaps(j: Option<Json>, n: Option<u64>) -> bool {
    match n {
        Some(n) => j == Some(Json::Uint(n)),
        None => j is None || j == Some(Json::Null),
    }
}

/// Whether a key holds a text that may be missing: the text, or nothing or null.
pub open spec fn perhaps_text(j: Option<Json>, t: Option<String>) -> bool {
    match t {
        Some(t) => j matches Some(Json::Str(s)) && s@ == t@,
        None => j is None || j == Some(Json::Null),
    }
}

/// Whether a key holds a text, or is left out and the text is empty.
pub open spec fn spoken(j: Option<Json>, t: Seq<char>) -> bool {
    (j matches Some(Json::Str(s)) && s@ == t) || (j is None && t.len() == 0)
}

/// A status says what the reply says under each key of its own.
pub proof fn a_status_says_what_its_keys_say(s: Status, j: Json)
    requires
        status_is(s, j),
    ensures
        j.at("armed"@) == Some(Json::Bool(s.armed)),
        j.at("mode"@) matches Some(Json::Str(m)) && m@ == s.mode@,
        j.at("dry_run"@) == Some(Json::Bool(s.dry_run)) || (j.at("dry_run"@) is None && !s.dry_run),
        counted(j.at("uptime_secs"@), s.uptime_secs),
        counted(j.at("usb_devices"@), s.usb_devices),
        counted(j.at("thunderbolt_devices"@), s.thunderbolt_devices),
        counted(j.at("sdcard_devices"@), s.sdcard_devices),
        counted(j.at("pci_devices"@), s.pci_devices),
        counted(j.at("violations_logged"@), s.violations_logged),
        perhaps(j.at("disarm_remaining_secs"@), s.disarm_remaining_secs),
        perhaps(j.at("last_poll_ms_ago"@), s.last_poll_ms_ago),
        perhaps(j.at("network_links_down"@), s.network_links_down),
        perhaps_text(j.at("power_state"@), s.power_state),
        perhaps_text(j.at("lid_state"@), s.lid_state),
        spoken(j.at("config_path"@), s.config_path@),
        spoken(j.at("version"@), s.version@),
{
}

/// A pending violation is the one that the reply tells of, bus, reason and time.
pub proof fn a_pending_violation_is_the_one_told(p: Option<Pending>, j: Option<Json>)
    requires
        maybe_pending_is(p, j),
    ensures
        p is None <==> j is None || j == Some(Json::Null),
        p matches Some(q) ==> (j matches Some(v) && (v is Object ==> (v.at("bus"@) matches Some(
            Json::Str(b),
        ) && b@ == q.bus@) && (v.at("reason"@) matches Some(Json::Str(r)) && r@ == q.reason@)
            && v.at("secs_left"@) == Some(Json::Uint(q.secs_left)))),
{
}

/// The devices of a bus are what the reply lists: whether it is watched, the lines with
/// their places, bare ones without, and how many more there are.
pub proof fn a_bus_is_what_the_reply_lists(d: BusDevices, j: Json, i: int)
    requires
        bus_is(d, j),
        j is Object,
    ensures
        j.at("watched"@) == Some(Json::Bool(d.watched)) || (j.at("watched"@) is None && !d.watched),
        counted(j.at("more"@), d.more),
        j.at("entries"@) is None ==> d.entries@.len() == 0,
        j.at("entries"@) matches Some(a) ==> (a matches Json::Array(v) && v@.len() == d.entries@.len()
            && (0 <= i < v@.len() ==> match v@[i] {
            Json::Str(s) => d.entries@[i].text@ == s@ && d.entries@[i].path@.len() == 0,
            _ => spoken(v@[i].at("text"@), d.entries@[i].text@) && spoken(
                v@[i].at("path"@),
                d.entries@[i].path@,
            ),
        })),
{
    if let Some(a) = j.at("entries"@) {
        if let Json::Array(v) = a {
            if 0 <= i < v@.len() {
                assert(entry_is(d.entries@[i], v@[i]));
            }
        }
    }
}

/// A row of the violations is what the reply says, under the names of its fields.
pub proof fn a_violation_is_what_the_reply_says(v: Violation, j: Json)
    requires
        violation_is(v, j),
        j is Object,
    ensures
        counted(j.at("at_unix"@), v.at_unix),
        spoken(j.at("bus"@), v.bus@),
        spoken(j.at("message"@), v.message@),
        perhaps_text(j.at("selector"@), v.selector),
        perhaps_text(j.at("name"@), v.name),
{
}

/// Only a success has buses or violations to read.
pub proof fn only_a_success_lists_anything(resp: Json)
    ensures
        resp.at("ok"@) != Some(Json::Bool(true)) ==> buses_in(resp) is None && rows_in(resp) is None,
        resp.at("ok"@) == Some(Json::Bool(true)) ==> match resp.at("data"@) {
            None => buses_in(resp) is None && rows_in(resp) is None,
            Some(d) => {
                &&& match d.at("buses"@) {
                    Some(Json::Object(v)) => buses_in(resp) == Some(v@),
                    _ => buses_in(resp) is None,
                }
                &&& match d.at("violations"@) {
                    Some(Json::Array(v)) => rows_in(resp) == Some(v@),
                    _ => rows_in(resp) is None,
                }
            },
        },
{
}

/// Rows and buses that can be read are kept, in their order, and the others left out.
pub proof fn what_can_be_read_is_kept(v: Seq<Json>, b: Seq<(String, Json)>)
    ensures
        readable_rows(v, v.len() as int) == v.filter(|j: Json| violation_reads(j)),
        readable_buses(b, b.len() as int) == b.filter(|e: (String, Json)| bus_reads(e.1)),
{
    rows_kept(v, v.len() as int);
    buses_kept(b, b.len() as int);
    assert(v.take(v.len() as int) =~= v);
    assert(b.take(b.len() as int) =~= b);
}

proof fn rows_kept(v: Seq<Json>, n: int)
    requires
        0 <= n <= v.len(),
    ensures
        readable_rows(v, n) == v.take(n).filter(|j: Json| violation_reads(j)),
    decreases n,
{
    reveal(Seq::filter);
    if n > 0 {
        rows_kept(v, n - 1);
        assert(v.take(n).drop_last() =~= v.take(n - 1));
    } else {
        assert(v.take(0) =~= Seq::<Json>::empty());
    }
}

proof fn buses_kept(v: Seq<(String, Json)>, n: int)
    requires
        0 <= n <= v.len(),
    ensures
        readable_buses(v, n) == v.take(n).filter(|e: (String, Json)| bus_reads(e.1)),
    decreases n,
{
    reveal(Seq::filter);
    if n > 0 {
        buses_kept(v, n - 1);
        assert(v.take(n).drop_last() =~= v.take(n - 1));
    } else {
        assert(v.take(0) =~= Seq::<(String, Json)>::empty());
    }
}

/// The buses and the rows that were read are those of the reply, one for one.
pub proof fn what_was_read_is_one_for_one(
    ds: Seq<(String, BusDevices)>,
    v: Seq<(String, Json)>,
    vs: Seq<Violation>,
    rows: Seq<Json>,
    i: int,
)
    requires
        buses_are(ds, v),
        rows_are(vs, rows),
    ensures
        ds.len() == v.len() && vs.len() == rows.len(),
        0 <= i < ds.len() ==> ds[i].0@ == v[i].0@ && bus_is(ds[i].1, v[i].1),
        0 <= i < vs.len() ==> violation_is(vs[i], rows[i]),
{
}

/// The keys that a status has fields for; all others are kept beside them.
pub proof fn the_keys_with_fields(key: Seq<char>)
    ensures
        named(key) <==> key == "armed"@ || key == "mode"@ || key == "uptime_secs"@ || key
            == "disarm_remaining_secs"@ || key == "usb_devices"@ || key == "thunderbolt_devices"@ || key
            == "sdcard_devices"@ || key == "pci_devices"@ || key == "violations_logged"@ || key
            == "last_poll_ms_ago"@ || key == "dry_run"@ || key == "pending_violation"@ || key
            == "power_state"@ || key == "lid_state"@ || key == "network_links_down"@ || key
            == "config_path"@ || key == "version"@,
{
}

/// A status is read exactly where it is an object that says whether the daemon is armed
/// and in which mode, and every other field that is there is of its kind.
pub proof fn a_status_is_read_exactly_when(j: Json)
    ensures
        status_reads(j) <==> {
            &&& j is Object
            &&& j.at("armed"@) matches Some(Json::Bool(_))
            &&& j.at("mode"@) matches Some(Json::Str(_))
            &&& number_there(j.at("uptime_secs"@)) && number_there(j.at("usb_devices"@))
            &&& number_there(j.at("thunderbolt_devices"@)) && number_there(j.at("sdcard_devices"@))
            &&& number_there(j.at("pci_devices"@)) && number_there(j.at("violations_logged"@))
            &&& number_or_null(j.at("disarm_remaining_secs"@))
            &&& number_or_null(j.at("last_poll_ms_ago"@))
            &&& number_or_null(j.at("network_links_down"@))
            &&& j.at("dry_run"@) is None || (j.at("dry_run"@) matches Some(Json::Bool(_)))
            &&& text_or_null(j.at("power_state"@)) && text_or_null(j.at("lid_state"@))
            &&& j.at("config_path"@) is None || (j.at("config_path"@) matches Some(Json::Str(_)))
            &&& j.at("version"@) is None || (j.at("version"@) matches Some(Json::Str(_)))
            &&& maybe_pending_reads(j.at("pending_violation"@))
        },
{
}

/// Whether a field is left out or a number.
pub open spec fn number_there(j: Option<Json>) -> bool {
    j is None || (j matches Some(Json::Uint(_)))
}

/// Whether a field is left out, null or a number.
pub open spec fn number_or_null(j: Option<Json>) -> bool {
    j is None || j == Some(Json::Null) || (j matches Some(Json::Uint(_)))
}

/// Whether a field is left out, null or a text.
pub open spec fn text_or_null(j: Option<Json>) -> bool {
    j is None || j == Some(Json::Null) || (j matches Some(Json::Str(_)))
}

/// A pending violation, a bus and a row of violations are read exactly where their fields
/// are of their kind; of a pending violation all are needed.
pub proof fn a_record_is_read_exactly_when(j: Json)
    requires
        j is Object,
    ensures
        pending_reads(j) <==> (j.at("bus"@) matches Some(Json::Str(_))) && (j.at("reason"@) matches Some(
            Json::Str(_),
        )) && (j.at("secs_left"@) matches Some(Json::Uint(_))),
        violation_reads(j) <==> number_there(j.at("at_unix"@)) && (j.at("bus"@) is None || (j.at(
            "bus"@,
        ) matches Some(Json::Str(_)))) && text_or_null(j.at("selector"@)) && text_or_null(j.at("name"@))
            && (j.at("message"@) is None || (j.at("message"@) matches Some(Json::Str(_)))),
        bus_reads(j) <==> (j.at("watched"@) is None || (j.at("watched"@) matches Some(Json::Bool(_))))
            && number_there(j.at("more"@)) && (j.at("entries"@) is None || (j.at(
            "entries"@,
        ) matches Some(Json::Array(v)) && forall|i: int|
            0 <= i < v@.len() ==> entry_reads(#[trigger] v@[i]))),
        entry_reads(j) <==> (j.at("text"@) is None || (j.at("text"@) matches Some(Json::Str(_)))) && (
        j.at("path"@) is None || (j.at("path"@) matches Some(Json::Str(_)))),
{
}

} // verus!
