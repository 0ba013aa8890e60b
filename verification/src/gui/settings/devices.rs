//! The devices panel: everything the `devices` command reports, grouped by
//! bus and nested by port, and what already covers each entry.
//!
//! The entries are the daemon's own lines, the same ones the tray tooltips
//! show. Nothing here enumerates anything itself.

use vstd::prelude::*;

use crate::allowances::{read_selector, DeviceRef};
use crate::gui::dashboard::model::{short_bus, short_name};
use crate::gui::status::{bus_from, find_bus, BusDevices, DeviceEntry};
use crate::ipc::BUSES;
use crate::number::{all_digits, dec, decimal, digits_only};
use crate::order::{less, order_is_strict, order_is_total, order_is_transitive, precedes};
use crate::text::{
    after, before, begins, cat2, cat3, cat5, chars, contains, copy_option, count_of, find,
    first_at_is_first, holds, is, join, joined, listed, part, same, slice_views, split_once,
    strip_prefix, text, times, views, words, words_of,
};

verus! {

/// How far one level of the tree is pushed in, in pixels.
pub const INDENT: i32 = 18;

/// Said where a name would go when nothing matching is attached.
pub const NOT_CONNECTED: &'static str = "not connected";

/// Said instead when the bus could not be listed in full, so nothing here
/// knows whether the device is attached.
pub const NOT_LISTED: &'static str = "not in the daemon's listing";

/// Said where a name would go when the device is attached but names itself
/// nothing.
pub const UNNAMED: &'static str = "attached, unnamed";

/// What one entry offers.
#[derive(Debug, Clone, Copy, PartialEq, Eq)]
pub enum Action {
    /// Not covered yet, and this listing names it: offer to whitelist it.
    Add,
    /// Already covered, and by what.
    Covered(&'static str),
    /// This bus has a whitelist, but it is keyed on something this listing
    /// does not carry, so the action cannot be offered. Says which.
    Unmatched(&'static str),
    /// This bus lists no identity any whitelist matches on, so there is
    /// nothing to offer and nothing to explain.
    Nothing,
}

#[derive(Debug, PartialEq, Eq)]
pub struct Row {
    /// The line as the daemon sends it: an id, and a name where it knows one.
    pub text: String,
    /// The `<bus>:<identity>` selector, where this listing carries the
    /// identity its whitelist is matched on.
    pub selector: Option<String>,
    /// The name the daemon put after the id, when it knew one.
    pub name: Option<String>,
    pub action: Action,
}

impl Clone for Row {
    fn clone(&self) -> (r: Self)
        ensures
            r == *self,
    {
        Row {
            text: self.text.clone(),
            selector: copy_option(&self.selector),
            name: copy_option(&self.name),
            action: self.action,
        }
    }
}

/// A device and whatever is plugged into it. A flat bus is all roots with no
/// children.
#[derive(Debug, PartialEq, Eq)]
pub struct Node {
    pub row: Row,
    pub children: Vec<Node>,
}

#[derive(Debug, PartialEq, Eq)]
pub struct Group {
    pub name: &'static str,
    pub watched: bool,
    /// Why the group is greyed, or None while the bus is watched.
    pub reason: Option<String>,
    pub nodes: Vec<Node>,
    /// How many entries the daemon dropped past its cap.
    pub more: u64,
    /// Whether this bus nests, so a dropped entry can be said to have left a
    /// hole in the tree rather than merely in the list.
    pub nests: bool,
}

// ---- one entry -----------------------------------------------------------

/// The buses whose path encodes a topology, and whose listing carries the
/// identity its whitelist is matched on. The rest stay flat and unnamed: an
/// interface, a lid or a connector has nothing to nest. Thunderbolt lists
/// vendor:device but is keyed by its unique id, and its sysfs name packs the
/// route with no separator inside it; an SD card lists manufacturer:OEM but is
/// keyed by its serial.
pub open spec fn has_tree(bus: Seq<char>) -> bool {
    bus == "usb"@ || bus == "pci"@
}

/// Whether a bus nests.
pub fn nests(bus: &str) -> (r: bool)
    ensures
        r == has_tree(bus@),
{
    same(bus, "usb") || same(bus, "pci")
}

/// The selector for one entry, when this bus lists the identity it is matched
/// on. Parsed rather than pasted: a selector the daemon would refuse is no
/// better than none, and the parse normalises what it accepts.
pub open spec fn selector_of(bus: Seq<char>, entry: Seq<char>) -> Option<Seq<char>> {
    let w = words_of(entry);
    if !has_tree(bus) || w.len() == 0 {
        None
    } else {
        match read_selector(bus + ":"@ + w[0]) {
            Ok(k) => Some(k.text()),
            Err(_) => None,
        }
    }
}

/// The selector for one entry, when this bus lists the identity it is matched
/// on.
pub fn selector(bus: &str, entry: &str) -> (r: Option<String>)
    ensures
        match r {
            Some(s) => selector_of(bus@, entry@) == Some(s@),
            None => selector_of(bus@, entry@) is None,
        },
{
    if !nests(bus) {
        return None;
    }
    let all = chars(entry);
    let w = words(all.as_slice());
    assert(slice_views(w@).len() == w@.len());
    if w.len() == 0 {
        return None;
    }
    assert(slice_views(w@)[0] == w@[0]@);
    let id = text(w[0]);
    match DeviceRef::parse(cat3(bus, ":", id.as_str()).as_str()) {
        Ok(d) => Some(d.selector()),
        Err(_) => None,
    }
}

/// Why a bus with a whitelist still offers no action on its own listing. Only
/// the two that have one: power, network, lid and display have no whitelist to
/// explain.
pub open spec fn reason_for(bus: Seq<char>) -> Option<Seq<char>> {
    if bus == "thunderbolt"@ {
        Some("whitelisted by unique id, which this listing does not carry"@)
    } else if bus == "sdcard"@ {
        Some("whitelisted by serial, which this listing does not carry"@)
    } else {
        None
    }
}

/// Why a bus with a whitelist still offers no action on its own listing.
pub fn no_selector_reason(bus: &str) -> (r: Option<&'static str>)
    ensures
        match r {
            Some(s) => reason_for(bus@) == Some(s@),
            None => reason_for(bus@) is None,
        },
{
    if same(bus, "thunderbolt") {
        Some("whitelisted by unique id, which this listing does not carry")
    } else if same(bus, "sdcard") {
        Some("whitelisted by serial, which this listing does not carry")
    } else {
        None
    }
}

/// A selector without its `pci:`.
pub open spec fn bare(s: Seq<char>) -> Seq<char> {
    if begins(s, "pci:"@) {
        s.skip("pci:"@.len() as int)
    } else {
        s
    }
}

/// Whether a PCI entry covers a selector: it stands inside the bare address.
/// Bare against bare: "01:00" is inside "0000:01:00.0", but "pci:01:00" is not
/// inside "pci:0000:01:00.0".
pub open spec fn pci_covers(entry: Seq<char>, selector: Seq<char>) -> bool {
    begins(entry, "pci:"@) && bare(entry).len() > 0 && holds(bare(selector), bare(entry))
}

/// Whether the config's lists cover this selector. PCI ignore entries are
/// matched as substrings of the bare id, so a prefix entry covers everything
/// under it. Every other bus is the whole selector.
pub open spec fn whitelists(
    bus: Seq<char>,
    selector: Seq<char>,
    whitelisted: Seq<Seq<char>>,
) -> bool {
    if bus == "pci"@ {
        exists|i: int| 0 <= i < whitelisted.len() && pci_covers(#[trigger] whitelisted[i], selector)
    } else {
        whitelisted.contains(selector)
    }
}

fn does_pci_cover(entry: &str, selector: &str) -> (r: bool)
    ensures
        r == pci_covers(entry@, selector@),
{
    let e = chars(entry);
    let s = chars(selector);
    let token = match strip_prefix(e.as_slice(), "pci:") {
        Some(t) => t,
        None => {
            return false;
        },
    };
    let inner = match strip_prefix(s.as_slice(), "pci:") {
        Some(t) => t,
        None => s.as_slice(),
    };
    token.len() > 0 && contains(inner, token)
}

/// Whether the config's lists cover this selector.
pub fn in_whitelist(bus: &str, selector: &str, whitelisted: &[String]) -> (r: bool)
    ensures
        r == whitelists(bus@, selector@, views(whitelisted@)),
{
    if !same(bus, "pci") {
        return listed(whitelisted, selector);
    }
    let ghost wv = views(whitelisted@);
    let mut i: usize = 0;
    while i < whitelisted.len()
        invariant
            i <= whitelisted@.len(),
            wv == views(whitelisted@),
            bus@ == "pci"@,
            forall|k: int| 0 <= k < i ==> !pci_covers(#[trigger] wv[k], selector@),
        decreases whitelisted@.len() - i,
    {
        assert(wv[i as int] == whitelisted@[i as int]@);
        if does_pci_cover(whitelisted[i].as_str(), selector) {
            return true;
        }
        i += 1;
    }
    false
}

/// The name the daemon put after the id, when it knew one.
pub open spec fn name_in(entry: Seq<char>) -> Option<Seq<char>> {
    if entry.contains(' ') {
        Some(after(entry, ' '))
    } else {
        None
    }
}

/// The name the daemon put after the id, when it knew one.
pub fn device_name(entry: &str) -> (r: Option<String>)
    ensures
        match r {
            Some(s) => name_in(entry@) == Some(s@),
            None => name_in(entry@) is None,
        },
{
    let all = chars(entry);
    match split_once(all.as_slice(), ' ') {
        Some((_, name)) => Some(text(name)),
        None => None,
    }
}

// ---- the tree ------------------------------------------------------------

/// Where a path is first listed, at or after position `i`. An empty path is
/// listed nowhere.
pub open spec fn path_at(rows: Seq<(String, Row)>, path: Seq<char>, i: int) -> Option<int>
    decreases rows.len() - i,
{
    if i >= rows.len() || i < 0 || path.len() == 0 {
        None
    } else if rows[i].0@ == path {
        Some(i)
    } else {
        path_at(rows, path, i + 1)
    }
}

/// The last position, before `n`, of a separator between path components, or
/// minus one.
pub open spec fn last_cut(s: Seq<char>, n: int) -> int
    decreases n,
{
    if n <= 0 {
        -1
    } else if s[n - 1] == '.' || s[n - 1] == '/' {
        n - 1
    } else {
        last_cut(s, n - 1)
    }
}

proof fn last_cut_bounds(s: Seq<char>, n: int)
    requires
        0 <= n <= s.len(),
    ensures
        -1 <= last_cut(s, n) < n || (n == 0 && last_cut(s, n) == -1),
        last_cut(s, n) >= 0 ==> s[last_cut(s, n)] == '.' || s[last_cut(s, n)] == '/',
        forall|k: int| last_cut(s, n) < k < n ==> s[k] != '.' && s[k] != '/',
    decreases n,
{
    if n > 0 && s[n - 1] != '.' && s[n - 1] != '/' {
        last_cut_bounds(s, n - 1);
    }
}

/// The root hub of a path that has no component left to drop: `2-3` hangs off
/// `usb2`, and so does anything on bus 2 whose own hub the reply left out.
pub open spec fn root_hub(rows: Seq<(String, Row)>, rest: Seq<char>) -> Option<int> {
    let bus = before(rest, '-');
    if bus.len() == 0 || bus == rest || !all_digits(bus, 10) {
        None
    } else {
        path_at(rows, "usb"@ + bus, 0)
    }
}

/// The nearest listed ancestor of a path, one component at a time.
pub open spec fn ancestor_of(rows: Seq<(String, Row)>, path: Seq<char>) -> Option<int>
    decreases path.len(),
    via ancestor_decreases
{
    let cut = last_cut(path, path.len() as int);
    if cut < 0 {
        root_hub(rows, path)
    } else {
        let rest = path.take(cut);
        if path_at(rows, rest, 0) is Some {
            path_at(rows, rest, 0)
        } else {
            ancestor_of(rows, rest)
        }
    }
}

#[via_fn]
proof fn ancestor_decreases(rows: Seq<(String, Row)>, path: Seq<char>) {
    last_cut_bounds(path, path.len() as int);
}

/// Where a row hangs: off the row at a position, or nowhere.
pub open spec fn parent_of(rows: Seq<(String, Row)>, i: int) -> Option<int> {
    ancestor_of(rows, rows[i].0@)
}

/// The rows among the first `n` that hang off one, or off none.
pub open spec fn kids(rows: Seq<(String, Row)>, parent: Option<int>, n: int) -> Seq<int>
    decreases n,
{
    if n <= 0 {
        Seq::empty()
    } else if parent_of(rows, n - 1) == parent {
        kids(rows, parent, n - 1).push(n - 1)
    } else {
        kids(rows, parent, n - 1)
    }
}

/// Whether nodes are the rows at these positions, each with the rows that hang
/// off it below, in their order at every level.
pub open spec fn nested(nodes: Vec<Node>, at: Seq<int>, rows: Seq<(String, Row)>) -> bool
    decreases nodes,
{
    &&& nodes@.len() == at.len()
    &&& forall|k: int|
        0 <= k < nodes@.len() ==> (#[trigger] nodes@[k]).row == rows[at[k]].1 && nested(
            nodes@[k].children,
            kids(rows, Some(at[k]), rows.len() as int),
            rows,
        )
}

/// A root hub's own path: `usb`, then no separator.
pub open spec fn is_hub(path: Seq<char>) -> bool {
    begins(path, "usb"@) && last_cut(path, path.len() as int) < 0
}

/// How deep a path can lie: a hub at the top, then by length.
pub open spec fn rank(path: Seq<char>) -> nat {
    if is_hub(path) {
        0
    } else {
        1 + path.len()
    }
}

proof fn path_at_is_listed(rows: Seq<(String, Row)>, path: Seq<char>, i: int)
    requires
        0 <= i,
        path_at(rows, path, i) is Some,
    ensures
        i <= path_at(rows, path, i)->0 < rows.len(),
        rows[path_at(rows, path, i)->0].0@ == path,
        path.len() > 0,
    decreases rows.len() - i,
{
    if rows[i].0@ != path {
        path_at_is_listed(rows, path, i + 1);
    }
}

/// A listed ancestor is listed, and lies less deep.
proof fn ancestors_lie_less_deep(rows: Seq<(String, Row)>, path: Seq<char>)
    requires
        ancestor_of(rows, path) is Some,
    ensures
        0 <= ancestor_of(rows, path)->0 < rows.len(),
        rank(rows[ancestor_of(rows, path)->0].0@) < rank(path),
    decreases path.len(),
{
    let n = path.len() as int;
    let cut = last_cut(path, n);
    last_cut_bounds(path, n);
    if cut < 0 {
        let bus = before(path, '-');
        let hub = "usb"@ + bus;
        path_at_is_listed(rows, hub, 0);
        reveal_strlit("usb");
        assert(hub.take(3) =~= "usb"@);
        last_cut_bounds(hub, hub.len() as int);
        let c = last_cut(hub, hub.len() as int);
        if c >= 0 {
            if c >= 3 {
                assert(hub[c] == bus[c - 3]);
                assert(crate::number::digit_value(bus[c - 3]) < 10);
            } else {
                assert(hub[c] == "usb"@[c]);
            }
        }
        assert(is_hub(hub));
        if is_hub(path) {
            assert(path.take(3)[0] == 'u');
            first_at_is_first(path, '-', 0);
            assert(bus[0] == path[0]);
            assert(crate::number::digit_value(bus[0]) < 10);
        }
    } else {
        let rest = path.take(cut);
        assert(!is_hub(path));
        if path_at(rows, rest, 0) is Some {
            path_at_is_listed(rows, rest, 0);
        } else {
            ancestors_lie_less_deep(rows, rest);
        }
    }
}

/// The depth below which every row lies.
pub open spec fn floor_of(rows: Seq<(String, Row)>, n: int) -> nat
    decreases n,
{
    if n <= 0 {
        0
    } else if rank(rows[n - 1].0@) >= floor_of(rows, n - 1) {
        rank(rows[n - 1].0@) + 1
    } else {
        floor_of(rows, n - 1)
    }
}

proof fn floor_lies_below(rows: Seq<(String, Row)>, n: int, i: int)
    requires
        0 <= i < n <= rows.len(),
    ensures
        rank(rows[i].0@) < floor_of(rows, n),
    decreases n,
{
    if i < n - 1 {
        floor_lies_below(rows, n - 1, i);
    }
}

fn find_path(rows: &Vec<(String, Row)>, path: &str) -> (r: Option<usize>)
    ensures
        match r {
            Some(i) => path_at(rows@, path@, 0) == Some(i as int) && i < rows@.len(),
            None => path_at(rows@, path@, 0) is None,
        },
{
    if path.is_empty() {
        return None;
    }
    let mut i: usize = 0;
    while i < rows.len()
        invariant
            i <= rows@.len(),
            path@.len() > 0,
            path_at(rows@, path@, 0) == path_at(rows@, path@, i as int),
        decreases rows@.len() - i,
    {
        if same(rows[i].0.as_str(), path) {
            return Some(i);
        }
        i += 1;
    }
    None
}

/// The nearest listed ancestor of a path, one component at a time. Every step
/// is strictly shorter than the last, so this cannot loop.
fn ancestor(rows: &Vec<(String, Row)>, path: &[char]) -> (r: Option<usize>)
    ensures
        match r {
            Some(i) => ancestor_of(rows@, path@) == Some(i as int) && i < rows@.len(),
            None => ancestor_of(rows@, path@) is None,
        },
    decreases path@.len(),
{
    let mut n: usize = path.len();
    while n > 0 && path[n - 1] != '.' && path[n - 1] != '/'
        invariant
            n <= path@.len(),
            last_cut(path@, path@.len() as int) == last_cut(path@, n as int),
        decreases n,
    {
        n -= 1;
    }
    if n > 0 {
        let rest = part(path, 0, n - 1);
        assert(rest@ =~= path@.take(n - 1));
        if let Some(i) = find_path(rows, text(rest).as_str()) {
            return Some(i);
        }
        return ancestor(rows, rest);
    }
    let at = find(path, '-');
    let bus = part(path, 0, at);
    assert(bus@ =~= before(path@, '-'));
    if bus.len() == 0 || bus.len() == path.len() || !digits_only(bus, 10) {
        proof {
            if bus@.len() == path@.len() {
                assert(bus@ =~= path@);
            }
        }
        return None;
    }
    assert(bus@.len() != path@.len());
    find_path(rows, cat2("usb", text(bus).as_str()).as_str())
}

/// A parent as a position that may be missing.
pub open spec fn position(p: Option<usize>) -> Option<int> {
    match p {
        Some(i) => Some(i as int),
        None => None,
    }
}

fn same_parent(a: Option<usize>, b: Option<usize>) -> (r: bool)
    ensures
        r == (a == b),
{
    match (a, b) {
        (Some(x), Some(y)) => x == y,
        (None, None) => true,
        _ => false,
    }
}

/// The nodes of the rows that hang off one, or off none.
fn nodes_under(
    rows: &Vec<(String, Row)>,
    parents: &Vec<Option<usize>>,
    parent: Option<usize>,
    Ghost(depth): Ghost<nat>,
) -> (r: Vec<Node>)
    requires
        parents@.len() == rows@.len(),
        forall|i: int|
            0 <= i < rows@.len() ==> position(#[trigger] parents@[i]) == parent_of(rows@, i),
        match parent {
            Some(p) => p < rows@.len() && depth == floor_of(rows@, rows@.len() as int) - rank(
                rows@[p as int].0@,
            ),
            None => depth == floor_of(rows@, rows@.len() as int) + 1,
        },
    ensures
        nested(r, kids(rows@, position(parent), rows@.len() as int), rows@),
    decreases depth,
{
    let mut out: Vec<Node> = Vec::new();
    let mut i: usize = 0;
    let ghost p = position(parent);
    while i < rows.len()
        invariant
            i <= rows@.len(),
            p == position(parent),
            parents@.len() == rows@.len(),
            forall|i: int|
                0 <= i < rows@.len() ==> position(#[trigger] parents@[i]) == parent_of(rows@, i),
            match parent {
                Some(q) => q < rows@.len() && depth == floor_of(rows@, rows@.len() as int) - rank(
                    rows@[q as int].0@,
                ),
                None => depth == floor_of(rows@, rows@.len() as int) + 1,
            },
            out@.len() == kids(rows@, p, i as int).len(),
            forall|k: int|
                0 <= k < out@.len() ==> (#[trigger] out@[k]).row == rows@[kids(
                    rows@,
                    p,
                    i as int,
                )[k]].1 && nested(
                    out@[k].children,
                    kids(rows@, Some(kids(rows@, p, i as int)[k]), rows@.len() as int),
                    rows@,
                ),
        decreases rows@.len() - i,
    {
        assert(position(parents@[i as int]) == parent_of(rows@, i as int));
        if same_parent(parents[i], parent) {
            let ghost below: nat = (floor_of(rows@, rows@.len() as int) - rank(
                rows@[i as int].0@,
            )) as nat;
            proof {
                floor_lies_below(rows@, rows@.len() as int, i as int);
                if parent is Some {
                    ancestors_lie_less_deep(rows@, rows@[i as int].0@);
                }
            }
            let children = nodes_under(rows, parents, Some(i), Ghost(below));
            out.push(Node { row: rows[i].1.clone(), children });
        } else {
            assert(parent_of(rows@, i as int) != p) by {
                if parent_of(rows@, i as int) == p {
                    assert(parents@[i as int] == parent);
                }
            }
        }
        i += 1;
    }
    out
}

/// Nest rows by their path. The parent of `2-3.4` is `2-3`; a row whose own
/// parent is not in the reply hangs off the nearest listed ancestor, and one
/// with no listed ancestor, no separator, or no path at all is a root. Order is
/// the order the daemon sent, at every level.
pub fn tree(rows: &Vec<(String, Row)>) -> (r: Vec<Node>)
    ensures
        nested(r, kids(rows@, None, rows@.len() as int), rows@),
{
    let mut parents: Vec<Option<usize>> = Vec::new();
    let mut i: usize = 0;
    while i < rows.len()
        invariant
            i <= rows@.len(),
            parents@.len() == i,
            forall|k: int|
                0 <= k < i ==> position(#[trigger] parents@[k]) == parent_of(rows@, k),
        decreases rows@.len() - i,
    {
        let path = chars(rows[i].0.as_str());
        parents.push(ancestor(rows, path.as_slice()));
        i += 1;
    }
    let ghost depth: nat = floor_of(rows@, rows@.len() as int) + 1;
    nodes_under(rows, &parents, None, Ghost(depth))
}

/// Every row has exactly one place in the tree: below its parent, or among the
/// roots.
pub proof fn every_row_has_one_place(
    rows: Seq<(String, Row)>,
    i: int,
    other: Option<int>,
    n: int,
)
    requires
        0 <= i < n <= rows.len(),
    ensures
        kids(rows, parent_of(rows, i), n).contains(i),
        other != parent_of(rows, i) ==> !kids(rows, other, n).contains(i),
    decreases n,
{
    kids_are(rows, parent_of(rows, i), n);
    kids_are(rows, other, n);
    let k = kids(rows, parent_of(rows, i), n);
    if i == n - 1 {
        assert(k[k.len() - 1] == i);
    } else {
        every_row_has_one_place(rows, i, other, n - 1);
        let front = kids(rows, parent_of(rows, i), n - 1);
        let j = choose|j: int| 0 <= j < front.len() && front[j] == i;
        assert(k[j] == i);
    }
}

proof fn kids_are(rows: Seq<(String, Row)>, parent: Option<int>, n: int)
    requires
        0 <= n <= rows.len(),
    ensures
        forall|k: int|
            0 <= k < kids(rows, parent, n).len() ==> 0 <= #[trigger] kids(rows, parent, n)[k] < n
                && parent_of(rows, kids(rows, parent, n)[k]) == parent,
    decreases n,
{
    if n > 0 {
        kids_are(rows, parent, n - 1);
    }
}

/// Nothing hangs off itself, and going from parent to parent ends at a root:
/// every step lies less deep.
pub proof fn parents_lie_less_deep(rows: Seq<(String, Row)>, i: int)
    requires
        0 <= i < rows.len(),
        parent_of(rows, i) is Some,
    ensures
        0 <= parent_of(rows, i)->0 < rows.len(),
        parent_of(rows, i)->0 != i,
        rank(rows[parent_of(rows, i)->0].0@) < rank(rows[i].0@),
{
    ancestors_lie_less_deep(rows, rows[i].0@);
}

// ---- the stem ------------------------------------------------------------

/// Where the bar of a level stands, in half pixels: the middle of its step, on
/// the pixel grid.
pub open spec fn bar_at(level: int) -> int {
    2 * (level * 18 + 9) + 1
}

/// Half the height of a row, in half pixels on the pixel grid.
pub open spec fn middle(h: int) -> int {
    2 * (h / 2) + 1
}

/// The bars of the ancestors from the second to number `n` that still have rows
/// below them.
pub open spec fn bars(ancestors: Seq<bool>, n: int, h: int) -> Seq<(int, int, int, int)>
    decreases n,
{
    if n <= 1 {
        Seq::empty()
    } else if ancestors[n - 1] {
        bars(ancestors, n - 1, h).push((bar_at(n - 2), 0, bar_at(n - 2), 2 * h))
    } else {
        bars(ancestors, n - 1, h)
    }
}

/// The stem's lines for one row.
pub open spec fn stem(ancestors: Seq<bool>, last: bool, w: int, h: int) -> Seq<
    (int, int, int, int),
> {
    if ancestors.len() == 0 {
        Seq::empty()
    } else {
        let x = bar_at(ancestors.len() - 1);
        let down = if last {
            middle(h)
        } else {
            2 * h
        };
        bars(ancestors, ancestors.len() as int, h).push((x, 0, x, down)).push(
            (x, middle(h), 2 * w, middle(h)),
        )
    }
}

/// Lines as integers.
pub open spec fn drawn(lines: Seq<(i128, i128, i128, i128)>) -> Seq<(int, int, int, int)> {
    lines.map_values(
        |l: (i128, i128, i128, i128)| (l.0 as int, l.1 as int, l.2 as int, l.3 as int),
    )
}

/// The stem's lines for one row, as (x1, y1, x2, y2) in half pixels over a strip
/// `w` pixels wide and `h` tall. A bar for every ancestor that still has rows
/// below it, then this row's own elbow: down to the middle, across to the text,
/// and on down when this is not the last of its siblings. The odd halves put a
/// one pixel line on the pixel grid instead of smearing it across two.
pub fn segments(ancestors: &[bool], last: bool, w: u32, h: u32) -> (r: Vec<
    (i128, i128, i128, i128),
>)
    ensures
        drawn(r@) == stem(ancestors@, last, w as int, h as int),
{
    let mut out: Vec<(i128, i128, i128, i128)> = Vec::new();
    if ancestors.len() == 0 {
        assert(drawn(out@) =~= Seq::<(int, int, int, int)>::empty());
        return out;
    }
    let n: usize = ancestors.len();
    let tall: i128 = 2 * (h as i128);
    let mid: i128 = 2 * (h as i128 / 2) + 1;
    let mut i: usize = 1;
    assert(drawn(out@) =~= bars(ancestors@, 1, h as int));
    while i < n
        invariant
            1 <= i <= n,
            n == ancestors@.len(),
            tall == 2 * h,
            drawn(out@) == bars(ancestors@, i as int, h as int),
        decreases n - i,
    {
        let ghost sofar = out@;
        if ancestors[i] {
            let x: i128 = 2 * ((i as i128 - 1) * 18 + 9) + 1;
            out.push((x, 0, x, tall));
            assert(drawn(out@) =~= drawn(sofar).push(
                (bar_at(i - 1), 0, bar_at(i - 1), 2 * (h as int)),
            ));
        }
        i += 1;
    }
    let x: i128 = 2 * ((n as i128 - 1) * 18 + 9) + 1;
    let down: i128 = if last {
        mid
    } else {
        tall
    };
    out.push((x, 0, x, down));
    out.push((x, mid, 2 * (w as i128), mid));
    assert(drawn(out@) =~= stem(ancestors@, last, w as int, h as int));
    out
}

// ---- groups --------------------------------------------------------------

/// The selectors of a bus's entries.
pub open spec fn selectors_in(bus: Seq<char>, entries: Seq<DeviceEntry>) -> Seq<
    Option<Seq<char>>,
> {
    entries.map_values(|e: DeviceEntry| selector_of(bus, e.text@))
}

/// How often a selector stands among the first `n`.
pub open spec fn seen_before(sels: Seq<Option<Seq<char>>>, s: Seq<char>, n: int) -> nat
    decreases n,
{
    if n <= 0 {
        0
    } else {
        seen_before(sels, s, n - 1) + if sels[n - 1] == Some(s) {
            1nat
        } else {
            0nat
        }
    }
}

/// Whether the whitelist covers the device at a position. A USB entry stands for
/// `count` devices, which the caller spells as that many copies of the selector,
/// so the second device of one model is only covered when the entry says there
/// are two. A PCI entry is a substring of an address rather than a device, so it
/// covers everything under it and counts nothing.
pub open spec fn instance_covered(
    bus: Seq<char>,
    sels: Seq<Option<Seq<char>>>,
    i: int,
    whitelisted: Seq<Seq<char>>,
) -> bool {
    let s = sels[i]->0;
    if bus == "pci"@ {
        whitelists(bus, s, whitelisted)
    } else {
        seen_before(sels, s, i) < times(whitelisted, s)
    }
}

/// Whether an action is the right one for the device at a position. The config
/// comes first: a whitelist entry outlives the uptime an allowance is bounded
/// to.
pub open spec fn acts(
    a: Action,
    bus: Seq<char>,
    sels: Seq<Option<Seq<char>>>,
    i: int,
    allowed: Seq<Seq<char>>,
    whitelisted: Seq<Seq<char>>,
) -> bool {
    match sels[i] {
        Some(s) => if instance_covered(bus, sels, i, whitelisted) {
            a matches Action::Covered(by) && by@ == "in the whitelist"@
        } else if allowed.contains(s) {
            a matches Action::Covered(by) && by@ == "allowed at runtime"@
        } else {
            a is Add
        },
        None => match reason_for(bus) {
            Some(why) => a matches Action::Unmatched(w) && w@ == why,
            None => a is Nothing,
        },
    }
}

/// Whether a text that may be missing is the one expected.
pub open spec fn is_text(a: Option<String>, b: Option<Seq<char>>) -> bool {
    match (a, b) {
        (Some(x), Some(y)) => x@ == y,
        (None, None) => true,
        _ => false,
    }
}

/// Whether these are the rows of a bus, each with the path it nests by.
pub open spec fn rows_for(
    rows: Seq<(String, Row)>,
    bus: Seq<char>,
    entries: Seq<DeviceEntry>,
    allowed: Seq<Seq<char>>,
    whitelisted: Seq<Seq<char>>,
) -> bool {
    &&& rows.len() == entries.len()
    &&& forall|i: int|
        0 <= i < rows.len() ==> row_for(#[trigger] rows[i], bus, entries, i, allowed, whitelisted)
}

/// Whether this is the row of one entry of a bus.
pub open spec fn row_for(
    row: (String, Row),
    bus: Seq<char>,
    entries: Seq<DeviceEntry>,
    i: int,
    allowed: Seq<Seq<char>>,
    whitelisted: Seq<Seq<char>>,
) -> bool {
    &&& row.0@ == if has_tree(bus) {
        entries[i].path@
    } else {
        Seq::empty()
    }
    &&& row.1.text == entries[i].text
    &&& is_text(row.1.name, name_in(entries[i].text@))
    &&& is_text(row.1.selector, selector_of(bus, entries[i].text@))
    &&& acts(row.1.action, bus, selectors_in(bus, entries), i, allowed, whitelisted)
}

/// Whether a group is the one for the bus at a position of `BUSES`.
pub open spec fn group_for(
    g: Group,
    i: int,
    devices: Seq<(String, BusDevices)>,
    allowed: Seq<Seq<char>>,
    whitelisted: Seq<Seq<char>>,
) -> bool {
    let bus = short_name(BUSES@[i].0@);
    &&& g.name == BUSES@[i].1
    &&& g.nests == has_tree(bus)
    &&& match bus_from(devices, bus, 0) {
        None => {
            &&& !g.watched && g.nodes@.len() == 0 && g.more == 0
            &&& g.reason matches Some(why) && why@ == "this daemon did not report the bus"@
        },
        Some(d) => if !d.watched {
            &&& !g.watched && g.nodes@.len() == 0 && g.more == 0
            &&& g.reason matches Some(why) && why@ == "not watched: general.watch_"@ + bus
                + " is off"@
        } else {
            &&& g.watched && g.reason is None && g.more == d.more
            &&& exists|rows: Seq<(String, Row)>| #[trigger]
                rows_for(rows, bus, d.entries@, allowed, whitelisted) && nested(
                    g.nodes,
                    kids(rows, None, rows.len() as int),
                    rows,
                )
        },
    }
}

/// Whether these are the groups of all buses, in `BUSES` order.
pub open spec fn groups_for(
    gs: Seq<Group>,
    devices: Seq<(String, BusDevices)>,
    allowed: Seq<Seq<char>>,
    whitelisted: Seq<Seq<char>>,
) -> bool {
    &&& gs.len() == 8
    &&& forall|i: int| 0 <= i < 8 ==> group_for(#[trigger] gs[i], i, devices, allowed, whitelisted)
}

/// How often a selector stands among those before a position.
fn count_before(sels: &Vec<Option<String>>, s: &str, n: usize, Ghost(want): Ghost<
    Seq<Option<Seq<char>>>,
>) -> (r: usize)
    requires
        n <= sels@.len(),
        sels@.len() <= want.len(),
        forall|k: int| 0 <= k < sels@.len() ==> is_text(#[trigger] sels@[k], want[k]),
    ensures
        r == seen_before(want, s@, n as int),
        r <= n,
{
    let mut c: usize = 0;
    let mut i: usize = 0;
    while i < n
        invariant
            i <= n,
            n <= sels@.len(),
            sels@.len() <= want.len(),
            forall|k: int| 0 <= k < sels@.len() ==> is_text(#[trigger] sels@[k], want[k]),
            c <= i,
            c == seen_before(want, s@, i as int),
        decreases n - i,
    {
        assert(is_text(sels@[i as int], want[i as int]));
        if let Some(x) = &sels[i] {
            if same(x.as_str(), s) {
                c += 1;
            }
        }
        i += 1;
    }
    c
}

/// Whether the whitelist still covers this device, given how many of its
/// selector came before it on the bus.
pub fn takes_instance(bus: &str, selector: &str, whitelisted: &[String], before_it: usize) -> (r:
    bool)
    ensures
        r == if bus@ == "pci"@ {
            whitelists(bus@, selector@, views(whitelisted@))
        } else {
            before_it < times(views(whitelisted@), selector@)
        },
{
    if same(bus, "pci") {
        in_whitelist(bus, selector, whitelisted)
    } else {
        before_it < count_of(whitelisted, selector)
    }
}

/// The rows of one bus, each with the path it nests by.
fn bus_rows(bus: &str, entries: &[DeviceEntry], allowed: &[String], whitelisted: &[String]) -> (r:
    Vec<(String, Row)>)
    ensures
        rows_for(r@, bus@, entries@, views(allowed@), views(whitelisted@)),
{
    let mut sels: Vec<Option<String>> = Vec::new();
    let mut rows: Vec<(String, Row)> = Vec::new();
    let ghost want = selectors_in(bus@, entries@);
    let tall = nests(bus);
    let mut i: usize = 0;
    while i < entries.len()
        invariant
            i <= entries@.len(),
            tall == has_tree(bus@),
            want == selectors_in(bus@, entries@),
            sels@.len() == i,
            forall|k: int| 0 <= k < sels@.len() ==> is_text(#[trigger] sels@[k], want[k]),
            rows@.len() == i,
            forall|k: int|
                0 <= k < i ==> row_for(
                    #[trigger] rows@[k],
                    bus@,
                    entries@,
                    k,
                    views(allowed@),
                    views(whitelisted@),
                ),
        decreases entries@.len() - i,
    {
        let e = &entries[i];
        let sel = selector(bus, e.text.as_str());
        assert(want[i as int] == selector_of(bus@, e.text@));
        let action = match &sel {
            Some(s) => {
                let earlier = count_before(&sels, s.as_str(), i, Ghost(want));
                if takes_instance(bus, s.as_str(), whitelisted, earlier) {
                    Action::Covered("in the whitelist")
                } else if listed(allowed, s.as_str()) {
                    Action::Covered("allowed at runtime")
                } else {
                    Action::Add
                }
            },
            None => match no_selector_reason(bus) {
                Some(why) => Action::Unmatched(why),
                None => Action::Nothing,
            },
        };
        let path = if tall {
            e.path.clone()
        } else {
            String::new()
        };
        let row = Row {
            text: e.text.clone(),
            selector: copy_option(&sel),
            name: device_name(e.text.as_str()),
            action,
        };
        assert(path@ =~= if has_tree(bus@) {
            e.path@
        } else {
            Seq::empty()
        });
        sels.push(sel);
        rows.push((path, row));
        i += 1;
    }
    rows
}

/// One bus, with its entries and what covers them.
fn bus_group(
    i: usize,
    devices: &[(String, BusDevices)],
    allowed: &[String],
    whitelisted: &[String],
) -> (r: Group)
    requires
        i < 8,
    ensures
        group_for(r, i as int, devices@, views(allowed@), views(whitelisted@)),
{
    let entry = BUSES[i];
    let bus = short_bus(entry.0);
    let tall = nests(bus.as_str());
    let d = match find_bus(devices, bus.as_str()) {
        Some(d) => d,
        None => {
            return Group {
                name: entry.1,
                watched: false,
                reason: Some("this daemon did not report the bus".to_owned()),
                nodes: Vec::new(),
                more: 0,
                nests: tall,
            };
        },
    };
    if !d.watched {
        return Group {
            name: entry.1,
            watched: false,
            reason: Some(cat3("not watched: general.watch_", bus.as_str(), " is off")),
            nodes: Vec::new(),
            more: 0,
            nests: tall,
        };
    }
    let rows = bus_rows(bus.as_str(), d.entries.as_slice(), allowed, whitelisted);
    let nodes = tree(&rows);
    assert(rows_for(
        rows@,
        short_name(BUSES@[i as int].0@),
        d.entries@,
        views(allowed@),
        views(whitelisted@),
    ));
    Group { name: entry.1, watched: true, reason: None, nodes, more: d.more, nests: tall }
}

/// Every bus in `BUSES` order, with its entries and what covers them.
/// `allowed` and `whitelisted` are selectors: the runtime table from status,
/// and what the editor's config holds.
pub fn groups(devices: &[(String, BusDevices)], allowed: &[String], whitelisted: &[String]) -> (r:
    Vec<Group>)
    ensures
        groups_for(r@, devices@, views(allowed@), views(whitelisted@)),
{
    let mut out: Vec<Group> = Vec::new();
    let mut i: usize = 0;
    while i < 8
        invariant
            i <= 8,
            out@.len() == i,
            forall|k: int|
                0 <= k < i ==> group_for(
                    #[trigger] out@[k],
                    k,
                    devices@,
                    views(allowed@),
                    views(whitelisted@),
                ),
        decreases 8 - i,
    {
        out.push(bus_group(i, devices, allowed, whitelisted));
        i += 1;
    }
    out
}

/// What stands below a bus whose listing was cut short. The daemon caps by text,
/// not by topology, so a dropped hub leaves its children looking like roots.
pub fn more_note(group: &Group) -> (r: Option<String>)
    ensures
        match r {
            Some(note) => group.more > 0 && note@ == if group.nests {
                "and "@ + dec(group.more as nat) + " more, so this tree is incomplete"@
            } else {
                "and "@ + dec(group.more as nat) + " more"@
            },
            None => group.more == 0,
        },
{
    if group.more == 0 {
        return None;
    }
    let n = decimal(group.more);
    if group.nests {
        Some(cat3("and ", n.as_str(), " more, so this tree is incomplete"))
    } else {
        Some(cat3("and ", n.as_str(), " more"))
    }
}

/// How many of the first `n` devices the whitelist covers under a selector.
pub open spec fn covered_count(
    sels: Seq<Option<Seq<char>>>,
    s: Seq<char>,
    whitelisted: Seq<Seq<char>>,
    n: int,
) -> nat
    decreases n,
{
    if n <= 0 {
        0
    } else {
        covered_count(sels, s, whitelisted, n - 1) + if sels[n - 1] == Some(s) && instance_covered(
            "usb"@,
            sels,
            n - 1,
            whitelisted,
        ) {
            1nat
        } else {
            0nat
        }
    }
}

/// A whitelist covers as many USB devices of one model as it has copies of the
/// selector, and no more: the device after the last copy is not covered.
pub proof fn a_whitelist_covers_what_it_counts(
    sels: Seq<Option<Seq<char>>>,
    s: Seq<char>,
    whitelisted: Seq<Seq<char>>,
    n: int,
)
    requires
        0 <= n <= sels.len(),
    ensures
        covered_count(sels, s, whitelisted, n) == if seen_before(sels, s, n) <= times(
            whitelisted,
            s,
        ) {
            seen_before(sels, s, n)
        } else {
            times(whitelisted, s)
        },
    decreases n,
{
    reveal_strlit("usb");
    reveal_strlit("pci");
    assert("usb"@[0] != "pci"@[0]);
    if n > 0 {
        a_whitelist_covers_what_it_counts(sels, s, whitelisted, n - 1);
    }
}

// ---- expansion -----------------------------------------------------------

/// The rows of a device and of everything behind it that carry a selector, a
/// device before what is behind it.
pub open spec fn gathered(node: Node) -> Seq<Row>
    decreases node, 0nat,
{
    (if node.row.selector is Some {
        seq![node.row]
    } else {
        Seq::empty()
    }) + gathered_in(node.children, node.children@.len())
}

/// The rows gathered from the first `n` of these nodes.
pub open spec fn gathered_in(nodes: Vec<Node>, n: nat) -> Seq<Row>
    decreases nodes, n,
{
    if n == 0 || n > nodes@.len() {
        Seq::empty()
    } else {
        gathered_in(nodes, (n - 1) as nat) + gathered(nodes@[n - 1])
    }
}

/// Gather the rows of a device and of everything behind it.
fn gather(node: &Node, out: &mut Vec<Row>)
    ensures
        final(out)@ == old(out)@ + gathered(*node),
    decreases node,
{
    let ghost start = out@;
    if node.row.selector.is_some() {
        out.push(node.row.clone());
    }
    let ghost own = if node.row.selector is Some {
        seq![node.row]
    } else {
        Seq::empty()
    };
    assert(out@ =~= start + own + gathered_in(node.children, 0));
    let mut i: usize = 0;
    while i < node.children.len()
        invariant
            i <= node.children@.len(),
            out@ == start + own + gathered_in(node.children, i as nat),
        decreases node.children@.len() - i,
    {
        let child = &node.children[i];
        assert(*child == node.children@[i as int]);
        assert(decreases_to!(*node => node.children));
        assert(decreases_to!(node.children => node.children@[i as int]));
        gather(child, out);
        assert(out@ =~= start + own + (gathered_in(node.children, i as nat) + gathered(*child)));
        i += 1;
    }
    assert(out@ =~= start + gathered(*node));
}

/// Whether two rows name the same device model.
pub open spec fn same_model(a: Row, b: Row) -> bool {
    match (a.selector, b.selector) {
        (Some(x), Some(y)) => x@ == y@,
        (None, None) => true,
        _ => false,
    }
}

/// Whether an earlier row names the same model.
pub open spec fn met(rows: Seq<Row>, i: int) -> bool {
    exists|j: int| 0 <= j < i && same_model(#[trigger] rows[j], rows[i])
}

/// How many of the first `n` rows name the same model.
pub open spec fn model_count(rows: Seq<Row>, r: Row, n: int) -> nat
    decreases n,
{
    if n <= 0 {
        0
    } else {
        model_count(rows, r, n - 1) + if same_model(rows[n - 1], r) {
            1nat
        } else {
            0nat
        }
    }
}

/// Whether any row of the same model is not covered yet.
pub open spec fn any_uncovered(rows: Seq<Row>, r: Row) -> bool {
    exists|j: int| 0 <= j < rows.len() && same_model(#[trigger] rows[j], r) && rows[j].action is Add
}

/// A count as far as it goes.
pub open spec fn capped(n: nat) -> u32 {
    if n > u32::MAX {
        u32::MAX
    } else {
        n as u32
    }
}

/// One entry for each model among the rows that has something left uncovered,
/// with how many devices it stands for: covered ones count too.
pub open spec fn folded(rows: Seq<Row>, n: int) -> Seq<(Row, u32)>
    decreases n,
{
    if n <= 0 {
        Seq::empty()
    } else if !met(rows, n - 1) && any_uncovered(rows, rows[n - 1]) {
        folded(rows, n - 1).push(
            (rows[n - 1], capped(model_count(rows, rows[n - 1], rows.len() as int))),
        )
    } else {
        folded(rows, n - 1)
    }
}

fn is_same_model(a: &Row, b: &Row) -> (r: bool)
    ensures
        r == same_model(*a, *b),
{
    match (&a.selector, &b.selector) {
        (Some(x), Some(y)) => same(x.as_str(), y.as_str()),
        (None, None) => true,
        _ => false,
    }
}

/// Everything "Add this and everything behind it" would add: this device when
/// nothing covers it yet, and each device behind it, by its own identity. There
/// is deliberately no entry meaning "anything on this port": the config names
/// what is there now, so a device plugged in later is still a violation.
/// Two devices of one model are one whitelist entry, so the rows are folded
/// by selector and each carries how many devices it stands for. The daemon
/// allows that many instances by the entry's `count`, so the number is what
/// makes the second one legal. Every device of a model counts towards the
/// entry, covered or not.
pub fn expansion(node: &Node) -> (r: Vec<(Row, u32)>)
    ensures
        r@ == folded(gathered(*node), gathered(*node).len() as int),
{
    let mut rows: Vec<Row> = Vec::new();
    gather(node, &mut rows);
    assert(rows@ =~= gathered(*node));
    let mut out: Vec<(Row, u32)> = Vec::new();
    let mut i: usize = 0;
    while i < rows.len()
        invariant
            i <= rows@.len(),
            out@ == folded(rows@, i as int),
        decreases rows@.len() - i,
    {
        let row = &rows[i];
        let mut first = true;
        let mut uncovered = false;
        let mut count: u32 = 0;
        let mut j: usize = 0;
        while j < rows.len()
            invariant
                i < rows@.len(),
                j <= rows@.len(),
                *row == rows@[i as int],
                first == !(exists|k: int|
                    0 <= k < j && k < i && same_model(#[trigger] rows@[k], *row)),
                uncovered == (exists|k: int|
                    0 <= k < j && same_model(#[trigger] rows@[k], *row) && rows@[k].action is Add),
                count == capped(model_count(rows@, *row, j as int)),
            decreases rows@.len() - j,
        {
            if is_same_model(&rows[j], row) {
                if j < i {
                    first = false;
                    assert(same_model(rows@[j as int], *row));
                }
                if let Action::Add = rows[j].action {
                    uncovered = true;
                    assert(same_model(rows@[j as int], *row));
                }
                if count < u32::MAX {
                    count += 1;
                }
            }
            j += 1;
        }
        assert(first == !met(rows@, i as int));
        assert(uncovered == any_uncovered(rows@, *row));
        if first && uncovered {
            out.push((row.clone(), count));
        }
        i += 1;
    }
    out
}

/// The expansion a row offers: only one with something behind it, and only while
/// something there is not covered.
pub fn offered_expansion(node: &Node) -> (r: Option<Vec<(Row, u32)>>)
    ensures
        match r {
            Some(rows) => {
                &&& node.children@.len() > 0 && rows@.len() > 0
                &&& rows@ == folded(gathered(*node), gathered(*node).len() as int)
            },
            None => node.children@.len() == 0 || folded(
                gathered(*node),
                gathered(*node).len() as int,
            ).len() == 0,
        },
{
    if node.children.len() == 0 {
        return None;
    }
    let rows = expansion(node);
    if rows.len() == 0 {
        None
    } else {
        Some(rows)
    }
}

/// What one entry of an expansion reads as.
pub open spec fn item_text(item: (Row, u32)) -> Seq<char> {
    if item.1 == 1 {
        item.0.text@
    } else {
        item.0.text@ + " x"@ + dec(item.1 as nat)
    }
}

/// What the entries of an expansion read as.
pub open spec fn item_texts(rows: Seq<(Row, u32)>) -> Seq<Seq<char>> {
    rows.map_values(|i: (Row, u32)| item_text(i))
}

/// What an expansion would do, said before it is applied.
pub fn summary(rows: &[(Row, u32)]) -> (r: String)
    ensures
        r@ == "Adds "@ + dec(rows@.len()) + " whitelist "@ + (if rows@.len() == 1 {
            "entry"@
        } else {
            "entries"@
        }) + ", one per device identity: "@ + joined(item_texts(rows@), ", "@)
            + ". Anything plugged into this port later is still a violation."@,
{
    let mut what: Vec<String> = Vec::new();
    let mut i: usize = 0;
    while i < rows.len()
        invariant
            i <= rows@.len(),
            what@.len() == i,
            forall|k: int| 0 <= k < i ==> (#[trigger] what@[k])@ == item_text(rows@[k]),
        decreases rows@.len() - i,
    {
        let item = &rows[i];
        if item.1 == 1 {
            what.push(item.0.text.clone());
        } else {
            what.push(cat3(item.0.text.as_str(), " x", decimal(item.1 as u64).as_str()));
        }
        i += 1;
    }
    assert(views(what@) =~= item_texts(rows@));
    let noun = if rows.len() == 1 {
        "entry"
    } else {
        "entries"
    };
    let mut out = cat5(
        "Adds ",
        decimal(rows.len() as u64).as_str(),
        " whitelist ",
        noun,
        ", one per device identity: ",
    );
    out.push_str(join(what.as_slice(), ", ").as_str());
    out.push_str(". Anything plugged into this port later is still a violation.");
    out
}

// ---- what is attached ----------------------------------------------------

/// What the devices reply knows about one device: the name to show beside its
/// id.
#[derive(Debug, PartialEq, Eq)]
pub struct Attached {
    pub name: String,
}

impl Default for Attached {
    fn default() -> (r: Attached)
        ensures
            r.name@.len() == 0,
    {
        Attached { name: String::new() }
    }
}

/// Devices by selector, each once, in ascending order.
#[derive(Debug, PartialEq, Eq)]
pub struct AttachedMap {
    entries: Vec<(String, Attached)>,
}

impl View for AttachedMap {
    type V = Seq<(Seq<char>, Seq<char>)>;

    closed spec fn view(&self) -> Seq<(Seq<char>, Seq<char>)> {
        pairs(self.entries@)
    }
}

/// Selectors and names.
pub open spec fn pairs(s: Seq<(String, Attached)>) -> Seq<(Seq<char>, Seq<char>)> {
    s.map_values(|e: (String, Attached)| (e.0@, e.1.name@))
}

/// Whether selectors ascend.
pub open spec fn ascending(s: Seq<(Seq<char>, Seq<char>)>) -> bool {
    forall|i: int, j: int|
        0 <= i < j < s.len() ==> precedes((#[trigger] s[i]).0, (#[trigger] s[j]).0)
}

/// The first position, at or after `i`, whose selector does not come before a
/// key.
pub open spec fn slot(s: Seq<(Seq<char>, Seq<char>)>, key: Seq<char>, i: int) -> int
    decreases s.len() - i,
{
    if i >= s.len() || i < 0 || !precedes(s[i].0, key) {
        i
    } else {
        slot(s, key, i + 1)
    }
}

/// The map with a name set under a selector.
pub open spec fn put(s: Seq<(Seq<char>, Seq<char>)>, key: Seq<char>, name: Seq<char>) -> Seq<
    (Seq<char>, Seq<char>),
> {
    let at = slot(s, key, 0);
    if at < s.len() && s[at].0 == key {
        s.update(at, (key, name))
    } else {
        s.insert(at, (key, name))
    }
}

/// The name under a selector, at or after position `i`.
pub open spec fn name_under(s: Seq<(Seq<char>, Seq<char>)>, key: Seq<char>, i: int) -> Option<
    Seq<char>,
>
    decreases s.len() - i,
{
    if i >= s.len() || i < 0 {
        None
    } else if s[i].0 == key {
        Some(s[i].1)
    } else {
        name_under(s, key, i + 1)
    }
}

proof fn slot_bounds(s: Seq<(Seq<char>, Seq<char>)>, key: Seq<char>, i: int)
    requires
        0 <= i <= s.len(),
    ensures
        i <= slot(s, key, i) <= s.len(),
        slot(s, key, i) < s.len() ==> !precedes(s[slot(s, key, i)].0, key),
        forall|k: int| i <= k < slot(s, key, i) ==> precedes((#[trigger] s[k]).0, key),
    decreases s.len() - i,
{
    if i < s.len() && precedes(s[i].0, key) {
        slot_bounds(s, key, i + 1);
    }
}

/// Setting a name keeps the selectors ascending.
proof fn put_keeps_order(s: Seq<(Seq<char>, Seq<char>)>, key: Seq<char>, name: Seq<char>)
    requires
        ascending(s),
    ensures
        ascending(put(s, key, name)),
{
    slot_bounds(s, key, 0);
    let at = slot(s, key, 0);
    let r = put(s, key, name);
    assert forall|i: int, j: int| 0 <= i < j < r.len() implies precedes(
        (#[trigger] r[i]).0,
        (#[trigger] r[j]).0,
    ) by {
        if at < s.len() && s[at].0 == key {
            assert(r[i].0 == s[i].0 && r[j].0 == s[j].0);
        } else {
            let i2 = if i < at {
                i
            } else {
                i - 1
            };
            let j2 = if j < at {
                j
            } else {
                j - 1
            };
            if i != at && j != at {
                assert(r[i] == s[i2] && r[j] == s[j2]);
            } else if i == at {
                assert(r[j] == s[j2]);
                if !precedes(key, s[at].0) {
                    order_is_total(key, s[at].0);
                }
                if j2 > at {
                    order_is_transitive(key, s[at].0, s[j2].0);
                }
            } else {
                assert(r[i] == s[i]);
            }
        }
    }
}

/// A name that was set is found, and setting it changes no other.
pub proof fn put_is_found(
    s: Seq<(Seq<char>, Seq<char>)>,
    key: Seq<char>,
    name: Seq<char>,
    other: Seq<char>,
)
    requires
        ascending(s),
    ensures
        name_under(put(s, key, name), key, 0) == Some(name),
        other != key ==> name_under(put(s, key, name), other, 0) == name_under(s, other, 0),
{
    slot_bounds(s, key, 0);
    put_keeps_order(s, key, name);
    let at = slot(s, key, 0);
    let r = put(s, key, name);
    assert(r[at] == (key, name));
    found_at(r, key, at);
    if other != key {
        if name_under(s, other, 0) is Some {
            let k = where_under(s, other, 0);
            let k2 = if k < at || (at < s.len() && s[at].0 == key) {
                k
            } else {
                k + 1
            };
            assert(r[k2] == s[k]);
            found_at(r, other, k2);
        } else if name_under(r, other, 0) is Some {
            let k = where_under(r, other, 0);
            let k2 = if k < at || (at < s.len() && s[at].0 == key) {
                k
            } else {
                k - 1
            };
            assert(k != at);
            assert(r[k] == s[k2]);
            found_at(s, other, k2);
        }
    }
}

/// In ascending order a selector is found where it stands.
proof fn found_at(s: Seq<(Seq<char>, Seq<char>)>, key: Seq<char>, at: int)
    requires
        ascending(s),
        0 <= at < s.len(),
        s[at].0 == key,
    ensures
        name_under(s, key, 0) == Some(s[at].1),
{
    found_from(s, key, 0, at);
}

proof fn found_from(s: Seq<(Seq<char>, Seq<char>)>, key: Seq<char>, i: int, at: int)
    requires
        ascending(s),
        0 <= i <= at < s.len(),
        s[at].0 == key,
    ensures
        name_under(s, key, i) == Some(s[at].1),
    decreases at - i,
{
    if i < at {
        assert(precedes(s[i].0, s[at].0));
        order_is_strict(key);
        found_from(s, key, i + 1, at);
    }
}

proof fn where_under(s: Seq<(Seq<char>, Seq<char>)>, key: Seq<char>, i: int) -> (at: int)
    requires
        0 <= i,
        name_under(s, key, i) is Some,
    ensures
        i <= at < s.len(),
        s[at].0 == key,
        name_under(s, key, i) == Some(s[at].1),
    decreases s.len() - i,
{
    if s[i].0 == key {
        i
    } else {
        where_under(s, key, i + 1)
    }
}

impl AttachedMap {
    /// The selectors ascend.
    pub open spec fn wf(&self) -> bool {
        ascending(self@)
    }

    /// Nothing attached.
    pub fn new() -> (r: AttachedMap)
        ensures
            r@.len() == 0,
            r.wf(),
    {
        let r = AttachedMap { entries: Vec::new() };
        assert(r@ =~= Seq::<(Seq<char>, Seq<char>)>::empty());
        r
    }

    /// Set the name under a selector.
    pub fn insert(&mut self, selector: &str, name: &str)
        requires
            old(self).wf(),
        ensures
            final(self)@ == put(old(self)@, selector@, name@),
            final(self).wf(),
    {
        proof {
            put_keeps_order(self@, selector@, name@);
            slot_bounds(self@, selector@, 0);
        }
        let ghost before_it = self@;
        let mut i: usize = 0;
        while i < self.entries.len() && less(self.entries[i].0.as_str(), selector)
            invariant
                i <= self.entries@.len(),
                *self == *old(self),
                self@.len() == self.entries@.len(),
                slot(self@, selector@, 0) == slot(self@, selector@, i as int),
            decreases self.entries@.len() - i,
        {
            assert(self@[i as int].0 == self.entries@[i as int].0@);
            i += 1;
        }
        assert(i < self.entries@.len() ==> self@[i as int].0 == self.entries@[i as int].0@);
        assert(slot(self@, selector@, 0) == i);
        let found = i < self.entries.len() && same(self.entries[i].0.as_str(), selector);
        if found {
            self.entries[i].1 = Attached { name: name.to_owned() };
        } else {
            self.entries.insert(i, (selector.to_owned(), Attached { name: name.to_owned() }));
        }
        assert(self@ =~= put(before_it, selector@, name@));
    }

    /// Whether two replies know the same devices by the same names.
    pub fn equals(&self, other: &AttachedMap) -> (r: bool)
        ensures
            r == (self@ == other@),
    {
        if self.entries.len() != other.entries.len() {
            assert(self@.len() != other@.len());
            return false;
        }
        let mut i: usize = 0;
        while i < self.entries.len()
            invariant
                i <= self.entries@.len(),
                self.entries@.len() == other.entries@.len(),
                self@.len() == self.entries@.len(),
                other@.len() == other.entries@.len(),
                forall|k: int| 0 <= k < i ==> self@[k] == other@[k],
            decreases self.entries@.len() - i,
        {
            let a = &self.entries[i];
            let b = &other.entries[i];
            assert(self@[i as int] == (a.0@, a.1.name@));
            assert(other@[i as int] == (b.0@, b.1.name@));
            if !same(a.0.as_str(), b.0.as_str()) || !same(a.1.name.as_str(), b.1.name.as_str()) {
                assert(self@[i as int] != other@[i as int]);
                return false;
            }
            i += 1;
        }
        assert(self@ =~= other@);
        true
    }

    /// How many selectors there are.
    pub fn len(&self) -> (r: usize)
        ensures
            r == self@.len(),
    {
        self.entries.len()
    }

    /// The name under a selector.
    pub fn get(&self, selector: &str) -> (r: Option<&Attached>)
        ensures
            match r {
                Some(a) => name_under(self@, selector@, 0) == Some(a.name@),
                None => name_under(self@, selector@, 0) is None,
            },
    {
        let mut i: usize = 0;
        while i < self.entries.len()
            invariant
                i <= self.entries@.len(),
                self@.len() == self.entries@.len(),
                name_under(self@, selector@, 0) == name_under(self@, selector@, i as int),
            decreases self.entries@.len() - i,
        {
            assert(self@[i as int] == (
                self.entries@[i as int].0@,
                self.entries@[i as int].1.name@,
            ));
            if same(self.entries[i].0.as_str(), selector) {
                return Some(&self.entries[i].1);
            }
            i += 1;
        }
        None
    }
}

/// The name of a row, empty where the daemon knew none.
pub open spec fn row_name(r: Row) -> Seq<char> {
    match r.name {
        Some(n) => n@,
        None => Seq::empty(),
    }
}

/// The map after the first `n` of these rows went in.
pub open spec fn with_rows(s: Seq<(Seq<char>, Seq<char>)>, rows: Seq<Row>, n: int) -> Seq<
    (Seq<char>, Seq<char>),
>
    decreases n,
{
    if n <= 0 {
        s
    } else {
        put(with_rows(s, rows, n - 1), rows[n - 1].selector->0@, row_name(rows[n - 1]))
    }
}

/// The map that the first `n` groups make. A bus the reply listed in full also
/// gets a bare `<bus>:` marker: watched, listed whole, and listing the identity a
/// whitelist names. A real selector always carries an identity, so the marker
/// cannot collide with one.
pub open spec fn attached_in(gs: Seq<Group>, n: int) -> Seq<(Seq<char>, Seq<char>)>
    decreases n,
{
    if n <= 0 {
        Seq::empty()
    } else {
        let front = attached_in(gs, n - 1);
        let bus = short_name(BUSES@[n - 1].0@);
        let g = gs[n - 1];
        let marked = if has_tree(bus) && g.watched && g.more == 0 {
            put(front, bus + ":"@, Seq::empty())
        } else {
            front
        };
        let rows = gathered_in(g.nodes, g.nodes@.len());
        with_rows(marked, rows, rows.len() as int)
    }
}

/// Gathered rows carry selectors.
proof fn gathered_carry_selectors(node: Node)
    ensures
        forall|i: int|
            0 <= i < gathered(node).len() ==> (#[trigger] gathered(node)[i]).selector is Some,
    decreases node, 0nat,
{
    gathered_in_carry_selectors(node.children, node.children@.len());
    let own = if node.row.selector is Some {
        seq![node.row]
    } else {
        Seq::empty()
    };
    let rest = gathered_in(node.children, node.children@.len());
    assert(gathered(node) =~= own + rest);
    assert forall|i: int| 0 <= i < gathered(node).len() implies (#[trigger] gathered(
        node,
    )[i]).selector is Some by {
        if i >= own.len() {
            assert(gathered(node)[i] == rest[i - own.len()]);
        }
    }
}

proof fn gathered_in_carry_selectors(nodes: Vec<Node>, n: nat)
    ensures
        forall|i: int|
            0 <= i < gathered_in(nodes, n).len() ==> (#[trigger] gathered_in(nodes, n)[i]).selector is Some,
    decreases nodes, n,
{
    if n > 0 && n <= nodes@.len() {
        gathered_in_carry_selectors(nodes, (n - 1) as nat);
        gathered_carry_selectors(nodes@[n - 1]);
        let front = gathered_in(nodes, (n - 1) as nat);
        let last = gathered(nodes@[n - 1]);
        assert forall|i: int| 0 <= i < gathered_in(nodes, n).len() implies (#[trigger] gathered_in(
            nodes,
            n,
        )[i]).selector is Some by {
            if i < front.len() {
                assert(gathered_in(nodes, n)[i] == front[i]);
            } else {
                assert(gathered_in(nodes, n)[i] == last[i - front.len()]);
            }
        }
    }
}

/// The rows of a group that carry a selector.
fn group_rows(nodes: &Vec<Node>) -> (r: Vec<Row>)
    ensures
        r@ == gathered_in(*nodes, nodes@.len()),
        forall|i: int| 0 <= i < r@.len() ==> (#[trigger] r@[i]).selector is Some,
{
    let mut out: Vec<Row> = Vec::new();
    let mut i: usize = 0;
    assert(out@ =~= gathered_in(*nodes, 0));
    while i < nodes.len()
        invariant
            i <= nodes@.len(),
            out@ == gathered_in(*nodes, i as nat),
        decreases nodes@.len() - i,
    {
        gather(&nodes[i], &mut out);
        i += 1;
    }
    proof {
        gathered_in_carry_selectors(*nodes, nodes@.len());
    }
    out
}

/// Every device the reply lists, by its `<bus>:<identity>` selector. Built off
/// `groups`, so the names are the ones on screen.
pub fn attached(devices: &[(String, BusDevices)]) -> (r: AttachedMap)
    ensures
        r.wf(),
        exists|gs: Seq<Group>| #[trigger]
            groups_for(gs, devices@, Seq::empty(), Seq::empty()) && r@ == attached_in(gs, 8),
{
    let none: Vec<String> = Vec::new();
    let gs = groups(devices, none.as_slice(), none.as_slice());
    assert(views(none@) =~= Seq::<Seq<char>>::empty());
    let mut out = AttachedMap::new();
    let mut i: usize = 0;
    assert(out@ =~= Seq::<(Seq<char>, Seq<char>)>::empty());
    while i < 8
        invariant
            i <= 8,
            gs@.len() == 8,
            out.wf(),
            out@ == attached_in(gs@, i as int),
        decreases 8 - i,
    {
        let g = &gs[i];
        let bus = short_bus(BUSES[i].0);
        if nests(bus.as_str()) && g.watched && g.more == 0 {
            out.insert(cat2(bus.as_str(), ":").as_str(), "");
            proof {
                reveal_strlit("");
                assert(""@ =~= Seq::<char>::empty());
            }
        }
        let ghost marked = out@;
        let rows = group_rows(&g.nodes);
        let mut k: usize = 0;
        while k < rows.len()
            invariant
                k <= rows@.len(),
                out.wf(),
                forall|j: int| 0 <= j < rows@.len() ==> (#[trigger] rows@[j]).selector is Some,
                out@ == with_rows(marked, rows@, k as int),
            decreases rows@.len() - k,
        {
            let row = &rows[k];
            assert(rows@[k as int].selector is Some);
            if let Some(s) = &row.selector {
                match &row.name {
                    Some(n) => {
                        out.insert(s.as_str(), n.as_str());
                    },
                    None => {
                        let empty = String::new();
                        out.insert(s.as_str(), empty.as_str());
                    },
                }
            }
            k += 1;
        }
        i += 1;
    }
    out
}

/// The selectors that the first `n` groups list, each as often as it is listed.
pub open spec fn all_selectors(gs: Seq<Group>, n: int) -> Seq<Seq<char>>
    decreases n,
{
    if n <= 0 {
        Seq::empty()
    } else {
        all_selectors(gs, n - 1) + gathered_in(gs[n - 1].nodes, gs[n - 1].nodes@.len()).map_values(
            |r: Row| r.selector->0@,
        )
    }
}

/// How many devices there are of each identity: every selector, as often as it
/// is listed.
#[derive(Debug, PartialEq, Eq)]
pub struct Instances {
    listing: Vec<String>,
}

impl View for Instances {
    type V = Seq<Seq<char>>;

    closed spec fn view(&self) -> Seq<Seq<char>> {
        views(self.listing@)
    }
}

/// How many devices of each identity the reply lists. Two receivers of one model
/// are one whitelist entry covering two, so this is the ceiling a panel may raise
/// that entry's `count` to: never more than are plugged in.
pub fn instances(devices: &[(String, BusDevices)]) -> (r: Instances)
    ensures
        exists|gs: Seq<Group>| #[trigger]
            groups_for(gs, devices@, Seq::empty(), Seq::empty()) && r@ == all_selectors(
                gs,
                8,
            ),
{
    let none: Vec<String> = Vec::new();
    let gs = groups(devices, none.as_slice(), none.as_slice());
    assert(views(none@) =~= Seq::<Seq<char>>::empty());
    let mut out: Vec<String> = Vec::new();
    let mut i: usize = 0;
    assert(views(out@) =~= Seq::<Seq<char>>::empty());
    while i < 8
        invariant
            i <= 8,
            gs@.len() == 8,
            views(out@) == all_selectors(gs@, i as int),
        decreases 8 - i,
    {
        let rows = group_rows(&gs[i].nodes);
        let ghost start = views(out@);
        let ghost all = rows@.map_values(|r: Row| r.selector->0@);
        let mut k: usize = 0;
        assert(views(out@) =~= start + all.take(0));
        while k < rows.len()
            invariant
                k <= rows@.len(),
                all == rows@.map_values(|r: Row| r.selector->0@),
                forall|j: int| 0 <= j < rows@.len() ==> (#[trigger] rows@[j]).selector is Some,
                views(out@) == start + all.take(k as int),
            decreases rows@.len() - k,
        {
            let ghost sofar = out@;
            assert(rows@[k as int].selector is Some);
            if let Some(s) = &rows[k].selector {
                out.push(s.clone());
                assert(views(out@) =~= views(sofar).push(s@));
                assert(all[k as int] == s@);
                assert(views(out@) =~= start + all.take(k + 1));
            }
            k += 1;
        }
        assert(all.take(k as int) =~= all);
        i += 1;
    }
    Instances { listing: out }
}

impl Instances {
    /// Nothing listed.
    pub fn new() -> (r: Instances)
        ensures
            r@.len() == 0,
    {
        Instances { listing: Vec::new() }
    }

    /// How many devices of an identity are listed, `None` where none is.
    pub fn get(&self, selector: &str) -> (r: Option<u32>)
        ensures
            match r {
                Some(n) => times(self@, selector@) > 0 && n == capped(times(self@, selector@)),
                None => times(self@, selector@) == 0,
            },
    {
        let n = count_of(self.listing.as_slice(), selector);
        if n == 0 {
            None
        } else if n > u32::MAX as usize {
            Some(u32::MAX)
        } else {
            Some(n as u32)
        }
    }
}

// ---- names ---------------------------------------------------------------

/// The first entry, at or after position `i`, of a PCI device that a selector
/// covers the way the daemon matches it.
pub open spec fn covered_from(
    s: Seq<(Seq<char>, Seq<char>)>,
    selector: Seq<char>,
    i: int,
) -> Option<Seq<char>>
    decreases s.len() - i,
{
    if i >= s.len() || i < 0 {
        None
    } else if begins(s[i].0, "pci:"@) && pci_covers(selector, s[i].0) {
        Some(s[i].1)
    } else {
        covered_from(s, selector, i + 1)
    }
}

/// The name that is known for a selector. A pci entry can be a prefix of the
/// address, which is how the daemon matches it, so an exact miss is tried again
/// the daemon's way.
pub open spec fn known_name(s: Seq<(Seq<char>, Seq<char>)>, selector: Seq<char>) -> Option<
    Seq<char>,
> {
    if name_under(s, selector, 0) is Some {
        name_under(s, selector, 0)
    } else {
        covered_from(s, selector, 0)
    }
}

/// The name to show beside an id: what the reply calls the device, or why there
/// is none. A bus whose listing carries no identity to match on cannot say
/// whether this one is attached, so it does not claim it is not; only a bus the
/// reply listed in full can say a device is gone.
pub open spec fn described(selector: Seq<char>, s: Seq<(Seq<char>, Seq<char>)>) -> Seq<char> {
    match known_name(s, selector) {
        Some(name) => if name.len() > 0 {
            name
        } else {
            UNNAMED@
        },
        None => {
            let bus = before(selector, ':');
            match reason_for(bus) {
                Some(why) => "no name here: "@ + why,
                None => if name_under(s, bus + ":"@, 0) is Some {
                    NOT_CONNECTED@
                } else {
                    NOT_LISTED@
                },
            }
        },
    }
}

fn lookup<'a>(selector: &str, attached: &'a AttachedMap) -> (r: Option<&'a Attached>)
    ensures
        match r {
            Some(a) => known_name(attached@, selector@) == Some(a.name@),
            None => known_name(attached@, selector@) is None,
        },
{
    if let Some(a) = attached.get(selector) {
        return Some(a);
    }
    let mut i: usize = 0;
    while i < attached.entries.len()
        invariant
            i <= attached.entries@.len(),
            attached@.len() == attached.entries@.len(),
            name_under(attached@, selector@, 0) is None,
            covered_from(attached@, selector@, 0) == covered_from(
                attached@,
                selector@,
                i as int,
            ),
        decreases attached.entries@.len() - i,
    {
        let e = &attached.entries[i];
        assert(attached@[i as int] == (e.0@, e.1.name@));
        let key = chars(e.0.as_str());
        if crate::text::starts_with(key.as_slice(), "pci:") && does_pci_cover(
            selector,
            e.0.as_str(),
        ) {
            return Some(&e.1);
        }
        i += 1;
    }
    None
}

/// The name to show beside an id: what the reply calls the device, or why
/// there is none. Never empty, so no row shows a blank where a name would go.
pub fn describe(selector: &str, attached: &AttachedMap) -> (r: String)
    ensures
        r@ == described(selector@, attached@),
{
    if let Some(a) = lookup(selector, attached) {
        return if a.name.as_str().is_empty() {
            UNNAMED.to_owned()
        } else {
            a.name.clone()
        };
    }
    let all = chars(selector);
    let at = find(all.as_slice(), ':');
    let front = part(all.as_slice(), 0, at);
    assert(front@ =~= before(selector@, ':'));
    let bus = text(front);
    match no_selector_reason(bus.as_str()) {
        Some(why) => cat2("no name here: ", why),
        None => {
            if attached.get(cat2(bus.as_str(), ":").as_str()).is_some() {
                NOT_CONNECTED.to_owned()
            } else {
                NOT_LISTED.to_owned()
            }
        },
    }
}

/// A description is never empty.
pub proof fn a_description_is_never_empty(selector: Seq<char>, s: Seq<(Seq<char>, Seq<char>)>)
    ensures
        described(selector, s).len() > 0,
{
    reveal_strlit("attached, unnamed");
    reveal_strlit("not connected");
    reveal_strlit("not in the daemon's listing");
    reveal_strlit("no name here: ");
}

// ---- what holds of the lists ---------------------------------------------

/// A PCI entry of the whitelist covers a device exactly where what follows its bus is
/// not empty and stands somewhere in the device's address; an entry of another bus
/// covers none.
pub proof fn a_pci_entry_covers_what_it_stands_in(entry: Seq<char>, address: Seq<char>)
    ensures
        pci_covers("pci:"@ + entry, "pci:"@ + address) <==> entry.len() > 0 && exists|i: int|
            0 <= i <= address.len() - entry.len() && #[trigger] address.subrange(i, i + entry.len())
                == entry,
        pci_covers(entry, address) ==> entry.len() > 4 && entry[0] == 'p' && entry[1] == 'c'
            && entry[2] == 'i' && entry[3] == ':',
{
    reveal_strlit("pci:");
    let e = "pci:"@ + entry;
    let a = "pci:"@ + address;
    assert(e.take(4) =~= "pci:"@);
    assert(a.take(4) =~= "pci:"@);
    assert(e.skip(4) =~= entry);
    assert(a.skip(4) =~= address);
    crate::text::one_text_in_another(address, entry);
    if pci_covers(entry, address) {
        assert(entry.take(4) == "pci:"@);
        assert(entry.take(4)[0] == entry[0] && entry.take(4)[1] == entry[1] && entry.take(4)[2]
            == entry[2] && entry.take(4)[3] == entry[3]);
    }
}

/// A device of any other bus is in the whitelist where its own selector is.
pub proof fn other_buses_match_by_the_selector(
    bus: Seq<char>,
    selector: Seq<char>,
    whitelisted: Seq<Seq<char>>,
)
    ensures
        bus != "pci"@ ==> (whitelists(bus, selector, whitelisted) <==> exists|i: int|
            0 <= i < whitelisted.len() && #[trigger] whitelisted[i] == selector),
        whitelists("pci"@, selector, whitelisted) <==> exists|i: int|
            0 <= i < whitelisted.len() && pci_covers(#[trigger] whitelisted[i], selector),
{
    if exists|i: int| 0 <= i < whitelisted.len() && #[trigger] whitelisted[i] == selector {
        let i = choose|i: int| 0 <= i < whitelisted.len() && #[trigger] whitelisted[i] == selector;
        assert(whitelisted.contains(selector));
    }
}

/// A line of the USB or PCI bus names the device of its first word, and what follows the
/// first space is the name; a line of another bus names no device.
pub proof fn a_line_names_its_device(bus: Seq<char>, entry: Seq<char>)
    ensures
        bus != "usb"@ && bus != "pci"@ ==> selector_of(bus, entry) is None,
        (bus == "usb"@ || bus == "pci"@) && words_of(entry).len() > 0 ==> match read_selector(
            bus + ":"@ + words_of(entry)[0],
        ) {
            Ok(k) => selector_of(bus, entry) == Some(k.text()),
            Err(_) => selector_of(bus, entry) is None,
        },
        words_of(entry).len() == 0 ==> selector_of(bus, entry) is None,
        name_in(entry) is Some <==> entry.contains(' '),
        name_in(entry) matches Some(n) ==> entry == before(entry, ' ') + seq![' '] + n && !before(
            entry,
            ' ',
        ).contains(' '),
{
    crate::text::a_cut_text_joins_again(entry, ' ');
}

/// Whether a row stands at a path.
pub open spec fn at_path(rows: Seq<(String, Row)>, path: Seq<char>) -> bool {
    exists|k: int| 0 <= k < rows.len() && (#[trigger] rows[k]).0@ == path
}

proof fn path_is_found(rows: Seq<(String, Row)>, path: Seq<char>, i: int)
    requires
        0 <= i,
        path.len() > 0,
    ensures
        path_at(rows, path, i) is Some <==> exists|k: int|
            i <= k < rows.len() && (#[trigger] rows[k]).0@ == path,
        path_at(rows, path, i) matches Some(k) ==> i <= k < rows.len() && rows[k].0@ == path,
    decreases rows.len() - i,
{
    if i < rows.len() {
        path_is_found(rows, path, i + 1);
    }
}

/// Whether a path may be cut at a place: a point or a slash stands there.
pub open spec fn parts_at(path: Seq<char>, c: int) -> bool {
    0 < c < path.len() && (path[c] == '.' || path[c] == '/')
}

/// A device hangs under the nearest row above it: the row at the longest part of its
/// path that ends before a point or a slash. Where there is none, it hangs under the
/// root hub of its bus, if at all.
pub proof fn a_device_hangs_under_the_nearest_row(rows: Seq<(String, Row)>, path: Seq<char>)
    ensures
        (exists|c: int| #[trigger] parts_at(path, c) && at_path(rows, path.take(c))) ==> exists|c: int|
            {
                &&& #[trigger] parts_at(path, c)
                &&& ancestor_of(rows, path) matches Some(k) && 0 <= k < rows.len() && rows[k].0@
                    == path.take(c)
                &&& forall|d: int| c < d && #[trigger] parts_at(path, d) ==> !at_path(
                    rows,
                    path.take(d),
                )
            },
        !(exists|c: int| #[trigger] parts_at(path, c) && at_path(rows, path.take(c))) ==> (
        ancestor_of(rows, path) matches Some(k) ==> 0 <= k < rows.len() && rows[k].0@.len() > 3
            && rows[k].0@[0] == 'u' && rows[k].0@[1] == 's' && rows[k].0@[2] == 'b'),
    decreases path.len(),
{
    let n = path.len() as int;
    let cut = last_cut(path, n);
    last_cut_bounds(path, n);
    reveal_strlit("usb");
    if cut < 0 {
        assert forall|c: int| !(#[trigger] parts_at(path, c)) by {}
        if root_hub(rows, path) is Some {
            let hub = "usb"@ + before(path, '-');
            path_is_found(rows, hub, 0);
            assert(hub[0] == 'u' && hub[1] == 's' && hub[2] == 'b');
        }
    } else {
        let rest = path.take(cut);
        a_device_hangs_under_the_nearest_row(rows, rest);
        assert forall|c: int| #[trigger] parts_at(path, c) implies c <= cut by {}
        assert forall|c: int| #[trigger] parts_at(rest, c) <==> (parts_at(path, c) && c < cut) by {}
        assert forall|c: int| 0 < c < cut implies #[trigger] rest.take(c) == path.take(c) by {
            assert(rest.take(c) =~= path.take(c));
        }
        if cut > 0 {
            path_is_found(rows, rest, 0);
            assert(parts_at(path, cut));
        }
        if path_at(rows, rest, 0) is Some {
            assert(cut > 0);
            assert(rows[path_at(rows, rest, 0)->0].0@ == path.take(cut));
        } else {
            assert(cut > 0 ==> !at_path(rows, path.take(cut)));
            if exists|c: int| #[trigger] parts_at(path, c) && at_path(rows, path.take(c)) {
                let c = choose|c: int| #[trigger] parts_at(path, c) && at_path(rows, path.take(c));
                assert(parts_at(rest, c) && at_path(rows, rest.take(c)));
                let best = choose|c: int|
                    {
                        &&& #[trigger] parts_at(rest, c)
                        &&& ancestor_of(rows, rest) matches Some(k) && 0 <= k < rows.len()
                            && rows[k].0@ == rest.take(c)
                        &&& forall|d: int| c < d && #[trigger] parts_at(rest, d) ==> !at_path(
                            rows,
                            rest.take(d),
                        )
                    };
                assert(parts_at(path, best));
                assert forall|d: int| best < d && #[trigger] parts_at(path, d) implies !at_path(
                    rows,
                    path.take(d),
                ) by {
                    if d < cut {
                        assert(parts_at(rest, d));
                    }
                }
            } else {
                assert forall|c: int| !(#[trigger] parts_at(rest, c) && at_path(
                    rows,
                    rest.take(c),
                )) by {
                    if parts_at(rest, c) {
                        assert(parts_at(path, c));
                    }
                }
            }
        }
    }
}

/// A USB port hangs under the root hub of the bus whose number its path begins with.
pub proof fn a_port_hangs_under_its_root_hub(
    rows: Seq<(String, Row)>,
    bus: Seq<char>,
    port: Seq<char>,
)
    requires
        bus.len() > 0,
        forall|i: int| 0 <= i < bus.len() ==> 48 <= #[trigger] bus[i] as u32 && bus[i] as u32 <= 57,
        forall|i: int| 0 <= i < port.len() ==> port[i] != '.' && port[i] != '/',
    ensures
        at_path(rows, "usb"@ + bus) ==> (ancestor_of(rows, bus + seq!['-'] + port) matches Some(k)
            && 0 <= k < rows.len() && rows[k].0@ == "usb"@ + bus),
        !at_path(rows, "usb"@ + bus) ==> ancestor_of(rows, bus + seq!['-'] + port) is None,
{
    let path = bus + seq!['-'] + port;
    let n = path.len() as int;
    last_cut_bounds(path, n);
    let c = last_cut(path, n);
    if c >= 0 {
        if c < bus.len() {
            assert(path[c] == bus[c]);
            assert(48 <= bus[c] as u32 && bus[c] as u32 <= 57);
        } else if c > bus.len() {
            assert(path[c] == port[c - bus.len() - 1]);
        }
    }
    assert forall|k: int| 0 <= k < bus.len() implies bus[k] != '-' by {
        assert(48 <= bus[k] as u32 && bus[k] as u32 <= 57);
    }
    assert(!bus.contains('-'));
    crate::text::cut(bus, '-', port);
    assert(path.len() > bus.len());
    assert forall|i: int| 0 <= i < bus.len() implies crate::number::digit_value(#[trigger] bus[i])
        < 10 by {
        assert(48 <= bus[i] as u32 && bus[i] as u32 <= 57);
    }
    assert(all_digits(bus, 10));
    reveal_strlit("usb");
    path_is_found(rows, "usb"@ + bus, 0);
}

/// A row offers to add its device exactly where the device can be told, and neither the
/// whitelist nor an allowance covers it. A whitelist covers as many of one USB device as
/// it lists, and every PCI device that an entry stands in.
pub proof fn a_row_offers_what_is_not_covered(
    a: Action,
    bus: Seq<char>,
    sels: Seq<Option<Seq<char>>>,
    i: int,
    allowed: Seq<Seq<char>>,
    whitelisted: Seq<Seq<char>>,
)
    requires
        acts(a, bus, sels, i, allowed, whitelisted),
    ensures
        sels[i] is None ==> !(a is Add) && !(a is Covered),
        sels[i] matches Some(s) ==> {
            &&& bus != "pci"@ ==> (a is Add <==> !(seen_before(sels, s, i) < times(whitelisted, s))
                && !allowed.contains(s))
            &&& bus == "pci"@ ==> (a is Add <==> (forall|k: int|
                0 <= k < whitelisted.len() ==> !pci_covers(#[trigger] whitelisted[k], s))
                && !allowed.contains(s))
            &&& a is Add || a is Covered
        },
        a matches Action::Covered(by) ==> by@ == "in the whitelist"@ || by@ == "allowed at runtime"@,
{
}

/// How many rows before one name the same device.
pub proof fn rows_before_are_counted(sels: Seq<Option<Seq<char>>>, s: Seq<char>, n: int)
    requires
        0 <= n < sels.len(),
    ensures
        seen_before(sels, s, 0) == 0,
        seen_before(sels, s, n + 1) == seen_before(sels, s, n) + if sels[n] == Some(s) {
            1int
        } else {
            0
        },
{
}

/// Bars are drawn eighteen units apart, from nine on, in half units.
pub proof fn where_bars_are_drawn(ancestors: Seq<bool>, last: bool, w: int, h: int)
    requires
        ancestors.len() > 0,
    ensures
        ({
            let s = stem(ancestors, last, w, h);
            let x = 36 * (ancestors.len() - 1) + 19;
            &&& s.len() >= 2
            &&& s[s.len() - 1] == (x, 2 * (h / 2) + 1, 2 * w, 2 * (h / 2) + 1)
            &&& last ==> s[s.len() - 2] == (x, 0int, x, 2 * (h / 2) + 1)
            &&& !last ==> s[s.len() - 2] == (x, 0int, x, 2 * h)
            &&& s.take(s.len() - 2) == bars(ancestors, ancestors.len() as int, h)
        }),
        stem(Seq::empty(), last, w, h).len() == 0,
{
    let s = stem(ancestors, last, w, h);
    assert(s.take(s.len() - 2) =~= bars(ancestors, ancestors.len() as int, h));
}

/// A bar goes on past a row for each ancestor but the outermost that has more to come.
pub proof fn a_bar_for_each_open_ancestor(
    ancestors: Seq<bool>,
    n: int,
    h: int,
    bar: (int, int, int, int),
)
    requires
        0 <= n <= ancestors.len(),
    ensures
        bars(ancestors, n, h).contains(bar) <==> exists|k: int|
            1 <= k < n && #[trigger] ancestors[k] && bar == (
                36 * (k - 1) + 19,
                0int,
                36 * (k - 1) + 19,
                2 * h,
            ),
    decreases n,
{
    if n > 1 {
        a_bar_for_each_open_ancestor(ancestors, n - 1, h, bar);
        let front = bars(ancestors, n - 1, h);
        let all = bars(ancestors, n, h);
        let own = (36 * (n - 2) + 19, 0int, 36 * (n - 2) + 19, 2 * h);
        if front.contains(bar) {
            let k = choose|k: int| 0 <= k < front.len() && front[k] == bar;
            assert(all[k] == bar);
        }
        if all.contains(bar) {
            let k = choose|k: int| 0 <= k < all.len() && all[k] == bar;
            if k < front.len() {
                assert(front[k] == bar);
                assert(front.contains(bar));
            } else {
                assert(ancestors[n - 1] && bar == own);
            }
        }
        if ancestors[n - 1] && bar == own {
            assert(all[front.len() as int] == bar);
        }
    }
}

/// What adding all proposes: one item for each kind of device of which some instance is
/// not covered, at its first row and with the number of all its rows.
pub proof fn one_item_for_each_kind(rows: Seq<Row>, n: int, item: (Row, u32))
    requires
        0 <= n <= rows.len(),
    ensures
        folded(rows, n).contains(item) <==> exists|i: int|
            {
                &&& 0 <= i < n
                &&& item.0 == #[trigger] rows[i]
                &&& item.1 == capped(model_count(rows, rows[i], rows.len() as int))
                &&& forall|j: int| 0 <= j < i ==> !same_model(#[trigger] rows[j], rows[i])
                &&& exists|j: int|
                    0 <= j < rows.len() && same_model(#[trigger] rows[j], rows[i])
                        && rows[j].action is Add
            },
    decreases n,
{
    if n > 0 {
        one_item_for_each_kind(rows, n - 1, item);
        let front = folded(rows, n - 1);
        let all = folded(rows, n);
        let r = rows[n - 1];
        let own = (r, capped(model_count(rows, r, rows.len() as int)));
        let kept = !met(rows, n - 1) && any_uncovered(rows, r);
        assert(kept <==> (forall|j: int| 0 <= j < n - 1 ==> !same_model(#[trigger] rows[j], r)) && (
        exists|j: int|
            0 <= j < rows.len() && same_model(#[trigger] rows[j], r) && rows[j].action is Add));
        if front.contains(item) {
            let k = choose|k: int| 0 <= k < front.len() && front[k] == item;
            assert(all[k] == item);
        }
        if all.contains(item) && !front.contains(item) {
            let k = choose|k: int| 0 <= k < all.len() && all[k] == item;
            if k < front.len() {
                assert(front[k] == item);
            }
            assert(kept && item == own);
            assert(item.0 == rows[n - 1]);
        }
        if kept && item == own {
            assert(all[front.len() as int] == item);
        }
    }
}

/// How many rows are of one kind: those with the same selector.
pub proof fn rows_of_a_kind_are_counted(rows: Seq<Row>, r: Row, n: int)
    requires
        0 <= n < rows.len(),
    ensures
        model_count(rows, r, 0) == 0,
        model_count(rows, r, n + 1) == model_count(rows, r, n) + (if match (rows[n].selector, r.selector) {
            (Some(x), Some(y)) => x@ == y@,
            (None, None) => true,
            _ => false,
        } {
            1int
        } else {
            0
        }),
{
}

/// A device is described by the name it is attached under; one that is attached without
/// a name, or not attached, or not on any list, is described as that.
pub proof fn a_device_is_described_by_what_is_attached(
    selector: Seq<char>,
    s: Seq<(Seq<char>, Seq<char>)>,
)
    ensures
        known_name(s, selector) matches Some(name) ==> described(selector, s) == if name.len() > 0 {
            name
        } else {
            "attached, unnamed"@
        },
        known_name(s, selector) is None ==> {
            let bus = before(selector, ':');
            &&& bus == "thunderbolt"@ ==> described(selector, s)
                == "no name here: whitelisted by unique id, which this listing does not carry"@
            &&& bus == "sdcard"@ ==> described(selector, s)
                == "no name here: whitelisted by serial, which this listing does not carry"@
            &&& bus != "thunderbolt"@ && bus != "sdcard"@ ==> described(selector, s) == if name_under(
                s,
                bus + ":"@,
                0,
            ) is Some {
                "not connected"@
            } else {
                "not in the daemon's listing"@
            }
        },
{
    reveal_strlit("thunderbolt");
    reveal_strlit("sdcard");
    reveal_strlit("no name here: ");
    reveal_strlit("whitelisted by unique id, which this listing does not carry");
    reveal_strlit("whitelisted by serial, which this listing does not carry");
    reveal_strlit("no name here: whitelisted by unique id, which this listing does not carry");
    reveal_strlit("no name here: whitelisted by serial, which this listing does not carry");
    assert("no name here: "@ + "whitelisted by unique id, which this listing does not carry"@
        =~= "no name here: whitelisted by unique id, which this listing does not carry"@);
    assert("no name here: "@ + "whitelisted by serial, which this listing does not carry"@
        =~= "no name here: whitelisted by serial, which this listing does not carry"@);
    assert("thunderbolt"@.len() != "sdcard"@.len());
}

/// A device has the name of the first that is attached under its selector, and a PCI
/// entry, where none is, that of the first attached device it covers.
pub proof fn a_name_is_that_of_what_is_attached(
    selector: Seq<char>,
    s: Seq<(Seq<char>, Seq<char>)>,
    i: int,
)
    requires
        0 <= i < s.len(),
    ensures
        s[i].0 == selector && (forall|k: int| 0 <= k < i ==> (#[trigger] s[k]).0 != selector)
            ==> known_name(s, selector) == Some(s[i].1),
        (forall|k: int| 0 <= k < s.len() ==> (#[trigger] s[k]).0 != selector) && pci_covers(
            selector,
            s[i].0,
        ) && begins(s[i].0, "pci:"@) && (forall|k: int|
            0 <= k < i ==> !(begins((#[trigger] s[k]).0, "pci:"@) && pci_covers(selector, s[k].0)))
            ==> known_name(s, selector) == Some(s[i].1),
{
    if forall|k: int| 0 <= k < i ==> (#[trigger] s[k]).0 != selector {
        if s[i].0 == selector {
            name_is_at(s, selector, 0, i);
        }
    }
    if forall|k: int| 0 <= k < s.len() ==> (#[trigger] s[k]).0 != selector {
        no_name_from(s, selector, 0);
        if pci_covers(selector, s[i].0) && begins(s[i].0, "pci:"@) && (forall|k: int|
            0 <= k < i ==> !(begins((#[trigger] s[k]).0, "pci:"@) && pci_covers(selector, s[k].0))) {
            covered_is_at(s, selector, 0, i);
        }
    }
}

proof fn name_is_at(s: Seq<(Seq<char>, Seq<char>)>, key: Seq<char>, from: int, i: int)
    requires
        0 <= from <= i < s.len(),
        s[i].0 == key,
        forall|k: int| from <= k < i ==> (#[trigger] s[k]).0 != key,
    ensures
        name_under(s, key, from) == Some(s[i].1),
    decreases i - from,
{
    if from < i {
        name_is_at(s, key, from + 1, i);
    }
}

proof fn no_name_from(s: Seq<(Seq<char>, Seq<char>)>, key: Seq<char>, from: int)
    requires
        0 <= from,
        forall|k: int| from <= k < s.len() ==> (#[trigger] s[k]).0 != key,
    ensures
        name_under(s, key, from) is None,
    decreases s.len() - from,
{
    if from < s.len() {
        no_name_from(s, key, from + 1);
    }
}

proof fn covered_is_at(s: Seq<(Seq<char>, Seq<char>)>, selector: Seq<char>, from: int, i: int)
    requires
        0 <= from <= i < s.len(),
        begins(s[i].0, "pci:"@) && pci_covers(selector, s[i].0),
        forall|k: int|
            from <= k < i ==> !(begins((#[trigger] s[k]).0, "pci:"@) && pci_covers(selector, s[k].0)),
    ensures
        covered_from(s, selector, from) == Some(s[i].1),
    decreases i - from,
{
    if from < i {
        covered_is_at(s, selector, from + 1, i);
    }
}

/// A bus that the daemon did not report, or does not watch, shows nothing and says why.
pub proof fn an_unwatched_bus_shows_nothing(
    g: Group,
    i: int,
    devices: Seq<(String, BusDevices)>,
    allowed: Seq<Seq<char>>,
    whitelisted: Seq<Seq<char>>,
)
    requires
        group_for(g, i, devices, allowed, whitelisted),
        0 <= i < 8,
    ensures
        ({
            let found = bus_from(devices, short_name(BUSES@[i].0@), 0);
            &&& g.watched <==> (found matches Some(d) && d.watched)
            &&& !g.watched ==> g.nodes@.len() == 0 && g.more == 0 && g.reason is Some
            &&& g.watched ==> g.reason is None && (found matches Some(d) && g.more == d.more)
        }),
{
}

/// A tree gives its devices from the top down: the row of a node where it names a device,
/// and then those of its children in order.
pub proof fn a_tree_gives_its_devices(node: Node, n: nat)
    requires
        n < node.children@.len(),
    ensures
        node.row.selector is Some ==> gathered(node) == seq![node.row] + gathered_in(
            node.children,
            node.children@.len(),
        ),
        node.row.selector is None ==> gathered(node) == gathered_in(
            node.children,
            node.children@.len(),
        ),
        gathered_in(node.children, 0).len() == 0,
        gathered_in(node.children, n + 1) == gathered_in(node.children, n) + gathered(
            node.children@[n as int],
        ),
{
    let rest = gathered_in(node.children, node.children@.len());
    assert(Seq::<Row>::empty() + rest =~= rest);
}

/// What is attached: the last row of a device gives the name, an empty one where it has
/// none, and what was known of other devices stays.
pub proof fn a_row_gives_the_name(
    s: Seq<(Seq<char>, Seq<char>)>,
    rows: Seq<Row>,
    n: int,
    key: Seq<char>,
)
    requires
        ascending(s),
        0 <= n <= rows.len(),
        forall|i: int| 0 <= i < rows.len() ==> (#[trigger] rows[i]).selector is Some,
    ensures
        ascending(with_rows(s, rows, n)),
        (forall|i: int| 0 <= i < n ==> (#[trigger] rows[i]).selector->0@ != key) ==> name_under(
            with_rows(s, rows, n),
            key,
            0,
        ) == name_under(s, key, 0),
        n > 0 && rows[n - 1].selector->0@ == key ==> name_under(with_rows(s, rows, n), key, 0) == Some(
            match rows[n - 1].name {
                Some(name) => name@,
                None => Seq::<char>::empty(),
            },
        ),
        n > 0 && rows[n - 1].selector->0@ != key ==> name_under(with_rows(s, rows, n), key, 0)
            == name_under(with_rows(s, rows, n - 1), key, 0),
    decreases n,
{
    if n > 0 {
        a_row_gives_the_name(s, rows, n - 1, key);
        let front = with_rows(s, rows, n - 1);
        let own = rows[n - 1].selector->0@;
        put_keeps_order(front, own, row_name(rows[n - 1]));
        put_is_found(front, own, row_name(rows[n - 1]), key);
    }
}

/// The selectors of all groups are those of each.
pub proof fn every_group_gives_its_selectors(gs: Seq<Group>, n: int, x: Seq<char>)
    requires
        0 <= n < gs.len(),
    ensures
        all_selectors(gs, 0).len() == 0,
        times(all_selectors(gs, n + 1), x) == times(all_selectors(gs, n), x) + times(
            gathered_in(gs[n].nodes, gs[n].nodes@.len()).map_values(|r: Row| r.selector->0@),
            x,
        ),
{
    times_of_two(
        all_selectors(gs, n),
        gathered_in(gs[n].nodes, gs[n].nodes@.len()).map_values(|r: Row| r.selector->0@),
        x,
    );
}

proof fn times_of_two(a: Seq<Seq<char>>, b: Seq<Seq<char>>, s: Seq<char>)
    ensures
        times(a + b, s) == times(a, s) + times(b, s),
    decreases b.len(),
{
    if b.len() == 0 {
        assert(a + b =~= a);
    } else {
        times_of_two(a, b.drop_last(), s);
        assert((a + b).drop_last() =~= a + b.drop_last());
        assert((a + b).last() == b.last());
    }
}

/// There is a group for each of the eight buses, named as people name it, and the USB and
/// PCI buses alone are trees.
pub proof fn there_is_a_group_for_each_bus(
    gs: Seq<Group>,
    devices: Seq<(String, BusDevices)>,
    allowed: Seq<Seq<char>>,
    whitelisted: Seq<Seq<char>>,
)
    requires
        groups_for(gs, devices, allowed, whitelisted),
    ensures
        gs.len() == 8,
        gs[0].name@ == "USB"@ && gs[1].name@ == "Thunderbolt"@ && gs[2].name@ == "SD card"@
            && gs[3].name@ == "Power supply"@ && gs[4].name@ == "Network"@ && gs[5].name@ == "Lid"@
            && gs[6].name@ == "PCI"@ && gs[7].name@ == "Display"@,
        gs[0].nests && gs[6].nests,
        !gs[1].nests && !gs[2].nests && !gs[3].nests && !gs[4].nests && !gs[5].nests && !gs[7].nests,
{
    assert(group_for(gs[0], 0, devices, allowed, whitelisted) && group_for(
        gs[1],
        1,
        devices,
        allowed,
        whitelisted,
    ) && group_for(gs[2], 2, devices, allowed, whitelisted) && group_for(
        gs[3],
        3,
        devices,
        allowed,
        whitelisted,
    ) && group_for(gs[4], 4, devices, allowed, whitelisted) && group_for(
        gs[5],
        5,
        devices,
        allowed,
        whitelisted,
    ) && group_for(gs[6], 6, devices, allowed, whitelisted) && group_for(
        gs[7],
        7,
        devices,
        allowed,
        whitelisted,
    ));
    crate::gui::dashboard::model::a_bus_has_its_short_name("usb"@);
    crate::gui::dashboard::model::a_bus_has_its_short_name("thunderbolt"@);
    crate::gui::dashboard::model::a_bus_has_its_short_name("sdcard"@);
    crate::gui::dashboard::model::a_bus_has_its_short_name("power"@);
    crate::gui::dashboard::model::a_bus_has_its_short_name("network"@);
    crate::gui::dashboard::model::a_bus_has_its_short_name("lid"@);
    crate::gui::dashboard::model::a_bus_has_its_short_name("pci"@);
    crate::gui::dashboard::model::a_bus_has_its_short_name("display"@);
    reveal_strlit("usb");
    reveal_strlit("thunderbolt");
    reveal_strlit("sdcard");
    reveal_strlit("power");
    reveal_strlit("network");
    reveal_strlit("lid");
    reveal_strlit("pci");
    reveal_strlit("display");
    reveal_strlit("_watching");
    reveal_strlit("usb_watching");
    reveal_strlit("thunderbolt_watching");
    reveal_strlit("sdcard_watching");
    reveal_strlit("power_watching");
    reveal_strlit("network_watching");
    reveal_strlit("lid_watching");
    reveal_strlit("pci_watching");
    reveal_strlit("display_watching");
    assert("usb"@ + "_watching"@ =~= "usb_watching"@);
    assert("thunderbolt"@ + "_watching"@ =~= "thunderbolt_watching"@);
    assert("sdcard"@ + "_watching"@ =~= "sdcard_watching"@);
    assert("power"@ + "_watching"@ =~= "power_watching"@);
    assert("network"@ + "_watching"@ =~= "network_watching"@);
    assert("lid"@ + "_watching"@ =~= "lid_watching"@);
    assert("pci"@ + "_watching"@ =~= "pci_watching"@);
    assert("display"@ + "_watching"@ =~= "display_watching"@);
    assert("usb"@.len() == 3 && "pci"@.len() == 3 && "lid"@.len() == 3 && "lid"@[0] == 'l' && "usb"@[0]
        == 'u' && "pci"@[0] == 'p');
    assert("thunderbolt"@.len() == 11 && "sdcard"@.len() == 6 && "power"@.len() == 5
        && "network"@.len() == 7 && "display"@.len() == 7);
}

/// A row shows the line that the daemon listed, and names the device and the name that
/// the line gives, none where it gives none. Only a row of a tree has a place in one.
pub proof fn a_row_shows_its_line(
    row: (String, Row),
    bus: Seq<char>,
    entries: Seq<DeviceEntry>,
    i: int,
    allowed: Seq<Seq<char>>,
    whitelisted: Seq<Seq<char>>,
)
    requires
        row_for(row, bus, entries, i, allowed, whitelisted),
        0 <= i < entries.len(),
    ensures
        row.1.text == entries[i].text,
        bus == "usb"@ || bus == "pci"@ ==> row.0@ == entries[i].path@,
        bus != "usb"@ && bus != "pci"@ ==> row.0@.len() == 0 && row.1.selector is None,
        row.1.selector matches Some(s) ==> selector_of(bus, entries[i].text@) == Some(s@),
        row.1.selector is None ==> selector_of(bus, entries[i].text@) is None,
        row.1.name matches Some(n) ==> entries[i].text@ == before(entries[i].text@, ' ') + seq![' ']
            + n@,
        row.1.name is None ==> !entries[i].text@.contains(' '),
        row.1.action is Add ==> row.1.selector is Some,
{
    a_line_names_its_device(bus, entries[i].text@);
    assert(selectors_in(bus, entries)[i] == selector_of(bus, entries[i].text@));
}

/// What is attached after one more bus: its devices, and, for a tree that is watched and
/// listed in full, the mark that tells a device that is missing from one that is not
/// listed.
pub proof fn one_more_bus_is_attached(gs: Seq<Group>, n: int)
    requires
        0 <= n < 8,
        n < gs.len(),
    ensures
        attached_in(gs, 0).len() == 0,
        ({
            let bus = short_name(BUSES@[n].0@);
            let rows = gathered_in(gs[n].nodes, gs[n].nodes@.len());
            let known = attached_in(gs, n);
            attached_in(gs, n + 1) == with_rows(
                if (bus == "usb"@ || bus == "pci"@) && gs[n].watched && gs[n].more == 0 {
                    put(known, bus + ":"@, Seq::empty())
                } else {
                    known
                },
                rows,
                rows.len() as int,
            )
        }),
{
}

/// An item of an expansion is shown by its line, and with how many there are where there
/// is more than one.
pub proof fn an_item_is_shown_with_its_number(row: Row, n: u32)
    ensures
        item_text((row, 1)) == row.text@,
        n != 1 ==> item_text((row, n)) == row.text@ + " x"@ + dec(n as nat),
        capped(n as nat) == n,
        capped(4294967296) == 4294967295,
{
}

} // verus!
