//! The violations panel: what the daemon refused, newest first.
//!
//! The daemon keeps the last 50 in memory and drops them on restart, so the
//! panel says that out loud. An empty table would otherwise read as "nothing
//! has ever happened here" when it only means the daemon was restarted.

use vstd::prelude::*;

use crate::gui::settings::devices::{describe, described, AttachedMap, Instances};
use crate::gui::status::{format_uptime, uptime_text, Violation};
use crate::text::{cat2, cat4, copy_option, same, times};

verus! {

/// What the table is, said where the table would be.
pub const KEPT_IN_MEMORY: &'static str =
    "The daemon keeps the last 50 violations in memory. Nothing is written to disk, and the history is cleared when it restarts.";

/// Said in place of an empty table, so a fresh daemon does not look like a
/// broken panel.
pub const EMPTY: &'static str = "No violations since the daemon started.";

/// One row of the table, ready for the labels.
#[derive(Debug, Clone, PartialEq, Eq)]
pub struct Row {
    /// Absolute local time, and how long ago it was.
    pub when: String,
    pub ago: String,
    pub bus: String,
    /// The device as a person reads it, or empty for an event that names none:
    /// a lid close, a power unplug.
    pub identity: String,
    pub message: String,
    /// The canonical `<bus>:<identity>` selector, when there is a device. Only
    /// a row with one carries the two actions.
    pub selector: Option<String>,
    /// `allow_last` promotes the daemon's most recent violation, so only the
    /// newest row can offer it, and only when it names a device.
    pub can_allow: bool,
}

/// How long ago a stamp was. One in the future reads as now.
pub open spec fn ago_text(at_unix: u64, now_unix: u64) -> Seq<char> {
    if now_unix <= at_unix {
        "just now"@
    } else {
        uptime_text((now_unix - at_unix) as u64) + " ago"@
    }
}

/// The text in an option, `None` where it is missing.
pub open spec fn told(s: Option<String>) -> Option<Seq<char>> {
    match s {
        Some(t) => Some(t@),
        None => None,
    }
}

/// The device column.
pub open spec fn identity_text(
    name: Option<Seq<char>>,
    selector: Option<Seq<char>>,
    attached: Seq<(Seq<char>, Seq<char>)>,
) -> Seq<char> {
    match (name, selector) {
        (Some(n), Some(s)) => if n.len() > 0 {
            n + " ("@ + s + ")"@
        } else {
            described(s, attached) + " ("@ + s + ")"@
        },
        (Some(n), None) => n,
        (None, Some(s)) => described(s, attached) + " ("@ + s + ")"@,
        (None, None) => Seq::empty(),
    }
}

impl Row {
    /// Whether this is the row of the violation at a position.
    pub open spec fn shows(
        self,
        v: Violation,
        i: int,
        when: Seq<char>,
        now_unix: u64,
        attached: Seq<(Seq<char>, Seq<char>)>,
    ) -> bool {
        &&& self.when@ == when
        &&& self.ago@ == ago_text(v.at_unix, now_unix)
        &&& self.bus@ == v.bus@
        &&& self.identity@ == identity_text(told(v.name), told(v.selector), attached)
        &&& self.message@ == v.message@
        &&& told(self.selector) == told(v.selector)
        &&& self.can_allow == (i == 0 && v.selector is Some)
    }
}

/// The device column: the name with its selector behind it, and for a row the
/// daemon named nothing on, the selector with what the devices reply calls it,
/// or a note that it is not attached. Never a bare id on its own, and empty only
/// for an event that identifies nothing.
pub fn identity(name: &Option<String>, selector: &Option<String>, attached: &AttachedMap) -> (r:
    String)
    ensures
        r@ == identity_text(told(*name), told(*selector), attached@),
{
    match selector {
        Some(s) => {
            if let Some(n) = name {
                if !n.as_str().is_empty() {
                    return cat4(n.as_str(), " (", s.as_str(), ")");
                }
            }
            cat4(describe(s.as_str(), attached).as_str(), " (", s.as_str(), ")")
        },
        None => match name {
            Some(n) => n.clone(),
            None => String::new(),
        },
    }
}

/// How long ago, on the scale that matters. A stamp in the future, which is a
/// clock that moved under us, reads as now rather than as a negative age.
pub fn ago(at_unix: u64, now_unix: u64) -> (r: String)
    ensures
        r@ == ago_text(at_unix, now_unix),
{
    if now_unix <= at_unix {
        "just now".to_owned()
    } else {
        cat2(format_uptime(now_unix - at_unix).as_str(), " ago")
    }
}

/// The table as the daemon sent it: newest first, in its order, never sorted
/// here. `whens` is each stamp in local time. `attached` is what the devices
/// reply knows, for the rows the daemon named nothing on.
pub fn rows(
    violations: &[Violation],
    whens: &[String],
    now_unix: u64,
    attached: &AttachedMap,
) -> (r: Vec<Row>)
    requires
        whens@.len() == violations@.len(),
    ensures
        r@.len() == violations@.len(),
        forall|i: int|
            0 <= i < r@.len() ==> (#[trigger] r@[i]).shows(
                violations@[i],
                i,
                whens@[i]@,
                now_unix,
                attached@,
            ),
{
    let mut out: Vec<Row> = Vec::new();
    let mut i: usize = 0;
    while i < violations.len()
        invariant
            i <= violations@.len(),
            whens@.len() == violations@.len(),
            out@.len() == i,
            forall|k: int|
                0 <= k < i ==> (#[trigger] out@[k]).shows(
                    violations@[k],
                    k,
                    whens@[k]@,
                    now_unix,
                    attached@,
                ),
        decreases violations@.len() - i,
    {
        let v = &violations[i];
        let row = Row {
            when: whens[i].clone(),
            ago: ago(v.at_unix, now_unix),
            bus: v.bus.clone(),
            identity: identity(&v.name, &v.selector, attached),
            message: v.message.clone(),
            selector: copy_option(&v.selector),
            can_allow: i == 0 && v.selector.is_some(),
        };
        out.push(row);
        i += 1;
    }
    out
}

/// Whether two violations are the same.
pub open spec fn alike(a: Violation, b: Violation) -> bool {
    &&& a.at_unix == b.at_unix
    &&& a.bus@ == b.bus@
    &&& told(a.selector) == told(b.selector)
    &&& told(a.name) == told(b.name)
    &&& a.message@ == b.message@
}

/// Whether two histories are the same.
pub open spec fn all_alike(a: Seq<Violation>, b: Seq<Violation>) -> bool {
    &&& a.len() == b.len()
    &&& forall|i: int| 0 <= i < a.len() ==> alike(#[trigger] a[i], b[i])
}

fn same_told(a: &Option<String>, b: &Option<String>) -> (r: bool)
    ensures
        r == (told(*a) == told(*b)),
{
    match (a, b) {
        (Some(x), Some(y)) => same(x.as_str(), y.as_str()),
        (None, None) => true,
        _ => false,
    }
}

fn same_history(a: &[Violation], b: &[Violation]) -> (r: bool)
    ensures
        r == all_alike(a@, b@),
{
    if a.len() != b.len() {
        return false;
    }
    let mut i: usize = 0;
    while i < a.len()
        invariant
            i <= a@.len(),
            a@.len() == b@.len(),
            forall|k: int| 0 <= k < i ==> alike(#[trigger] a@[k], b@[k]),
        decreases a@.len() - i,
    {
        let x = &a[i];
        let y = &b[i];
        if x.at_unix != y.at_unix || !same(x.bus.as_str(), y.bus.as_str()) || !same_told(
            &x.selector,
            &y.selector,
        ) || !same_told(&x.name, &y.name) || !same(x.message.as_str(), y.message.as_str()) {
            assert(!alike(a@[i as int], b@[i as int]));
            return false;
        }
        i += 1;
    }
    true
}

/// Whether the table is drawn again: when the history is not the one on screen,
/// and when a device plugged or unplugged changed what the rows can be named.
/// Rebuilding for less would drop a half-made click.
pub fn redraws(renamed: bool, shown: Option<&[Violation]>, violations: &[Violation]) -> (r: bool)
    ensures
        r == (renamed || match shown {
            Some(s) => !all_alike(s@, violations@),
            None => true,
        }),
{
    if renamed {
        return true;
    }
    match shown {
        Some(s) => !same_history(s, violations),
        None => true,
    }
}

/// How many devices a row's whitelist action may raise the entry to: as many as
/// are plugged in, and one for a device that is gone.
pub fn present(instances: &Instances, selector: &str) -> (r: u32)
    ensures
        r == if times(instances@, selector@) == 0 {
            1
        } else {
            crate::gui::settings::devices::capped(times(instances@, selector@))
        },
{
    match instances.get(selector) {
        Some(n) => n,
        None => 1,
    }
}

/// What a row offers beside its text.
#[derive(Debug, Clone, Copy, PartialEq, Eq)]
pub enum Offer {
    /// An event: there is no device to act on.
    Nothing,
    /// The whitelist action and the runtime one.
    Both,
    /// The whitelist action, and a note where the runtime one went: the daemon can
    /// only promote its newest violation.
    Whitelist(&'static str),
}

/// What a row offers. Every row that identifies a device can be whitelisted.
pub fn offer(row: &Row) -> (r: Offer)
    ensures
        r is Nothing <==> row.selector is None && !row.can_allow,
        r is Both <==> row.can_allow,
        match r {
            Offer::Whitelist(why) => why@
                == "runtime allow is only offered on the newest violation"@,
            _ => true,
        },
{
    if row.can_allow {
        Offer::Both
    } else if row.selector.is_some() {
        Offer::Whitelist("runtime allow is only offered on the newest violation")
    } else {
        Offer::Nothing
    }
}

/// Only the newest violation can be allowed, and only where it names a device.
pub proof fn only_the_newest_can_be_allowed(
    row: Row,
    v: Violation,
    i: int,
    when: Seq<char>,
    now_unix: u64,
    attached: Seq<(Seq<char>, Seq<char>)>,
)
    requires
        row.shows(v, i, when, now_unix, attached),
        row.can_allow,
    ensures
        i == 0,
        row.selector is Some,
{
}

/// A row that names a device always says more than its bare selector.
pub proof fn no_row_shows_a_bare_id(
    name: Option<Seq<char>>,
    selector: Seq<char>,
    attached: Seq<(Seq<char>, Seq<char>)>,
)
    ensures
        identity_text(name, Some(selector), attached).len() > selector.len() + 3,
{
    reveal_strlit(" (");
    reveal_strlit(")");
    crate::gui::settings::devices::a_description_is_never_empty(selector, attached);
}

/// A row can be allowed exactly where it is the newest and names a device, and it shows
/// what the violation says.
pub proof fn a_row_shows_its_violation(
    row: Row,
    v: Violation,
    i: int,
    when: Seq<char>,
    now_unix: u64,
    attached: Seq<(Seq<char>, Seq<char>)>,
)
    requires
        row.shows(v, i, when, now_unix, attached),
    ensures
        row.can_allow <==> i == 0 && v.selector is Some,
        row.when@ == when && row.bus@ == v.bus@ && row.message@ == v.message@,
        v.selector matches Some(s) ==> (row.selector matches Some(t) && t@ == s@),
        v.selector is None ==> row.selector is None,
        now_unix <= v.at_unix ==> row.ago@ == "just now"@,
        now_unix > v.at_unix ==> row.ago@ == uptime_text((now_unix - v.at_unix) as u64) + " ago"@,
        v.selector is None && v.name is None ==> row.identity@.len() == 0,
        v.selector is None ==> (v.name matches Some(n) ==> row.identity@ == n@),
        v.selector matches Some(s) ==> row.identity@ == (match v.name {
            Some(n) => if n@.len() > 0 {
                n@
            } else {
                described(s@, attached)
            },
            None => described(s@, attached),
        }) + " ("@ + s@ + ")"@,
{
}

/// Two lists of violations are alike exactly where each row says the same on both.
pub proof fn alike_means_every_field(a: Seq<Violation>, b: Seq<Violation>, i: int)
    requires
        all_alike(a, b),
        0 <= i < a.len(),
    ensures
        a.len() == b.len(),
        a[i].at_unix == b[i].at_unix && a[i].bus@ == b[i].bus@ && a[i].message@ == b[i].message@,
        a[i].selector is Some <==> b[i].selector is Some,
        a[i].name is Some <==> b[i].name is Some,
        a[i].selector matches Some(s) ==> (b[i].selector matches Some(t) && s@ == t@),
        a[i].name matches Some(s) ==> (b[i].name matches Some(t) && s@ == t@),
{
    assert(alike(a[i], b[i]));
}

} // verus!
