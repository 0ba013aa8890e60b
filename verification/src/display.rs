//! External display (HDMI/DisplayPort/eDP) connect/disconnect monitoring.
//!
//! A `DisplaySnapshot` holds every watched connector and, when connected, the
//! monitor identity read from its EDID. Any change between snapshots while
//! armed is the violation, which covers both a laptop yanked from a
//! dock/projector (disconnect) and a rogue capture device attached (connect or
//! identity swap on the same port).
//!
//! Where the platform lists connectors, the caller hands over what it found.
//! Where it reports only that the topology changed, the snapshot carries that
//! platform's event counter, and the ignore list has no effect because the
//! event does not name the connector.

use vstd::prelude::*;

use crate::edid::EdidId;
use crate::order::{sort_by_name, sorted_from, under, Named};
use crate::text::{
    begins, before, after, cat2, cat3, cat5, chars, contains_str, holds, is_masked, masked, same,
    split_once, starts_with, text, trim, trimmed,
};

verus! {

/// One connector and what is attached to it.
#[derive(Debug, PartialEq, Eq)]
pub struct DisplayConnector {
    /// Connector name as the kernel reports it, for example "DP-6".
    pub connector: String,
    pub connected: bool,
    /// Monitor identity, when the EDID could be read and parsed.
    pub edid: Option<EdidId>,
}

impl Named for DisplayConnector {
    open spec fn key(&self) -> Seq<char> {
        self.connector@
    }

    fn name(&self) -> (r: &str) {
        self.connector.as_str()
    }
}

impl Clone for DisplayConnector {
    fn clone(&self) -> (r: Self)
        ensures
            r == *self,
    {
        DisplayConnector {
            connector: self.connector.clone(),
            connected: self.connected,
            edid: copy_edid(&self.edid),
        }
    }
}

/// Every watched connector, sorted by name so comparison is order independent.
/// On a platform that reports only that the topology changed, with no per
/// connector data, `opaque_generation` carries that platform's event counter
/// and the connector list is empty.
#[derive(Debug, PartialEq, Eq)]
pub struct DisplaySnapshot {
    pub connectors: Vec<DisplayConnector>,
    pub opaque_generation: Option<u64>,
}

impl Default for DisplaySnapshot {
    fn default() -> (r: DisplaySnapshot)
        ensures
            r.connectors@.len() == 0,
            r.opaque_generation is None,
    {
        DisplaySnapshot { connectors: Vec::new(), opaque_generation: None }
    }
}

/// What moved between two snapshots.
#[derive(Debug, PartialEq, Eq)]
pub enum DisplayChange {
    /// A connector the baseline did not have.
    Appeared(String),
    /// A connector the baseline had and this snapshot does not.
    Disappeared(String),
    Connected(String),
    Disconnected(String),
    /// Same connector, still connected, different monitor.
    Replaced { connector: String, now: Option<EdidId> },
    /// Topology changed, but the platform reports only that change happened,
    /// not which connector moved or which monitor is attached.
    TopologyChanged,
}

impl DisplayChange {
    /// The change in words.
    pub open spec fn words(self) -> Seq<char> {
        match self {
            DisplayChange::Appeared(c) => c@ + " appeared"@,
            DisplayChange::Disappeared(c) => c@ + " disappeared"@,
            DisplayChange::Connected(c) => c@ + " connected"@,
            DisplayChange::Disconnected(c) => c@ + " disconnected"@,
            DisplayChange::Replaced { connector, now } => match now {
                Some(id) => if id.name@.len() > 0 {
                    connector@ + " now "@ + id@.text() + " ("@ + id.name@ + ")"@
                } else {
                    connector@ + " now "@ + id@.text()
                },
                None => connector@ + " now an unidentified monitor"@,
            },
            DisplayChange::TopologyChanged => "display topology changed"@,
        }
    }

    /// The change in words.
    pub fn message(&self) -> (r: String)
        ensures
            r@ == self.words(),
    {
        match self {
            DisplayChange::Appeared(c) => cat2(c.as_str(), " appeared"),
            DisplayChange::Disappeared(c) => cat2(c.as_str(), " disappeared"),
            DisplayChange::Connected(c) => cat2(c.as_str(), " connected"),
            DisplayChange::Disconnected(c) => cat2(c.as_str(), " disconnected"),
            DisplayChange::Replaced { connector, now } => match now {
                Some(id) => {
                    let selector = id.selector();
                    if !id.name.as_str().is_empty() {
                        let mut out = cat5(
                            connector.as_str(),
                            " now ",
                            selector.as_str(),
                            " (",
                            id.name.as_str(),
                        );
                        out.push_str(")");
                        out
                    } else {
                        cat3(connector.as_str(), " now ", selector.as_str())
                    }
                },
                None => cat2(connector.as_str(), " now an unidentified monitor"),
            },
            DisplayChange::TopologyChanged => "display topology changed".to_owned(),
        }
    }
}

/// A copy of a monitor identity that may be missing.
fn copy_edid(id: &Option<EdidId>) -> (r: Option<EdidId>)
    ensures
        r == *id,
{
    match id {
        Some(id) => Some(id.clone()),
        None => None,
    }
}

/// Whether two connectors report the same monitor, or both none.
pub open spec fn same_monitor(a: Option<EdidId>, b: Option<EdidId>) -> bool {
    match (a, b) {
        (Some(x), Some(y)) => x@ == y@,
        (None, None) => true,
        _ => false,
    }
}

/// Whether two connectors report the same monitor, or both none.
fn monitors_agree(a: &Option<EdidId>, b: &Option<EdidId>) -> (r: bool)
    ensures
        r == same_monitor(*a, *b),
{
    match (a, b) {
        (Some(x), Some(y)) => *x == *y,
        (None, None) => true,
        _ => false,
    }
}

/// The first connector of a name at or after position `i`.
pub open spec fn named(s: Seq<DisplayConnector>, name: Seq<char>, i: int) -> Option<
    DisplayConnector,
>
    decreases s.len() - i,
{
    if i >= s.len() || i < 0 {
        None
    } else if s[i].connector@ == name {
        Some(s[i])
    } else {
        named(s, name, i + 1)
    }
}

/// Whether two connectors show the same: the same name in the same state, with the
/// same monitor while connected. Identity only means anything while something is
/// attached.
pub open spec fn alike(a: DisplayConnector, b: DisplayConnector) -> bool {
    &&& a.connector@ == b.connector@
    &&& a.connected == b.connected
    &&& a.connected ==> same_monitor(a.edid, b.edid)
}

/// How many of the first `n` connectors show the same as one.
pub open spec fn alike_in(s: Seq<DisplayConnector>, c: DisplayConnector, n: int) -> nat
    decreases n,
{
    if n <= 0 {
        0
    } else {
        alike_in(s, c, n - 1) + if alike(s[n - 1], c) {
            1nat
        } else {
            0
        }
    }
}

/// Whether the connector at position `i` has one like it on the other side that no
/// connector before it took. Two cards can expose one name, so a name may stand on a
/// side more than once.
pub open spec fn has_match(
    s: Seq<DisplayConnector>,
    i: int,
    other: Seq<DisplayConnector>,
) -> bool {
    alike_in(s, s[i], i) < alike_in(other, s[i], other.len() as int)
}

/// The first connector of a name, at or after position `j` of the baseline, that has
/// no match in a snapshot.
pub open spec fn left_over(
    baseline: Seq<DisplayConnector>,
    s: Seq<DisplayConnector>,
    name: Seq<char>,
    j: int,
) -> Option<DisplayConnector>
    decreases baseline.len() - j,
{
    if j >= baseline.len() || j < 0 {
        None
    } else if baseline[j].connector@ == name && !has_match(baseline, j, s) {
        Some(baseline[j])
    } else {
        left_over(baseline, s, name, j + 1)
    }
}

/// How a connector changed from what it was, `None` where it was not there.
pub open spec fn turned(c: DisplayConnector, was: Option<DisplayConnector>) -> DisplayChange {
    match was {
        None => DisplayChange::Appeared(c.connector),
        Some(was) => if c.connected != was.connected {
            if c.connected {
                DisplayChange::Connected(c.connector)
            } else {
                DisplayChange::Disconnected(c.connector)
            }
        } else {
            DisplayChange::Replaced { connector: c.connector, now: c.edid }
        },
    }
}

/// The first change on a connector at or after position `i`: one without a match,
/// held against what the baseline has left over of its name.
pub open spec fn changed_from(
    s: Seq<DisplayConnector>,
    baseline: Seq<DisplayConnector>,
    i: int,
) -> Option<DisplayChange>
    decreases s.len() - i,
{
    if i >= s.len() || i < 0 {
        None
    } else if !has_match(s, i, baseline) {
        Some(turned(s[i], left_over(baseline, s, s[i].connector@, 0)))
    } else {
        changed_from(s, baseline, i + 1)
    }
}

/// The first baseline connector at or after position `i` that is gone.
pub open spec fn gone_from(
    s: Seq<DisplayConnector>,
    baseline: Seq<DisplayConnector>,
    i: int,
) -> Option<DisplayChange>
    decreases baseline.len() - i,
{
    if i >= baseline.len() || i < 0 {
        None
    } else if !has_match(baseline, i, s) {
        Some(DisplayChange::Disappeared(baseline[i].connector))
    } else {
        gone_from(s, baseline, i + 1)
    }
}

fn count_alike(s: &[DisplayConnector], c: &DisplayConnector, n: usize) -> (r: usize)
    requires
        n <= s@.len(),
    ensures
        r == alike_in(s@, *c, n as int),
{
    let mut count: usize = 0;
    let mut i: usize = 0;
    while i < n
        invariant
            i <= n <= s@.len(),
            count == alike_in(s@, *c, i as int),
            count <= i,
        decreases n - i,
    {
        let x = &s[i];
        if same(x.connector.as_str(), c.connector.as_str()) && x.connected == c.connected && (
        !x.connected || monitors_agree(&x.edid, &c.edid)) {
            count += 1;
        }
        i += 1;
    }
    count
}

fn is_matched(s: &[DisplayConnector], i: usize, other: &[DisplayConnector]) -> (r: bool)
    requires
        i < s@.len(),
    ensures
        r == has_match(s@, i as int, other@),
{
    count_alike(s, &s[i], i) < count_alike(other, &s[i], other.len())
}

fn find_left_over<'a>(
    baseline: &'a [DisplayConnector],
    s: &[DisplayConnector],
    name: &str,
) -> (r: Option<&'a DisplayConnector>)
    ensures
        match r {
            Some(c) => left_over(baseline@, s@, name@, 0) == Some(*c),
            None => left_over(baseline@, s@, name@, 0) is None,
        },
{
    let mut j: usize = 0;
    while j < baseline.len()
        invariant
            j <= baseline@.len(),
            left_over(baseline@, s@, name@, 0) == left_over(baseline@, s@, name@, j as int),
        decreases baseline@.len() - j,
    {
        if same(baseline[j].connector.as_str(), name) && !is_matched(baseline, j, s) {
            return Some(&baseline[j]);
        }
        j += 1;
    }
    None
}

impl DisplaySnapshot {
    /// The first difference against a baseline.
    pub open spec fn change(self, baseline: DisplaySnapshot) -> Option<DisplayChange> {
        if self.opaque_generation != baseline.opaque_generation {
            Some(DisplayChange::TopologyChanged)
        } else if changed_from(self.connectors@, baseline.connectors@, 0) is Some {
            changed_from(self.connectors@, baseline.connectors@, 0)
        } else {
            gone_from(self.connectors@, baseline.connectors@, 0)
        }
    }

    /// Build a snapshot, sorting so that enumeration order cannot show up as a
    /// change.
    pub fn from_connectors(connectors: Vec<DisplayConnector>) -> (r: DisplaySnapshot)
        ensures
            sorted_from(r.connectors@, connectors@),
            r.opaque_generation is None,
    {
        DisplaySnapshot { connectors: sort_by_name(connectors), opaque_generation: None }
    }

    /// The connector of a name.
    pub fn get(&self, connector: &str) -> (r: Option<&DisplayConnector>)
        ensures
            match r {
                Some(c) => named(self.connectors@, connector@, 0) == Some(*c),
                None => named(self.connectors@, connector@, 0) is None,
            },
    {
        let mut i: usize = 0;
        while i < self.connectors.len()
            invariant
                i <= self.connectors@.len(),
                named(self.connectors@, connector@, 0) == named(
                    self.connectors@,
                    connector@,
                    i as int,
                ),
            decreases self.connectors@.len() - i,
        {
            if same(self.connectors[i].connector.as_str(), connector) {
                return Some(&self.connectors[i]);
            }
            i += 1;
        }
        None
    }

    /// First difference against `baseline`, or `None` when they agree: when every
    /// connector of either side has a match on the other.
    pub fn detect_changes(&self, baseline: &DisplaySnapshot) -> (r: Option<DisplayChange>)
        ensures
            r == self.change(*baseline),
    {
        if self.opaque_generation != baseline.opaque_generation {
            return Some(DisplayChange::TopologyChanged);
        }
        let mut i: usize = 0;
        while i < self.connectors.len()
            invariant
                i <= self.connectors@.len(),
                self.opaque_generation == baseline.opaque_generation,
                changed_from(self.connectors@, baseline.connectors@, 0) == changed_from(
                    self.connectors@,
                    baseline.connectors@,
                    i as int,
                ),
            decreases self.connectors@.len() - i,
        {
            if !is_matched(self.connectors.as_slice(), i, baseline.connectors.as_slice()) {
                let c = &self.connectors[i];
                let was = find_left_over(
                    baseline.connectors.as_slice(),
                    self.connectors.as_slice(),
                    c.connector.as_str(),
                );
                return Some(
                    match was {
                        None => DisplayChange::Appeared(c.connector.clone()),
                        Some(was) => if c.connected != was.connected {
                            if c.connected {
                                DisplayChange::Connected(c.connector.clone())
                            } else {
                                DisplayChange::Disconnected(c.connector.clone())
                            }
                        } else {
                            DisplayChange::Replaced {
                                connector: c.connector.clone(),
                                now: copy_edid(&c.edid),
                            }
                        },
                    },
                );
            }
            i += 1;
        }
        let mut j: usize = 0;
        while j < baseline.connectors.len()
            invariant
                j <= baseline.connectors@.len(),
                self.opaque_generation == baseline.opaque_generation,
                changed_from(self.connectors@, baseline.connectors@, 0) is None,
                gone_from(self.connectors@, baseline.connectors@, 0) == gone_from(
                    self.connectors@,
                    baseline.connectors@,
                    j as int,
                ),
            decreases baseline.connectors@.len() - j,
        {
            if !is_matched(baseline.connectors.as_slice(), j, self.connectors.as_slice()) {
                return Some(DisplayChange::Disappeared(baseline.connectors[j].connector.clone()));
            }
            j += 1;
        }
        None
    }
}

/// Names with each run of equal neighbours written once.
pub open spec fn once_each(s: Seq<DisplayConnector>) -> Seq<String>
    decreases s.len(),
{
    if s.len() == 0 {
        Seq::empty()
    } else {
        let front = once_each(s.drop_last());
        let name = s.last().connector;
        if front.len() > 0 && front.last()@ == name@ {
            front
        } else {
            front.push(name)
        }
    }
}

/// The names of the connectors in a snapshot, for clients that only want the
/// list. Two cards can expose the same connector name, and the name is all
/// this returns, so a shared name appears once.
pub fn connector_names(snapshot: &DisplaySnapshot) -> (r: Vec<String>)
    ensures
        r@ == once_each(snapshot.connectors@),
{
    let mut names: Vec<String> = Vec::new();
    let ghost all = snapshot.connectors@;
    let mut i: usize = 0;
    assert(all.take(0) =~= Seq::<DisplayConnector>::empty());
    while i < snapshot.connectors.len()
        invariant
            i <= all.len(),
            all == snapshot.connectors@,
            names@ == once_each(all.take(i as int)),
        decreases all.len() - i,
    {
        assert(all.take(i + 1).drop_last() =~= all.take(i as int));
        let name = &snapshot.connectors[i].connector;
        if names.len() == 0 || !same(names[names.len() - 1].as_str(), name.as_str()) {
            names.push(name.clone());
        }
        i += 1;
    }
    assert(all.take(i as int) =~= all);
    names
}

/// The names of the connectors that display monitoring covers.
pub fn watched_connectors(
    found: Vec<(String, bool, Option<EdidId>)>,
    ignore: &[String],
) -> (r: Vec<String>)
    ensures
        exists|c: Seq<DisplayConnector>|
            sorted_from(c, not_ignored(found@, ignore@)) && r@ == #[trigger] once_each(c),
{
    let snapshot = build_snapshot(found, ignore);
    connector_names(&snapshot)
}

/// A connector is ignored if its name contains any non-empty ignore token,
/// e.g. `eDP` masks the internal panel.
pub fn is_ignored(connector: &str, ignore: &[String]) -> (r: bool)
    ensures
        r == masked(connector@, ignore@),
{
    is_masked(connector, ignore)
}

/// Whether a directory is a connector's: `card`, anything, a dash, a name.
pub open spec fn is_connector_dir(dir: Seq<char>) -> bool {
    dir.contains('-') && begins(before(dir, '-'), "card"@) && after(dir, '-').len() > 0
}

/// Connector directories are named `card<N>-<CONNECTOR>`, for example
/// `card0-DP-6`. Everything else under /sys/class/drm (`card0`, `renderD128`,
/// `version`) is not a connector.
pub fn connector_name(dir: &str) -> (r: Option<String>)
    ensures
        match r {
            Some(name) => is_connector_dir(dir@) && name@ == after(dir@, '-'),
            None => !is_connector_dir(dir@),
        },
{
    let dir = chars(dir);
    match split_once(dir.as_slice(), '-') {
        None => None,
        Some((card, conn)) => {
            if !starts_with(card, "card") || conn.len() == 0 {
                None
            } else {
                Some(text(conn))
            }
        },
    }
}

/// One directory under the class of display connectors, as it was read.
#[derive(Debug, PartialEq, Eq)]
pub struct DrmEntry {
    /// The directory's name.
    pub dir: String,
    /// The text of its `status` file, when that could be read.
    pub status: Option<String>,
    /// The first bytes of its `edid` file, when those could be read.
    pub edid: Option<Vec<u8>>,
}

/// What a connector directory says: connected exactly when the status file
/// says so, and then a monitor where the EDID is one.
pub open spec fn found_in(e: DrmEntry, c: (String, bool, Option<EdidId>)) -> bool {
    &&& c.0@ == after(e.dir@, '-')
    &&& c.1 == (e.status matches Some(s) && trimmed(s@) == "connected"@)
    &&& match c.2 {
        Some(id) => c.1 && (e.edid matches Some(b) && crate::edid::is_edid(b@) && id@
            == crate::edid::identity(b@) && id.name@ == crate::edid::name_from(b@, 54)),
        None => c.1 ==> !(e.edid matches Some(b) && crate::edid::is_edid(b@)),
    }
}

/// The entries that are connectors.
pub open spec fn connectors_in(entries: Seq<DrmEntry>) -> Seq<DrmEntry> {
    entries.filter(|e: DrmEntry| is_connector_dir(e.dir@))
}

/// Read the connectors out of what the directory walk found, in its order.
pub fn find_connectors(entries: &[DrmEntry]) -> (r: Vec<(String, bool, Option<EdidId>)>)
    ensures
        r@.len() == connectors_in(entries@).len(),
        forall|i: int| 0 <= i < r@.len() ==> found_in(connectors_in(entries@)[i], #[trigger] r@[i]),
{
    let mut found: Vec<(String, bool, Option<EdidId>)> = Vec::new();
    let mut i: usize = 0;
    proof {
        reveal(Seq::filter);
        assert(entries@.take(0) =~= Seq::<DrmEntry>::empty());
    }
    while i < entries.len()
        invariant
            i <= entries@.len(),
            found@.len() == connectors_in(entries@.take(i as int)).len(),
            forall|k: int|
                0 <= k < found@.len() ==> found_in(
                    connectors_in(entries@.take(i as int))[k],
                    #[trigger] found@[k],
                ),
        decreases entries@.len() - i,
    {
        let e = &entries[i];
        proof {
            reveal(Seq::filter);
            assert(entries@.take(i + 1).drop_last() =~= entries@.take(i as int));
        }
        if let Some(name) = connector_name(e.dir.as_str()) {
            let connected = match &e.status {
                Some(s) => {
                    let s = chars(s.as_str());
                    crate::text::is(trim(s.as_slice()), "connected")
                },
                None => false,
            };
            let edid: Option<EdidId> = if connected {
                match &e.edid {
                    Some(b) => crate::edid::parse(b.as_slice()),
                    None => None,
                }
            } else {
                None
            };
            found.push((name, connected, edid));
        }
        i += 1;
    }
    assert(entries@.take(i as int) =~= entries@);
    found
}

/// The connectors that no ignore token masks.
pub open spec fn not_ignored(
    found: Seq<(String, bool, Option<EdidId>)>,
    ignore: Seq<String>,
) -> Seq<DisplayConnector> {
    found.filter(|f: (String, bool, Option<EdidId>)| !masked(f.0@, ignore)).map_values(
        |f: (String, bool, Option<EdidId>)|
            DisplayConnector { connector: f.0, connected: f.1, edid: f.2 },
    )
}

/// Apply the ignore list and sort.
pub fn build_snapshot(
    found: Vec<(String, bool, Option<EdidId>)>,
    ignore: &[String],
) -> (r: DisplaySnapshot)
    ensures
        sorted_from(r.connectors@, not_ignored(found@, ignore@)),
        r.opaque_generation is None,
{
    let ghost all = found@;
    let mut kept: Vec<DisplayConnector> = Vec::new();
    proof {
        reveal(Seq::filter);
        assert(all.take(0) =~= Seq::<(String, bool, Option<EdidId>)>::empty());
        assert(not_ignored(all.take(0), ignore@) =~= Seq::<DisplayConnector>::empty());
    }
    for f in it: found
        invariant
            it.seq() == all,
            kept@ == not_ignored(all.take(it.index() as int), ignore@),
    {
        proof {
            reveal(Seq::filter);
            assert(all.take(it.index() + 1).drop_last() =~= all.take(it.index() as int));
        }
        let ghost sofar = kept@;
        let (connector, connected, edid) = f;
        if !is_ignored(connector.as_str(), ignore) {
            kept.push(DisplayConnector { connector, connected, edid });
        }
        assert(kept@ =~= not_ignored(all.take(it.index() + 1), ignore@));
    }
    assert(all.take(all.len() as int) =~= all);
    DisplaySnapshot::from_connectors(kept)
}

/// A snapshot of every watched connector and what is attached to it, from what
/// the platform reports: the directories it lists, or, where it lists none, how
/// many hotplug events it has counted, or nothing at all.
pub fn display_snapshot(
    entries: Option<&[DrmEntry]>,
    events: Option<u64>,
    ignore: &[String],
) -> (r: DisplaySnapshot)
    ensures
        entries matches Some(e) ==> r.opaque_generation is None && exists|
            f: Seq<(String, bool, Option<EdidId>)>,
        |
            {
                &&& f.len() == connectors_in(e@).len()
                &&& forall|i: int|
                    0 <= i < f.len() ==> found_in(connectors_in(e@)[i], #[trigger] f[i])
                &&& sorted_from(r.connectors@, #[trigger] not_ignored(f, ignore@))
            },
        entries is None ==> r.connectors@.len() == 0 && r.opaque_generation == events,
{
    match entries {
        Some(e) => {
            let found = find_connectors(e);
            let ghost f = found@;
            let r = build_snapshot(found, ignore);
            assert(sorted_from(r.connectors@, not_ignored(f, ignore@)));
            r
        },
        None => DisplaySnapshot { connectors: Vec::new(), opaque_generation: events },
    }
}

/// Whether a devd line tells of a connector.
pub open spec fn is_hotplug(line: Seq<char>) -> bool {
    holds(line, "system=DRM"@) && holds(line, "subsystem=CONNECTOR"@)
}

/// A devd line is a DRM connector hotplug if it names the DRM system and the
/// CONNECTOR subsystem.
pub fn is_drm_connector_event(line: &str) -> (r: bool)
    ensures
        r == (holds(line@, "system=DRM"@) && holds(line@, "subsystem=CONNECTOR"@)),
        r == is_hotplug(line@),
{
    contains_str(line, "system=DRM") && contains_str(line, "subsystem=CONNECTOR")
}

// ---- what holds of changes -----------------------------------------------

/// A connector that is listed is found by its name.
proof fn named_finds(s: Seq<DisplayConnector>, name: Seq<char>, i: int, at: int)
    requires
        0 <= i <= at < s.len(),
        s[at].connector@ == name,
    ensures
        named(s, name, i) is Some,
    decreases s.len() - i,
{
    if s[i].connector@ != name {
        named_finds(s, name, i + 1, at);
    }
}

/// What is found by a name is listed under it.
proof fn named_is_listed(s: Seq<DisplayConnector>, name: Seq<char>, i: int) -> (at: int)
    requires
        0 <= i,
        named(s, name, i) is Some,
    ensures
        i <= at < s.len(),
        s[at] == named(s, name, i)->0,
        s[at].connector@ == name,
    decreases s.len() - i,
{
    if s[i].connector@ == name {
        i
    } else {
        named_is_listed(s, name, i + 1)
    }
}

/// No connector name is listed twice.
pub open spec fn one_per_name(s: Seq<DisplayConnector>) -> bool {
    forall|i: int, j: int|
        0 <= i < j < s.len() ==> (#[trigger] s[i]).connector@ != (#[trigger] s[j]).connector@
}

proof fn count_of_alikes(
    s: Seq<DisplayConnector>,
    a: DisplayConnector,
    b: DisplayConnector,
    n: int,
)
    requires
        alike(a, b),
        n <= s.len(),
    ensures
        alike_in(s, a, n) == alike_in(s, b, n),
    decreases n,
{
    if n > 0 {
        count_of_alikes(s, a, b, n - 1);
    }
}

proof fn count_grows(s: Seq<DisplayConnector>, c: DisplayConnector, m: int, n: int)
    requires
        0 <= m <= n,
    ensures
        alike_in(s, c, m) <= alike_in(s, c, n),
    decreases n - m,
{
    if m < n {
        count_grows(s, c, m, n - 1);
    }
}

/// Whether two sides list the same connectors: of everything a connector can show,
/// equally many.
pub open spec fn same_connectors(s: Seq<DisplayConnector>, t: Seq<DisplayConnector>) -> bool {
    forall|c: DisplayConnector| #[trigger]
        alike_in(s, c, s.len() as int) == alike_in(t, c, t.len() as int)
}

/// Where every connector has a match, the other side has at least as many like each.
proof fn matched_are_fewer(
    s: Seq<DisplayConnector>,
    other: Seq<DisplayConnector>,
    c: DisplayConnector,
    n: int,
)
    requires
        0 <= n <= s.len(),
        forall|i: int| 0 <= i < s.len() ==> #[trigger] has_match(s, i, other),
    ensures
        alike_in(s, c, n) <= alike_in(other, c, other.len() as int),
    decreases n,
{
    if n > 0 {
        matched_are_fewer(s, other, c, n - 1);
        if alike(s[n - 1], c) {
            assert(has_match(s, n - 1, other));
            count_of_alikes(s, s[n - 1], c, n - 1);
            count_of_alikes(other, s[n - 1], c, other.len() as int);
        }
    }
}

/// Where the other side has at least as many like each, every connector has a match.
proof fn fewer_are_matched(s: Seq<DisplayConnector>, other: Seq<DisplayConnector>, i: int)
    requires
        0 <= i < s.len(),
        alike_in(s, s[i], s.len() as int) <= alike_in(other, s[i], other.len() as int),
    ensures
        has_match(s, i, other),
{
    count_grows(s, s[i], i + 1, s.len() as int);
}

proof fn unchanged_until(s: Seq<DisplayConnector>, b: Seq<DisplayConnector>, i: int)
    requires
        0 <= i,
    ensures
        changed_from(s, b, i) is None <==> forall|k: int|
            i <= k < s.len() ==> #[trigger] has_match(s, k, b),
    decreases s.len() - i,
{
    if i < s.len() {
        unchanged_until(s, b, i + 1);
    }
}

proof fn none_gone_until(s: Seq<DisplayConnector>, b: Seq<DisplayConnector>, i: int)
    requires
        0 <= i,
    ensures
        gone_from(s, b, i) is None <==> forall|k: int|
            i <= k < b.len() ==> #[trigger] has_match(b, k, s),
    decreases b.len() - i,
{
    if i < b.len() {
        none_gone_until(s, b, i + 1);
    }
}

/// No change means that both sides list the same connectors, in the same state and
/// with the same monitor while connected, and that no event was counted between them.
pub proof fn no_change_means_the_same(s: DisplaySnapshot, baseline: DisplaySnapshot)
    ensures
        s.change(baseline) is None <==> s.opaque_generation == baseline.opaque_generation
            && same_connectors(s.connectors@, baseline.connectors@),
{
    let c = s.connectors@;
    let b = baseline.connectors@;
    unchanged_until(c, b, 0);
    none_gone_until(c, b, 0);
    if s.change(baseline) is None {
        assert forall|x: DisplayConnector| #[trigger]
            alike_in(c, x, c.len() as int) == alike_in(b, x, b.len() as int) by {
            matched_are_fewer(c, b, x, c.len() as int);
            matched_are_fewer(b, c, x, b.len() as int);
        }
    }
    if same_connectors(c, b) {
        assert forall|i: int| 0 <= i < c.len() implies #[trigger] has_match(c, i, b) by {
            assert(alike_in(c, c[i], c.len() as int) == alike_in(b, c[i], b.len() as int));
            fewer_are_matched(c, b, i);
        }
        assert forall|j: int| 0 <= j < b.len() implies #[trigger] has_match(b, j, c) by {
            assert(alike_in(c, b[j], c.len() as int) == alike_in(b, b[j], b.len() as int));
            fewer_are_matched(b, c, j);
        }
    }
}

/// A snapshot agrees with itself, also where it lists a name more than once.
pub proof fn nothing_changed_against_itself(s: DisplaySnapshot)
    ensures
        s.change(s) is None,
{
    no_change_means_the_same(s, s);
}

/// How many show the same as one, by the connectors of its name alone.
proof fn alikes_share_a_name(s: Seq<DisplayConnector>, c: DisplayConnector)
    ensures
        alike_in(s, c, s.len() as int) == alike_in(
            under(s, c.key()),
            c,
            under(s, c.key()).len() as int,
        ),
    decreases s.len(),
{
    reveal(Seq::filter);
    if s.len() > 0 {
        let front = s.drop_last();
        let u = under(s, c.key());
        alikes_share_a_name(front, c);
        count_of_a_part(s, front, c, front.len() as int);
        if s.last().key() == c.key() {
            assert(u.drop_last() =~= under(front, c.key()));
            count_of_a_part(u, under(front, c.key()), c, u.len() - 1);
        }
    }
}

/// Sequences that begin alike count alike.
proof fn count_of_a_part(
    s: Seq<DisplayConnector>,
    t: Seq<DisplayConnector>,
    c: DisplayConnector,
    n: int,
)
    requires
        n <= s.len(),
        n <= t.len(),
        forall|i: int| 0 <= i < n ==> s[i] == t[i],
    ensures
        alike_in(s, c, n) == alike_in(t, c, n),
    decreases n,
{
    if n > 0 {
        count_of_a_part(s, t, c, n - 1);
    }
}

/// The count does not depend on the order.
proof fn count_of_a_multiset(s: Seq<DisplayConnector>, c: DisplayConnector)
    ensures
        alike_in(s, c, s.len() as int) == s.to_multiset().filter(
            |x: DisplayConnector| alike(x, c),
        ).len(),
    decreases s.len(),
{
    broadcast use vstd::multiset::group_multiset_axioms;
    broadcast use vstd::seq_lib::group_to_multiset_ensures;

    let p = |x: DisplayConnector| alike(x, c);
    if s.len() == 0 {
        assert(s.to_multiset().filter(p) =~= vstd::multiset::Multiset::empty());
    } else {
        let front = s.drop_last();
        let last = s.last();
        count_of_a_multiset(front, c);
        count_of_a_part(s, front, c, front.len() as int);
        assert(s =~= front.push(last));
        assert(s.to_multiset() =~= front.to_multiset().insert(last));
        if p(last) {
            assert(s.to_multiset().filter(p) =~= front.to_multiset().filter(p).insert(last));
        } else {
            assert(s.to_multiset().filter(p) =~= front.to_multiset().filter(p));
        }
    }
}

/// The order in which connectors are enumerated is no change: two walks that find the
/// same connectors give snapshots that agree, whatever names are shared.
pub proof fn enumeration_order_is_no_change(
    now: DisplaySnapshot,
    baseline: DisplaySnapshot,
    found: Seq<DisplayConnector>,
    found_before: Seq<DisplayConnector>,
)
    requires
        sorted_from(now.connectors@, found),
        sorted_from(baseline.connectors@, found_before),
        now.opaque_generation == baseline.opaque_generation,
        found.to_multiset() == found_before.to_multiset(),
    ensures
        now.change(baseline) is None,
{
    let c = now.connectors@;
    let b = baseline.connectors@;
    assert forall|x: DisplayConnector| #[trigger]
        alike_in(c, x, c.len() as int) == alike_in(b, x, b.len() as int) by {
        alikes_share_a_name(c, x);
        alikes_share_a_name(found, x);
        assert(under(c, x.key()) == under(found, x.key()));
        alikes_share_a_name(b, x);
        alikes_share_a_name(found_before, x);
        assert(under(b, x.key()) == under(found_before, x.key()));
        count_of_a_multiset(found, x);
        count_of_a_multiset(found_before, x);
    }
    no_change_means_the_same(now, baseline);
}

/// What a baseline has left over of a name is listed there under it, without a match.
proof fn left_over_is_listed(
    b: Seq<DisplayConnector>,
    s: Seq<DisplayConnector>,
    name: Seq<char>,
    j: int,
) -> (at: int)
    requires
        0 <= j,
        left_over(b, s, name, j) is Some,
    ensures
        j <= at < b.len(),
        b[at] == left_over(b, s, name, j)->0,
        b[at].connector@ == name,
        !has_match(b, at, s),
    decreases b.len() - j,
{
    if b[j].connector@ == name && !has_match(b, j, s) {
        j
    } else {
        left_over_is_listed(b, s, name, j + 1)
    }
}

/// Something is left over of a name under which a connector without a match is listed.
proof fn left_over_finds(
    b: Seq<DisplayConnector>,
    s: Seq<DisplayConnector>,
    name: Seq<char>,
    j: int,
    at: int,
)
    requires
        0 <= j <= at < b.len(),
        b[at].connector@ == name,
        !has_match(b, at, s),
    ensures
        left_over(b, s, name, j) is Some,
    decreases b.len() - j,
{
    if !(b[j].connector@ == name && !has_match(b, j, s)) {
        left_over_finds(b, s, name, j + 1, at);
    }
}

/// A monitor is reported as replaced only where one is attached, and another than
/// before.
pub proof fn a_replacement_is_another_monitor(
    s: Seq<DisplayConnector>,
    baseline: Seq<DisplayConnector>,
    i: int,
)
    requires
        0 <= i < s.len(),
        !has_match(s, i, baseline),
        turned(s[i], left_over(baseline, s, s[i].connector@, 0)) is Replaced,
    ensures
        left_over(baseline, s, s[i].connector@, 0) matches Some(was) && was.connected
            && s[i].connected && !same_monitor(s[i].edid, was.edid),
{
    let at = left_over_is_listed(baseline, s, s[i].connector@, 0);
    let (c, was) = (s[i], baseline[at]);
    if alike(c, was) {
        count_of_alikes(s, c, was, i);
        count_of_alikes(s, c, was, s.len() as int);
        count_of_alikes(baseline, c, was, baseline.len() as int);
        count_of_alikes(baseline, c, was, at);
        count_grows(s, c, i + 1, s.len() as int);
        count_grows(baseline, was, at + 1, baseline.len() as int);
    }
}

/// Of a list without a name twice, at most one connector shows the same as another.
proof fn one_alike(s: Seq<DisplayConnector>, c: DisplayConnector, n: int)
    requires
        one_per_name(s),
        0 <= n <= s.len(),
    ensures
        alike_in(s, c, n) == if exists|k: int| 0 <= k < n && alike(#[trigger] s[k], c) {
            1nat
        } else {
            0
        },
    decreases n,
{
    if n > 0 {
        one_alike(s, c, n - 1);
        if alike(s[n - 1], c) {
            assert forall|k: int| 0 <= k < n - 1 implies !alike(#[trigger] s[k], c) by {
                assert(s[k].connector@ != s[n - 1].connector@);
            }
        }
    }
}

/// Where no name is listed twice, a connector is held against the one of its name: it
/// changed where there is none, or where that one shows something else.
pub proof fn a_name_listed_once_is_held_against_its_own(
    s: Seq<DisplayConnector>,
    baseline: Seq<DisplayConnector>,
    i: int,
)
    requires
        one_per_name(s),
        one_per_name(baseline),
        0 <= i < s.len(),
    ensures
        has_match(s, i, baseline) <==> (named(baseline, s[i].connector@, 0) matches Some(was)
            && alike(was, s[i])),
        !has_match(s, i, baseline) ==> left_over(baseline, s, s[i].connector@, 0) == named(
            baseline,
            s[i].connector@,
            0,
        ),
{
    let c = s[i];
    let n = baseline.len() as int;
    one_alike(s, c, i);
    one_alike(baseline, c, n);
    assert forall|k: int| 0 <= k < i implies !alike(#[trigger] s[k], c) by {
        assert(s[k].connector@ != s[i].connector@);
    }
    if named(baseline, c.connector@, 0) is Some {
        let at = named_is_listed(baseline, c.connector@, 0);
        assert forall|k: int| 0 <= k < n && k != at implies !alike(#[trigger] baseline[k], c) by {
            if k < at {
                assert(baseline[k].connector@ != baseline[at].connector@);
            } else {
                assert(baseline[at].connector@ != baseline[k].connector@);
            }
        }
        if !alike(baseline[at], c) {
            let was = baseline[at];
            one_alike(s, was, s.len() as int);
            assert forall|k: int| 0 <= k < s.len() implies !alike(#[trigger] s[k], was) by {
                if k < i {
                    assert(s[k].connector@ != s[i].connector@);
                } else if k > i {
                    assert(s[i].connector@ != s[k].connector@);
                }
            }
            left_over_finds(baseline, s, c.connector@, 0, at);
            let other = left_over_is_listed(baseline, s, c.connector@, 0);
            if other < at {
                assert(baseline[other].connector@ != baseline[at].connector@);
            } else if other > at {
                assert(baseline[at].connector@ != baseline[other].connector@);
            }
        }
    } else {
        assert forall|k: int| 0 <= k < n implies !alike(#[trigger] baseline[k], c) by {
            if baseline[k].connector@ == c.connector@ {
                named_finds(baseline, c.connector@, 0, k);
            }
        }
        if left_over(baseline, s, c.connector@, 0) is Some {
            let at = left_over_is_listed(baseline, s, c.connector@, 0);
            named_finds(baseline, c.connector@, 0, at);
        }
    }
}

/// Where no name is listed twice and nothing else changed, a connector is gone exactly
/// where its name is no longer listed.
pub proof fn a_name_listed_once_is_gone_when_unlisted(
    s: Seq<DisplayConnector>,
    baseline: Seq<DisplayConnector>,
    j: int,
)
    requires
        one_per_name(s),
        one_per_name(baseline),
        changed_from(s, baseline, 0) is None,
        0 <= j < baseline.len(),
    ensures
        has_match(baseline, j, s) <==> named(s, baseline[j].connector@, 0) is Some,
{
    let name = baseline[j].connector@;
    a_name_listed_once_is_held_against_its_own(baseline, s, j);
    if named(s, name, 0) is Some {
        let i = named_is_listed(s, name, 0);
        unchanged_until(s, baseline, 0);
        assert(has_match(s, i, baseline));
        a_name_listed_once_is_held_against_its_own(s, baseline, i);
        let at = named_is_listed(baseline, name, 0);
        if at < j {
            assert(baseline[at].connector@ != baseline[j].connector@);
        } else if at > j {
            assert(baseline[j].connector@ != baseline[at].connector@);
        }
    }
}

/// Whether no other connector of a list has the name of the one at a position.
pub open spec fn only_one_named(s: Seq<DisplayConnector>, i: int) -> bool {
    0 <= i < s.len() && forall|k: int|
        0 <= k < s.len() && k != i ==> (#[trigger] s[k]).connector@ != s[i].connector@
}

proof fn only_it_can_be_alike(s: Seq<DisplayConnector>, c: DisplayConnector, at: int, n: int)
    requires
        only_one_named(s, at),
        s[at].connector@ == c.connector@,
        0 <= n <= s.len(),
    ensures
        alike_in(s, c, n) == if at < n && alike(s[at], c) {
            1nat
        } else {
            0
        },
    decreases n,
{
    if n > 0 {
        only_it_can_be_alike(s, c, at, n - 1);
        if n - 1 != at {
            assert(s[n - 1].connector@ != s[at].connector@);
        }
    }
}

/// Whether two connectors of one name show the same, field by field: both without a
/// monitor, or both with one, and then both unidentified or with the same maker,
/// product and serial.
pub open spec fn shows_the_same(a: DisplayConnector, b: DisplayConnector) -> bool {
    a.connected == b.connected && (a.connected ==> match (a.edid, b.edid) {
        (None, None) => true,
        (Some(x), Some(y)) => x.mfg@ == y.mfg@ && x.product == y.product && x.serial == y.serial,
        _ => false,
    })
}

/// A connector whose name each side lists once is unchanged exactly where both sides
/// show it so: nothing attached to either, or on both a monitor with the same
/// manufacturer, product and serial, or one that neither side could identify. Anything
/// else is a change, and where no connector before it changed, it is the one reported:
/// plugged in, unplugged, or the monitor replaced by the one that is there now.
pub proof fn another_monitor_is_a_replacement(
    now: DisplaySnapshot,
    baseline: DisplaySnapshot,
    i: int,
    j: int,
)
    requires
        only_one_named(now.connectors@, i),
        only_one_named(baseline.connectors@, j),
        now.connectors@[i].connector@ == baseline.connectors@[j].connector@,
    ensures
        ({
            let c = now.connectors@[i];
            let was = baseline.connectors@[j];
            let what = if c.connected && !was.connected {
                DisplayChange::Connected(c.connector)
            } else if !c.connected && was.connected {
                DisplayChange::Disconnected(c.connector)
            } else {
                DisplayChange::Replaced { connector: c.connector, now: c.edid }
            };
            &&& has_match(now.connectors@, i, baseline.connectors@) <==> shows_the_same(c, was)
            &&& !shows_the_same(c, was) ==> now.change(baseline) is Some
            &&& !shows_the_same(c, was) ==> changed_from(now.connectors@, baseline.connectors@, i)
                == Some(what)
            &&& !shows_the_same(c, was) && now.opaque_generation == baseline.opaque_generation && (
            forall|k: int|
                0 <= k < i ==> #[trigger] has_match(
                    now.connectors@,
                    k,
                    baseline.connectors@,
                )) ==> now.change(baseline) == Some(what)
        }),
{
    let s = now.connectors@;
    let b = baseline.connectors@;
    let c = s[i];
    let was = b[j];
    only_it_can_be_alike(s, c, i, i);
    only_it_can_be_alike(b, c, j, b.len() as int);
    only_it_can_be_alike(b, was, j, j);
    only_it_can_be_alike(s, was, i, s.len() as int);
    assert(alike(was, c) <==> shows_the_same(c, was));
    assert(alike(c, was) <==> shows_the_same(c, was));
    if !shows_the_same(c, was) {
        left_over_finds(b, s, c.connector@, 0, j);
        let at = left_over_is_listed(b, s, c.connector@, 0);
        assert(at == j);
        unchanged_until(s, b, 0);
        assert(!has_match(s, i, b));
        if forall|k: int| 0 <= k < i ==> #[trigger] has_match(s, k, b) {
            changed_first_at(s, b, 0, i);
        }
    }
}

proof fn changed_first_at(s: Seq<DisplayConnector>, b: Seq<DisplayConnector>, from: int, i: int)
    requires
        0 <= from <= i < s.len(),
        forall|k: int| from <= k < i ==> #[trigger] has_match(s, k, b),
    ensures
        changed_from(s, b, from) == changed_from(s, b, i),
    decreases i - from,
{
    if from < i {
        assert(has_match(s, from, b));
        changed_first_at(s, b, from + 1, i);
    }
}

/// A name that only one side lists is a change: the connector appeared, or it is gone.
pub proof fn a_name_on_one_side_is_a_change(now: DisplaySnapshot, baseline: DisplaySnapshot)
    ensures
        forall|i: int|
            0 <= i < now.connectors@.len() && (forall|j: int|
                0 <= j < baseline.connectors@.len() ==> (#[trigger] baseline.connectors@[j]).connector@
                    != now.connectors@[i].connector@) ==> now.change(baseline) is Some
                && #[trigger] changed_from(now.connectors@, baseline.connectors@, i) == Some(
                DisplayChange::Appeared(now.connectors@[i].connector),
            ),
        forall|j: int|
            0 <= j < baseline.connectors@.len() && (forall|i: int|
                0 <= i < now.connectors@.len() ==> (#[trigger] now.connectors@[i]).connector@
                    != baseline.connectors@[j].connector@) ==> now.change(baseline) is Some
                && #[trigger] gone_from(now.connectors@, baseline.connectors@, j) == Some(
                DisplayChange::Disappeared(baseline.connectors@[j].connector),
            ),
{
    let s = now.connectors@;
    let b = baseline.connectors@;
    unchanged_until(s, b, 0);
    none_gone_until(s, b, 0);
    assert forall|i: int|
        0 <= i < s.len() && (forall|j: int|
            0 <= j < b.len() ==> (#[trigger] b[j]).connector@ != s[i].connector@) implies now.change(
        baseline,
    ) is Some && #[trigger] changed_from(s, b, i) == Some(
        DisplayChange::Appeared(s[i].connector),
    ) by {
        none_of_that_name(b, s[i], b.len() as int);
        assert(!has_match(s, i, b));
        if left_over(b, s, s[i].connector@, 0) is Some {
            let at = left_over_is_listed(b, s, s[i].connector@, 0);
            assert(b[at].connector@ != s[i].connector@);
        }
    }
    assert forall|j: int|
        0 <= j < b.len() && (forall|i: int|
            0 <= i < s.len() ==> (#[trigger] s[i]).connector@ != b[j].connector@) implies now.change(
        baseline,
    ) is Some && #[trigger] gone_from(s, b, j) == Some(
        DisplayChange::Disappeared(b[j].connector),
    ) by {
        none_of_that_name(s, b[j], s.len() as int);
        assert(!has_match(b, j, s));
    }
}

proof fn none_of_that_name(s: Seq<DisplayConnector>, c: DisplayConnector, n: int)
    requires
        0 <= n <= s.len(),
        forall|k: int| 0 <= k < s.len() ==> (#[trigger] s[k]).connector@ != c.connector@,
    ensures
        alike_in(s, c, n) == 0,
    decreases n,
{
    if n > 0 {
        none_of_that_name(s, c, n - 1);
        assert(s[n - 1].connector@ != c.connector@);
    }
}

/// Another event count is a change of its own, which names no connector.
pub proof fn another_event_count_is_a_change(now: DisplaySnapshot, baseline: DisplaySnapshot)
    ensures
        now.opaque_generation != baseline.opaque_generation <==> now.change(baseline) == Some(
            DisplayChange::TopologyChanged,
        ),
{
    if now.opaque_generation == baseline.opaque_generation {
        let s = now.connectors@;
        let b = baseline.connectors@;
        changes_name_a_connector(s, b, 0);
        goings_name_a_connector(s, b, 0);
    }
}

proof fn changes_name_a_connector(s: Seq<DisplayConnector>, b: Seq<DisplayConnector>, i: int)
    ensures
        changed_from(s, b, i) != Some(DisplayChange::TopologyChanged),
    decreases s.len() - i,
{
    if 0 <= i < s.len() {
        changes_name_a_connector(s, b, i + 1);
    }
}

proof fn goings_name_a_connector(s: Seq<DisplayConnector>, b: Seq<DisplayConnector>, i: int)
    ensures
        gone_from(s, b, i) != Some(DisplayChange::TopologyChanged),
    decreases b.len() - i,
{
    if 0 <= i < b.len() {
        goings_name_a_connector(s, b, i + 1);
    }
}

/// A directory is a connector's exactly where its name is `card`, anything without a
/// dash, a dash and the connector's name, which may hold dashes and is not empty.
pub proof fn a_connector_directory_is_named_so(dir: Seq<char>, number: Seq<char>, conn: Seq<char>)
    requires
        !number.contains('-'),
    ensures
        conn.len() > 0 ==> is_connector_dir("card"@ + number + seq!['-'] + conn) && after(
            "card"@ + number + seq!['-'] + conn,
            '-',
        ) == conn,
        is_connector_dir(dir) ==> exists|n: Seq<char>|
            dir == #[trigger] ("card"@ + n) + seq!['-'] + after(dir, '-') && !n.contains('-')
                && after(dir, '-').len() > 0,
{
    reveal_strlit("card");
    let card = "card"@ + number;
    let all = card + seq!['-'] + conn;
    assert forall|k: int| 0 <= k < card.len() implies card[k] != '-' by {
        if k >= 4 {
            assert(number.contains(number[k - 4]));
        }
    }
    crate::text::first_at_is(all, '-', card.len() as int);
    assert(all[card.len() as int] == '-');
    assert(all.contains('-'));
    assert(before(all, '-') =~= card);
    assert(card.take(4) =~= "card"@);
    assert(after(all, '-') =~= conn);
    if is_connector_dir(dir) {
        crate::text::a_cut_text_joins_again(dir, '-');
        let head = before(dir, '-');
        let n = head.skip(4);
        assert(head =~= "card"@ + n) by {
            assert(head.take(4) == "card"@);
        }
        assert(!n.contains('-')) by {
            if n.contains('-') {
                let k = choose|k: int| 0 <= k < n.len() && n[k] == '-';
                assert(head[k + 4] == '-');
            }
        }
        assert(dir == ("card"@ + n) + seq!['-'] + after(dir, '-'));
    }
}

/// A connector counts as connected exactly where its status file, trimmed, reads
/// `connected`; a monitor is identified only there, and only out of the EDID.
pub proof fn connected_is_what_the_status_reads(e: DrmEntry, c: (String, bool, Option<EdidId>))
    requires
        found_in(e, c),
    ensures
        c.1 <==> (e.status matches Some(s) && trimmed(s@) == "connected"@),
        c.2 is Some <==> c.1 && (e.edid matches Some(b) && crate::edid::is_edid(b@)),
        c.2 matches Some(id) ==> (e.edid matches Some(b) && id@ == crate::edid::identity(b@)),
        c.0@ == after(e.dir@, '-'),
{
}

/// A connector is watched exactly where it was found and no ignore token that is not
/// empty stands in its name, and it is watched as it was found.
pub proof fn what_no_token_masks_is_watched(
    found: Seq<(String, bool, Option<EdidId>)>,
    ignore: Seq<String>,
    c: DisplayConnector,
)
    ensures
        not_ignored(found, ignore).contains(c) <==> found.contains(
            (c.connector, c.connected, c.edid),
        ) && !masked(c.connector@, ignore),
{
    let p = |f: (String, bool, Option<EdidId>)| !masked(f.0@, ignore);
    let kept = found.filter(p);
    let all = not_ignored(found, ignore);
    let f = (c.connector, c.connected, c.edid);
    crate::order::a_pick_holds_what_passes(found, p, f);
    if all.contains(c) {
        let k = choose|k: int| 0 <= k < all.len() && all[k] == c;
        assert(kept[k] == f);
        assert(kept.contains(f));
    }
    if found.contains(f) && p(f) {
        assert(kept.contains(f));
        let k = choose|k: int| 0 <= k < kept.len() && kept[k] == f;
        assert(all[k] == c);
    }
}

/// A devd line tells of a connector exactly where both the system and the subsystem are
/// named somewhere in it, in either order.
pub proof fn a_hotplug_names_system_and_subsystem(line: Seq<char>)
    ensures
        is_hotplug(line) <==> (exists|i: int|
            0 <= i <= line.len() - 10 && #[trigger] line.subrange(i, i + 10) == "system=DRM"@) && (
        exists|i: int|
            0 <= i <= line.len() - 19 && #[trigger] line.subrange(i, i + 19)
                == "subsystem=CONNECTOR"@),
{
    reveal_strlit("system=DRM");
    reveal_strlit("subsystem=CONNECTOR");
    crate::text::one_text_in_another(line, "system=DRM"@);
    crate::text::one_text_in_another(line, "subsystem=CONNECTOR"@);
}

/// The names of a sorted list of connectors: every name that is there, each once, and in
/// order.
pub proof fn each_name_is_given_once(s: Seq<DisplayConnector>)
    requires
        crate::order::in_order(s),
    ensures
        s.len() > 0 ==> once_each(s).len() > 0 && once_each(s).last()@ == s.last().connector@,
        forall|i: int, j: int|
            0 <= i < j < once_each(s).len() ==> crate::order::precedes(
                (#[trigger] once_each(s)[i])@,
                (#[trigger] once_each(s)[j])@,
            ),
        forall|k: int|
            0 <= k < once_each(s).len() ==> exists|i: int|
                0 <= i < s.len() && #[trigger] s[i].connector == #[trigger] once_each(s)[k],
        forall|i: int|
            0 <= i < s.len() ==> exists|k: int|
                0 <= k < once_each(s).len() && (#[trigger] once_each(s)[k])@
                    == #[trigger] s[i].connector@,
    decreases s.len(),
{
    if s.len() > 0 {
        let front = s.drop_last();
        let last = s.last();
        let f = once_each(front);
        let all = once_each(s);
        assert forall|i: int, j: int| 0 <= i < j < front.len() implies !crate::order::precedes(
            (#[trigger] front[j]).key(),
            (#[trigger] front[i]).key(),
        ) by {
            assert(front[i] == s[i] && front[j] == s[j]);
        }
        each_name_is_given_once(front);
        let pushed = !(f.len() > 0 && f.last()@ == last.connector@);
        if pushed && f.len() > 0 {
            assert(front.len() > 0);
            assert(front.last() == s[s.len() - 2]);
            assert(!crate::order::precedes(s[s.len() - 1].key(), s[s.len() - 2].key()));
            if !crate::order::precedes(f.last()@, last.connector@) {
                crate::order::order_is_total(f.last()@, last.connector@);
            }
        }
        assert forall|i: int, j: int| 0 <= i < j < all.len() implies crate::order::precedes(
            (#[trigger] all[i])@,
            (#[trigger] all[j])@,
        ) by {
            if pushed && j == f.len() {
                assert(all[i] == f[i]);
                if i < f.len() - 1 {
                    assert(crate::order::precedes(f[i]@, f[f.len() - 1]@));
                    crate::order::order_is_transitive(f[i]@, f.last()@, last.connector@);
                }
            } else {
                assert(all[i] == f[i] && all[j] == f[j]);
            }
        }
        assert forall|k: int| 0 <= k < all.len() implies exists|i: int|
            0 <= i < s.len() && #[trigger] s[i].connector == #[trigger] all[k] by {
            if pushed && k == f.len() {
                assert(s[s.len() - 1].connector == all[k]);
            } else {
                assert(all[k] == f[k]);
                let i = choose|i: int|
                    0 <= i < front.len() && #[trigger] front[i].connector == f[k];
                assert(s[i].connector == all[k]);
            }
        }
        assert forall|i: int| 0 <= i < s.len() implies exists|k: int|
            0 <= k < all.len() && (#[trigger] all[k])@ == #[trigger] s[i].connector@ by {
            if i < front.len() {
                assert(front[i].connector == s[i].connector);
                let k = choose|k: int|
                    0 <= k < f.len() && (#[trigger] f[k])@ == front[i].connector@;
                assert(all[k] == f[k]);
            } else {
                assert(all[all.len() - 1]@ == s[i].connector@);
            }
        }
    }
}

/// A directory is read as a connector exactly where its name is one's.
pub proof fn every_connector_directory_is_read(entries: Seq<DrmEntry>, e: DrmEntry)
    ensures
        connectors_in(entries).contains(e) <==> entries.contains(e) && is_connector_dir(e.dir@),
{
    crate::order::a_pick_holds_what_passes(entries, |e: DrmEntry| is_connector_dir(e.dir@), e);
}

/// The words for a change name the connector, and for a replacement the monitor that is
/// there now, by its identity and its name where it has one.
pub proof fn a_change_names_its_connector(c: String, id: EdidId)
    ensures
        DisplayChange::Appeared(c).words() == c@ + " appeared"@,
        DisplayChange::Disappeared(c).words() == c@ + " disappeared"@,
        DisplayChange::Connected(c).words() == c@ + " connected"@,
        DisplayChange::Disconnected(c).words() == c@ + " disconnected"@,
        (DisplayChange::Replaced { connector: c, now: None }).words() == c@
            + " now an unidentified monitor"@,
        id.name@.len() == 0 ==> (DisplayChange::Replaced { connector: c, now: Some(id) }).words() == c@
            + " now "@ + id@.text(),
        id.name@.len() > 0 ==> (DisplayChange::Replaced { connector: c, now: Some(id) }).words() == c@
            + " now "@ + id@.text() + " ("@ + id.name@ + ")"@,
        DisplayChange::TopologyChanged.words() == "display topology changed"@,
{
}

} // verus!
