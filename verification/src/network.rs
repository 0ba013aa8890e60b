//! Network links: which interfaces are up, and which went down.

use vstd::prelude::*;

use crate::text::{cat5, is, listed, same, views};

verus! {

/// Link state of a network interface.
#[derive(Debug, Clone, Copy, PartialEq, Eq, Structural)]
pub enum LinkState {
    Up,
    Down,
    Unknown,
}

impl LinkState {
    /// The state in a word.
    pub open spec fn word(self) -> Seq<char> {
        match self {
            LinkState::Up => "up"@,
            LinkState::Down => "down"@,
            LinkState::Unknown => "unknown"@,
        }
    }

    /// The state in a word.
    pub fn as_str(&self) -> (r: &'static str)
        ensures
            r@ == self.word(),
    {
        match self {
            LinkState::Up => "up",
            LinkState::Down => "down",
            LinkState::Unknown => "unknown",
        }
    }
}

/// Snapshot of all monitored network interfaces and their link states, each
/// interface once.
#[derive(Debug, Clone, PartialEq, Eq)]
pub struct NetworkSnapshot {
    interfaces: Vec<(String, LinkState)>,
}

impl View for NetworkSnapshot {
    type V = Seq<(Seq<char>, LinkState)>;

    closed spec fn view(&self) -> Seq<(Seq<char>, LinkState)> {
        pairs(self.interfaces@)
    }
}

/// Interfaces by the characters of their names.
pub open spec fn pairs(s: Seq<(String, LinkState)>) -> Seq<(Seq<char>, LinkState)> {
    s.map_values(|p: (String, LinkState)| (p.0@, p.1))
}

/// A detected link state change on a network interface.
#[derive(Debug, Clone, PartialEq, Eq)]
pub struct NetworkChange {
    pub interface: String,
    pub from: LinkState,
    pub to: LinkState,
}

impl NetworkChange {
    /// The change in words.
    pub open spec fn words(self) -> Seq<char> {
        "interface "@ + self.interface@ + " link changed: "@ + self.from.word() + " \u{2192} "@
            + self.to.word()
    }

    /// The change in words.
    pub fn message(&self) -> (r: String)
        ensures
            r@ == self.words(),
    {
        let mut out = cat5(
            "interface ",
            self.interface.as_str(),
            " link changed: ",
            self.from.as_str(),
            " \u{2192} ",
        );
        out.push_str(self.to.as_str());
        out
    }
}

/// Where an interface stands at or after position `i`, or the length.
pub open spec fn iface_at(s: Seq<(Seq<char>, LinkState)>, name: Seq<char>, i: int) -> int
    decreases s.len() - i,
{
    if i >= s.len() || i < 0 {
        s.len() as int
    } else if s[i].0 == name {
        i
    } else {
        iface_at(s, name, i + 1)
    }
}

/// The state of an interface.
pub open spec fn state_of(s: Seq<(Seq<char>, LinkState)>, name: Seq<char>) -> Option<LinkState> {
    let at = iface_at(s, name, 0);
    if at < s.len() {
        Some(s[at].1)
    } else {
        None
    }
}

/// No interface is listed twice.
pub open spec fn one_per_iface(s: Seq<(Seq<char>, LinkState)>) -> bool {
    forall|i: int, j: int| 0 <= i < j < s.len() ==> (#[trigger] s[i]).0 != (#[trigger] s[j]).0
}

/// The interfaces after one was put in, its state replaced where it is listed
/// already.
pub open spec fn put(
    s: Seq<(Seq<char>, LinkState)>,
    name: Seq<char>,
    state: LinkState,
) -> Seq<(Seq<char>, LinkState)> {
    let at = iface_at(s, name, 0);
    if at < s.len() {
        s.update(at, (name, state))
    } else {
        s.push((name, state))
    }
}

proof fn iface_at_is_first(s: Seq<(Seq<char>, LinkState)>, name: Seq<char>, i: int)
    requires
        0 <= i <= s.len(),
    ensures
        i <= iface_at(s, name, i) <= s.len(),
        iface_at(s, name, i) < s.len() ==> s[iface_at(s, name, i)].0 == name,
        forall|k: int| i <= k < iface_at(s, name, i) ==> (#[trigger] s[k]).0 != name,
    decreases s.len() - i,
{
    if i < s.len() && s[i].0 != name {
        iface_at_is_first(s, name, i + 1);
    }
}

proof fn put_lists_each_once(s: Seq<(Seq<char>, LinkState)>, name: Seq<char>, state: LinkState)
    requires
        one_per_iface(s),
    ensures
        one_per_iface(put(s, name, state)),
{
    iface_at_is_first(s, name, 0);
    let r = put(s, name, state);
    let at = iface_at(s, name, 0);
    assert forall|i: int, j: int| 0 <= i < j < r.len() implies (#[trigger] r[i]).0 != (
    #[trigger] r[j]).0 by {
        if at < s.len() {
            assert(r[i].0 == s[i].0 && r[j].0 == s[j].0);
        } else {
            assert(r[i] == s[i]);
            if j < s.len() {
                assert(r[j] == s[j]);
            }
        }
    }
}

/// Whether an interface that was up is down now, or gone.
pub open spec fn went_down(
    now: Seq<(Seq<char>, LinkState)>,
    was: (Seq<char>, LinkState),
) -> bool {
    was.1 == LinkState::Up && (state_of(now, was.0) is None || state_of(now, was.0) == Some(
        LinkState::Down,
    ))
}

/// The first interface of the baseline, at or after position `i`, that went
/// down.
pub open spec fn first_down(
    now: Seq<(Seq<char>, LinkState)>,
    baseline: Seq<(Seq<char>, LinkState)>,
    i: int,
) -> Option<Seq<char>>
    decreases baseline.len() - i,
{
    if i >= baseline.len() || i < 0 {
        None
    } else if went_down(now, baseline[i]) {
        Some(baseline[i].0)
    } else {
        first_down(now, baseline, i + 1)
    }
}

/// Nothing is reported exactly when every interface that was up is still
/// there and not down.
pub proof fn no_report_means_no_link_lost(
    now: Seq<(Seq<char>, LinkState)>,
    baseline: Seq<(Seq<char>, LinkState)>,
    i: int,
)
    requires
        0 <= i,
    ensures
        first_down(now, baseline, i) is None <==> forall|k: int|
            i <= k < baseline.len() ==> !went_down(now, #[trigger] baseline[k]),
    decreases baseline.len() - i,
{
    if i < baseline.len() {
        no_report_means_no_link_lost(now, baseline, i + 1);
    }
}

impl NetworkSnapshot {
    /// No interface is listed twice.
    pub open spec fn wf(&self) -> bool {
        one_per_iface(self@)
    }

    /// A snapshot of no interfaces.
    pub fn new() -> (r: NetworkSnapshot)
        ensures
            r@.len() == 0,
            r.wf(),
    {
        let r = NetworkSnapshot { interfaces: Vec::new() };
        assert(r@ =~= Seq::<(Seq<char>, LinkState)>::empty());
        r
    }

    /// Put one interface in, replacing what was known of it.
    pub fn insert(&mut self, name: String, state: LinkState)
        requires
            old(self).wf(),
        ensures
            final(self)@ == put(old(self)@, name@, state),
            final(self).wf(),
    {
        proof {
            put_lists_each_once(self@, name@, state);
            iface_at_is_first(self@, name@, 0);
        }
        let i = self.position(name.as_str());
        if i < self.interfaces.len() {
            self.interfaces[i].1 = state;
        } else {
            self.interfaces.push((name, state));
        }
        assert(self@ =~= put(old(self)@, name@, state));
    }

    fn position(&self, name: &str) -> (r: usize)
        ensures
            r == iface_at(self@, name@, 0),
            r <= self@.len(),
            self@.len() == self.interfaces@.len(),
    {
        let mut i: usize = 0;
        while i < self.interfaces.len()
            invariant
                i <= self.interfaces@.len(),
                self@.len() == self.interfaces@.len(),
                iface_at(self@, name@, 0) == iface_at(self@, name@, i as int),
            decreases self.interfaces@.len() - i,
        {
            assert(self@[i as int] == (self.interfaces@[i as int].0@, self.interfaces@[i as int].1));
            if same(self.interfaces[i].0.as_str(), name) {
                return i;
            }
            i += 1;
        }
        i
    }

    /// The monitored interfaces and their link states.
    pub fn interfaces(&self) -> (r: &[(String, LinkState)])
        ensures
            pairs(r@) == self@,
    {
        self.interfaces.as_slice()
    }

    /// The state of one interface.
    pub fn get(&self, name: &str) -> (r: Option<LinkState>)
        ensures
            r == state_of(self@, name@),
    {
        let i = self.position(name);
        if i < self.interfaces.len() {
            Some(self.interfaces[i].1)
        } else {
            None
        }
    }

    /// Detect the first Up to Down transition compared to a baseline. An
    /// interface that disappeared entirely is treated as link down.
    pub fn detect_link_down(&self, baseline: &NetworkSnapshot) -> (r: Option<NetworkChange>)
        ensures
            match r {
                Some(c) => first_down(self@, baseline@, 0) == Some(c.interface@) && c.from
                    == LinkState::Up && c.to == LinkState::Down,
                None => first_down(self@, baseline@, 0) is None,
            },
    {
        let mut i: usize = 0;
        while i < baseline.interfaces.len()
            invariant
                i <= baseline.interfaces@.len(),
                baseline@.len() == baseline.interfaces@.len(),
                first_down(self@, baseline@, 0) == first_down(self@, baseline@, i as int),
            decreases baseline.interfaces@.len() - i,
        {
            let was = &baseline.interfaces[i];
            assert(baseline@[i as int] == (was.0@, was.1));
            if was.1 == LinkState::Up {
                let down = match self.get(was.0.as_str()) {
                    Some(state) => state == LinkState::Down,
                    None => true,
                };
                if down {
                    return Some(
                        NetworkChange {
                            interface: was.0.clone(),
                            from: LinkState::Up,
                            to: LinkState::Down,
                        },
                    );
                }
            }
            i += 1;
        }
        None
    }
}

/// Whether a filter lets an interface through: an empty one lets all.
pub open spec fn wanted(filter: Seq<Seq<char>>, name: Seq<char>) -> bool {
    filter.len() == 0 || filter.contains(name)
}

/// Whether a filter lets an interface through.
pub fn is_wanted(filter: &[String], name: &str) -> (r: bool)
    ensures
        r == wanted(views(filter@), name@),
{
    assert(views(filter@).len() == filter@.len());
    filter.len() == 0 || listed(filter, name)
}

/// The link that a media status word stands for.
pub open spec fn media_state(status: i32) -> LinkState {
    if status & 1 == 0 {
        LinkState::Unknown
    } else if status & 2 != 0 {
        LinkState::Up
    } else {
        LinkState::Down
    }
}

/// Decode a `SIOCGIFMEDIA` status word. Bit 0 unset means the driver can't
/// report link state; bit 1 is the link.
pub fn ifmedia_link_state(status: i32) -> (r: LinkState)
    ensures
        r == if status & 1 == 0 {
            LinkState::Unknown
        } else if status & 2 != 0 {
            LinkState::Up
        } else {
            LinkState::Down
        },
        r == media_state(status),
{
    if status & 1 == 0 {
        LinkState::Unknown
    } else if status & 2 != 0 {
        LinkState::Up
    } else {
        LinkState::Down
    }
}

/// One entry of the interface directory, as it was read.
#[derive(Debug, PartialEq, Eq)]
pub struct InterfaceFiles {
    pub name: String,
    /// Whether the entry has a `device` link, which only a physical NIC has.
    pub has_device: bool,
    /// The text of `operstate`, when it could be read.
    pub operstate: Option<String>,
}

/// The state that an `operstate` file names.
pub open spec fn link_state(operstate: Option<String>) -> LinkState {
    match operstate {
        Some(s) => if s@ == "up"@ {
            LinkState::Up
        } else if s@ == "down"@ {
            LinkState::Down
        } else {
            LinkState::Unknown
        },
        None => LinkState::Unknown,
    }
}

/// The physical interfaces that the filter wants, with their states.
pub open spec fn links_in(entries: Seq<InterfaceFiles>, filter: Seq<Seq<char>>) -> Seq<
    (Seq<char>, LinkState),
>
    decreases entries.len(),
{
    if entries.len() == 0 {
        Seq::empty()
    } else {
        let front = links_in(entries.drop_last(), filter);
        let e = entries.last();
        if e.has_device && wanted(filter, e.name@) {
            put(front, e.name@, link_state(e.operstate))
        } else {
            front
        }
    }
}

/// Enumerate physical network interfaces out of what a directory walk read.
pub fn enumerate_interfaces_from(entries: &[InterfaceFiles], filter: &[String]) -> (r:
    NetworkSnapshot)
    ensures
        r@ == links_in(entries@, views(filter@)),
        r.wf(),
{
    let mut out = NetworkSnapshot::new();
    let mut i: usize = 0;
    proof {
        assert(entries@.take(0) =~= Seq::<InterfaceFiles>::empty());
        assert(out@ =~= Seq::<(Seq<char>, LinkState)>::empty());
    }
    while i < entries.len()
        invariant
            i <= entries@.len(),
            out@ == links_in(entries@.take(i as int), views(filter@)),
            out.wf(),
        decreases entries@.len() - i,
    {
        let e = &entries[i];
        assert(entries@.take(i + 1).drop_last() =~= entries@.take(i as int));
        if e.has_device && is_wanted(filter, e.name.as_str()) {
            let state = match &e.operstate {
                Some(s) => {
                    if same(s.as_str(), "up") {
                        LinkState::Up
                    } else if same(s.as_str(), "down") {
                        LinkState::Down
                    } else {
                        LinkState::Unknown
                    }
                },
                None => LinkState::Unknown,
            };
            out.insert(e.name.clone(), state);
        }
        i += 1;
    }
    assert(entries@.take(i as int) =~= entries@);
    out
}

// ---- what holds of links -------------------------------------------------

/// What putting an interface in makes of a list: it has the new state, and every other
/// interface keeps its own.
proof fn put_changes_one(s: Seq<(Seq<char>, LinkState)>, name: Seq<char>, state: LinkState)
    requires
        one_per_iface(s),
    ensures
        forall|n: Seq<char>, x: LinkState| #[trigger]
            put(s, name, state).contains((n, x)) <==> if n == name {
                x == state
            } else {
                s.contains((n, x))
            },
{
    iface_at_is_first(s, name, 0);
    put_lists_each_once(s, name, state);
    let at = iface_at(s, name, 0);
    let r = put(s, name, state);
    assert forall|n: Seq<char>, x: LinkState| #[trigger] r.contains((n, x)) <==> if n == name {
        x == state
    } else {
        s.contains((n, x))
    } by {
        if at < s.len() {
            assert(r[at] == (name, state));
        } else {
            assert(r[s.len() as int] == (name, state));
        }
        if r.contains((n, x)) {
            let k = choose|k: int| 0 <= k < r.len() && r[k] == (n, x);
            if n == name {
                let here = if at < s.len() {
                    at
                } else {
                    s.len() as int
                };
                if k < here {
                    assert(r[k].0 != r[here].0);
                } else if k > here {
                    assert(r[here].0 != r[k].0);
                }
            } else {
                assert(s[k] == (n, x));
            }
        }
        if n != name && s.contains((n, x)) {
            let k = choose|k: int| 0 <= k < s.len() && s[k] == (n, x);
            assert(r[k] == (n, x));
        }
    }
}

/// The entry at position `i` is of a physical interface that the filter lets through,
/// and no later entry has its name.
pub open spec fn counts_last(entries: Seq<InterfaceFiles>, filter: Seq<Seq<char>>, i: int) -> bool {
    &&& 0 <= i < entries.len()
    &&& entries[i].has_device
    &&& filter.len() == 0 || filter.contains(entries[i].name@)
    &&& forall|k: int|
        i < k < entries.len() && (#[trigger] entries[k]).has_device ==> entries[k].name@
            != entries[i].name@
}

/// The state that the text of an `operstate` file stands for.
proof fn the_text_decides(operstate: Option<String>)
    ensures
        link_state(operstate) is Up <==> (operstate matches Some(s) && s@ == "up"@),
        link_state(operstate) is Down <==> (operstate matches Some(s) && s@ == "down"@),
{
    reveal_strlit("up");
    reveal_strlit("down");
    assert("up"@.len() != "down"@.len());
}

/// A physical interface that the filter lets through is listed as its `operstate`
/// reads: up for `up`, down for `down`, and unknown for anything else or nothing. It is
/// listed in that state alone, and no other interface is listed.
pub proof fn a_link_is_listed_as_its_file_reads(
    entries: Seq<InterfaceFiles>,
    filter: Seq<Seq<char>>,
)
    ensures
        one_per_iface(links_in(entries, filter)),
        forall|i: int| #[trigger]
            counts_last(entries, filter, i) ==> {
                let name = entries[i].name@;
                let read = entries[i].operstate;
                let listed = links_in(entries, filter);
                &&& listed.contains((name, LinkState::Up)) <==> (read matches Some(s) && s@ == "up"@)
                &&& listed.contains((name, LinkState::Down)) <==> (read matches Some(s) && s@
                    == "down"@)
                &&& listed.contains((name, LinkState::Unknown)) <==> !(read matches Some(s) && (s@
                    == "up"@ || s@ == "down"@))
            },
        forall|name: Seq<char>, x: LinkState| #[trigger]
            links_in(entries, filter).contains((name, x)) ==> exists|i: int|
                counts_last(entries, filter, i) && entries[i].name@ == name,
    decreases entries.len(),
{
    let all = links_in(entries, filter);
    if entries.len() > 0 {
        let front = entries.drop_last();
        let e = entries.last();
        let last = entries.len() - 1;
        let before = links_in(front, filter);
        a_link_is_listed_as_its_file_reads(front, filter);
        the_text_decides(e.operstate);
        let counted = e.has_device && (filter.len() == 0 || filter.contains(e.name@));
        if counted {
            put_lists_each_once(before, e.name@, link_state(e.operstate));
            put_changes_one(before, e.name@, link_state(e.operstate));
        }
        assert forall|i: int| #[trigger] counts_last(entries, filter, i) implies {
            let name = entries[i].name@;
            let read = entries[i].operstate;
            &&& all.contains((name, LinkState::Up)) <==> (read matches Some(s) && s@ == "up"@)
            &&& all.contains((name, LinkState::Down)) <==> (read matches Some(s) && s@ == "down"@)
            &&& all.contains((name, LinkState::Unknown)) <==> !(read matches Some(s) && (s@ == "up"@
                || s@ == "down"@))
        } by {
            if i < last {
                assert(front[i] == entries[i]);
                assert forall|k: int|
                    i < k < front.len() && (#[trigger] front[k]).has_device implies front[k].name@
                    != front[i].name@ by {
                    assert(front[k] == entries[k]);
                }
                assert(counts_last(front, filter, i));
                if counted {
                    assert(entries[last].name@ != entries[i].name@);
                }
            } else {
                assert(entries[i] == e);
            }
        }
        assert forall|name: Seq<char>, x: LinkState| #[trigger] all.contains(
            (name, x),
        ) implies exists|i: int| counts_last(entries, filter, i) && entries[i].name@ == name by {
            if counted && name == e.name@ {
                assert(counts_last(entries, filter, last));
            } else {
                assert(before.contains((name, x)));
                let i = choose|i: int| counts_last(front, filter, i) && front[i].name@ == name;
                assert(front[i] == entries[i]);
                assert forall|k: int|
                    i < k < entries.len() && (#[trigger] entries[k]).has_device implies entries[k].name@
                    != entries[i].name@ by {
                    if k < last {
                        assert(front[k] == entries[k]);
                    } else if !counted {
                        assert(entries[k] == e);
                        if e.name@ == entries[i].name@ {
                            assert(filter.len() == 0 || filter.contains(e.name@));
                        }
                    }
                }
                assert(counts_last(entries, filter, i));
            }
        }
    } else {
        assert forall|name: Seq<char>, x: LinkState| #[trigger] all.contains(
            (name, x),
        ) implies false by {}
    }
}

/// What is reported: an interface that was up, and is down now or no longer listed.
/// Where one is so, something is reported, and where none is, nothing.
pub proof fn a_lost_link_is_reported(
    now: Seq<(Seq<char>, LinkState)>,
    baseline: Seq<(Seq<char>, LinkState)>,
)
    requires
        one_per_iface(now),
    ensures
        first_down(now, baseline, 0) matches Some(name) ==> baseline.contains(
            (name, LinkState::Up),
        ) && !now.contains((name, LinkState::Up)) && !now.contains((name, LinkState::Unknown)),
        first_down(now, baseline, 0) is None <==> forall|name: Seq<char>| #[trigger]
            baseline.contains((name, LinkState::Up)) ==> now.contains((name, LinkState::Up))
                || now.contains((name, LinkState::Unknown)),
{
    assert forall|name: Seq<char>| #[trigger] went_down(now, (name, LinkState::Up)) <==> !(
    now.contains((name, LinkState::Up)) || now.contains((name, LinkState::Unknown))) by {
        state_is_what_is_listed(now, name);
    }
    no_report_means_no_link_lost(now, baseline, 0);
    if first_down(now, baseline, 0) is Some {
        let at = down_is_listed(now, baseline, 0);
        assert(baseline[at] == (baseline[at].0, LinkState::Up));
        assert(baseline.contains((baseline[at].0, LinkState::Up)));
    }
    if first_down(now, baseline, 0) is None {
        assert forall|name: Seq<char>| #[trigger] baseline.contains((name, LinkState::Up)) implies {
            now.contains((name, LinkState::Up)) || now.contains((name, LinkState::Unknown))
        } by {
            let k = choose|k: int| 0 <= k < baseline.len() && baseline[k] == (name, LinkState::Up);
            assert(!went_down(now, baseline[k]));
        }
    }
    if forall|name: Seq<char>| #[trigger]
        baseline.contains((name, LinkState::Up)) ==> now.contains((name, LinkState::Up))
            || now.contains((name, LinkState::Unknown)) {
        assert forall|k: int| 0 <= k < baseline.len() implies !went_down(
            now,
            #[trigger] baseline[k],
        ) by {
            if baseline[k].1 == LinkState::Up {
                assert(baseline[k] == (baseline[k].0, LinkState::Up));
                assert(baseline.contains((baseline[k].0, LinkState::Up)));
            }
        }
    }
}

/// The state of an interface is the one it is listed in.
pub proof fn state_is_what_is_listed(s: Seq<(Seq<char>, LinkState)>, name: Seq<char>)
    requires
        one_per_iface(s),
    ensures
        forall|x: LinkState|
            state_of(s, name) == Some(x) <==> #[trigger] s.contains((name, x)),
{
    iface_at_is_first(s, name, 0);
    let at = iface_at(s, name, 0);
    assert forall|x: LinkState| state_of(s, name) == Some(x) <==> #[trigger] s.contains(
        (name, x),
    ) by {
        if at < s.len() {
            assert(s[at] == (name, s[at].1));
            assert(s.contains(s[at]));
        }
        if s.contains((name, x)) {
            let k = choose|k: int| 0 <= k < s.len() && s[k] == (name, x);
            assert(k >= at);
            if k > at {
                assert(s[at].0 != s[k].0);
            }
        }
    }
}

proof fn down_is_listed(
    now: Seq<(Seq<char>, LinkState)>,
    baseline: Seq<(Seq<char>, LinkState)>,
    i: int,
) -> (at: int)
    requires
        0 <= i,
        first_down(now, baseline, i) is Some,
    ensures
        i <= at < baseline.len(),
        baseline[at].0 == first_down(now, baseline, i)->0,
        went_down(now, baseline[at]),
    decreases baseline.len() - i,
{
    if went_down(now, baseline[i]) {
        i
    } else {
        down_is_listed(now, baseline, i + 1)
    }
}

/// An interface whose `operstate` read `up` in one walk, and in a later one reads
/// `down`, is reported, or another that was lost before it in the list is. So is one
/// that the later walk no longer finds.
pub proof fn from_up_to_down_is_reported(
    entries: Seq<InterfaceFiles>,
    earlier: Seq<InterfaceFiles>,
    filter: Seq<Seq<char>>,
    i: int,
)
    requires
        counts_last(earlier, filter, i),
        earlier[i].operstate matches Some(s) && s@ == "up"@,
        forall|k: int|
            0 <= k < entries.len() && (#[trigger] entries[k]).has_device && entries[k].name@
                == earlier[i].name@ ==> (entries[k].operstate matches Some(s) && s@ == "down"@),
    ensures
        first_down(links_in(entries, filter), links_in(earlier, filter), 0) is Some,
{
    let now = links_in(entries, filter);
    let was = links_in(earlier, filter);
    let name = earlier[i].name@;
    a_link_is_listed_as_its_file_reads(entries, filter);
    a_link_is_listed_as_its_file_reads(earlier, filter);
    assert(was.contains((name, LinkState::Up)));
    reveal_strlit("up");
    reveal_strlit("down");
    assert("up"@.len() != "down"@.len());
    assert forall|x: LinkState| #[trigger] now.contains((name, x)) implies x is Down by {
        let k = choose|k: int| counts_last(entries, filter, k) && entries[k].name@ == name;
        assert(counts_last(entries, filter, k));
        match x {
            LinkState::Up => {
                assert(!now.contains((name, LinkState::Up)));
            },
            LinkState::Unknown => {
                assert(!now.contains((name, LinkState::Unknown)));
            },
            LinkState::Down => {},
        }
    }
    a_lost_link_is_reported(now, was);
}

/// The two lowest bits of a media status decide: both set for a link, the lowest alone
/// for none, and without the lowest nothing is known.
pub proof fn two_bits_decide(status: i32)
    ensures
        media_state(status) is Up <==> status & 3 == 3,
        media_state(status) is Down <==> status & 3 == 1,
        media_state(status) is Unknown <==> status & 3 == 0 || status & 3 == 2,
{
    assert((status & 1 != 0 && status & 2 != 0) <==> status & 3 == 3) by (bit_vector);
    assert((status & 1 != 0 && status & 2 == 0) <==> status & 3 == 1) by (bit_vector);
    assert(status & 1 == 0 <==> (status & 3 == 0 || status & 3 == 2)) by (bit_vector);
}

/// The words for the states, and for a change.
pub proof fn a_state_has_its_word(c: NetworkChange)
    ensures
        LinkState::Up.word() == "up"@,
        LinkState::Down.word() == "down"@,
        LinkState::Unknown.word() == "unknown"@,
        c.from is Up && c.to is Down ==> c.words() == "interface "@ + c.interface@
            + " link changed: "@ + "up"@ + " \u{2192} "@ + "down"@,
{
}

} // verus!
