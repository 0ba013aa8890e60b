//! PCI devices: what is on the bus, and what came or went.

use vstd::prelude::*;

use crate::text::{
    after, cat2, chars, is_masked, listed, lines, lines_of, masked, slice_views, split_once, text,
    views, words, words_of, part,
};

verus! {

/// Snapshot of connected PCI devices by selector: the sysfs address
/// (`0000:01:00.0`) or the pciconf selector (`pci0:1:0:0`), each once, in the
/// order they were found. A Thunderbolt device that tunnels PCIe shows up here
/// as an added device.
#[derive(Debug, Clone, PartialEq, Eq)]
pub struct PciSnapshot {
    devices: Vec<String>,
}

impl View for PciSnapshot {
    type V = Seq<Seq<char>>;

    closed spec fn view(&self) -> Seq<Seq<char>> {
        views(self.devices@)
    }
}

/// What came or went.
#[derive(Debug, Clone, PartialEq, Eq)]
pub enum PciChange {
    Added(String),
    Removed(String),
}

impl PciChange {
    /// The change in words.
    pub open spec fn words(self) -> Seq<char> {
        match self {
            PciChange::Added(s) => "unauthorized PCI device added: "@ + s@,
            PciChange::Removed(s) => "PCI device removed: "@ + s@,
        }
    }

    /// The change in words.
    pub fn message(&self) -> (r: String)
        ensures
            r@ == self.words(),
    {
        match self {
            PciChange::Added(s) => cat2("unauthorized PCI device added: ", s.as_str()),
            PciChange::Removed(s) => cat2("PCI device removed: ", s.as_str()),
        }
    }
}

/// Names in order of first appearance, each once.
pub open spec fn distinct(s: Seq<Seq<char>>) -> Seq<Seq<char>>
    decreases s.len(),
{
    if s.len() == 0 {
        Seq::empty()
    } else {
        let front = distinct(s.drop_last());
        if front.contains(s.last()) {
            front
        } else {
            front.push(s.last())
        }
    }
}

/// `distinct` keeps what is there, and nothing twice.
pub proof fn distinct_keeps(s: Seq<Seq<char>>)
    ensures
        distinct(s).no_duplicates(),
        forall|x: Seq<char>| #[trigger] distinct(s).contains(x) <==> s.contains(x),
        distinct(s).len() <= s.len(),
    decreases s.len(),
{
    if s.len() > 0 {
        let front = s.drop_last();
        distinct_keeps(front);
        assert(s =~= front.push(s.last()));
        let d = distinct(front);
        assert forall|x: Seq<char>| #[trigger] distinct(s).contains(x) <==> s.contains(x) by {
            if s.contains(x) {
                let k = choose|k: int| 0 <= k < s.len() && s[k] == x;
                if k < front.len() {
                    assert(front[k] == x);
                    assert(front.contains(x));
                    assert(d.contains(x));
                    let j = choose|j: int| 0 <= j < d.len() && d[j] == x;
                    assert(distinct(s)[j] == x);
                } else if !d.contains(s.last()) {
                    assert(distinct(s)[d.len() as int] == x);
                }
            }
            if distinct(s).contains(x) {
                let j = choose|j: int| 0 <= j < distinct(s).len() && distinct(s)[j] == x;
                if j < d.len() {
                    assert(d[j] == x);
                    assert(d.contains(x));
                    assert(front.contains(x));
                    let k = choose|k: int| 0 <= k < front.len() && front[k] == x;
                    assert(s[k] == x);
                } else {
                    assert(s[s.len() - 1] == x);
                }
            }
        }
    }
}

/// The first of `a`, at or after position `i`, that `b` lacks.
pub open spec fn first_missing(a: Seq<Seq<char>>, b: Seq<Seq<char>>, i: int) -> Option<Seq<char>>
    decreases a.len() - i,
{
    if i >= a.len() || i < 0 {
        None
    } else if !b.contains(a[i]) {
        Some(a[i])
    } else {
        first_missing(a, b, i + 1)
    }
}

/// Nothing is missing exactly when everything is there.
pub proof fn nothing_missing(a: Seq<Seq<char>>, b: Seq<Seq<char>>, i: int)
    requires
        0 <= i <= a.len(),
    ensures
        first_missing(a, b, i) is None <==> forall|k: int|
            i <= k < a.len() ==> b.contains(#[trigger] a[k]),
        first_missing(a, b, i) matches Some(x) ==> !b.contains(x) && a.contains(x),
    decreases a.len() - i,
{
    if i < a.len() {
        nothing_missing(a, b, i + 1);
    }
}

/// Position of the first string of `a` that `b` lacks, or the length.
pub fn find_missing(a: &[String], b: &[String]) -> (r: usize)
    ensures
        r <= a@.len(),
        r < a@.len() ==> first_missing(views(a@), views(b@), 0) == Some(a@[r as int]@),
        r == a@.len() ==> first_missing(views(a@), views(b@), 0) is None,
{
    let mut i: usize = 0;
    while i < a.len()
        invariant
            i <= a@.len(),
            first_missing(views(a@), views(b@), 0) == first_missing(views(a@), views(b@), i as int),
        decreases a@.len() - i,
    {
        assert(views(a@)[i as int] == a@[i as int]@);
        if !listed(b, a[i].as_str()) {
            return i;
        }
        i += 1;
    }
    i
}

/// What a snapshot reports against a baseline: the first device that came, or
/// else the first that went.
pub open spec fn pci_change(now: Seq<Seq<char>>, baseline: Seq<Seq<char>>) -> Option<
    (bool, Seq<char>),
> {
    if first_missing(now, baseline, 0) is Some {
        Some((true, first_missing(now, baseline, 0)->0))
    } else if first_missing(baseline, now, 0) is Some {
        Some((false, first_missing(baseline, now, 0)->0))
    } else {
        None
    }
}

impl PciSnapshot {
    /// No device is listed twice.
    pub closed spec fn wf(&self) -> bool {
        self@.no_duplicates()
    }

    /// The set of these devices.
    pub fn from_set(devices: Vec<String>) -> (r: PciSnapshot)
        ensures
            r@ == distinct(views(devices@)),
            r.wf(),
    {
        let ghost all = devices@;
        let mut kept: Vec<String> = Vec::new();
        proof {
            assert(views(all).take(0) =~= Seq::<Seq<char>>::empty());
            assert(views(kept@) =~= Seq::<Seq<char>>::empty());
        }
        for d in it: devices
            invariant
                it.seq() == all,
                views(kept@) == distinct(views(all).take(it.index() as int)),
        {
            let ghost sofar = kept@;
            assert(views(all).take(it.index() + 1).drop_last() =~= views(all).take(
                it.index() as int,
            ));
            if !listed(kept.as_slice(), d.as_str()) {
                kept.push(d);
                assert(views(kept@) =~= views(sofar).push(d@));
            }
        }
        assert(views(all).take(all.len() as int) =~= views(all));
        proof {
            distinct_keeps(views(all));
        }
        PciSnapshot { devices: kept }
    }

    /// How many devices there are.
    pub fn len(&self) -> (r: usize)
        ensures
            r == self@.len(),
    {
        self.devices.len()
    }

    /// Whether there are none.
    pub fn is_empty(&self) -> (r: bool)
        ensures
            r == (self@.len() == 0),
    {
        self.devices.len() == 0
    }

    /// First add/remove versus a baseline. Ignored selectors are already absent
    /// from both sides (filtered at enumeration), so they never show up here.
    pub fn detect_changes(&self, baseline: &PciSnapshot) -> (r: Option<PciChange>)
        ensures
            match r {
                Some(PciChange::Added(s)) => pci_change(self@, baseline@) == Some((true, s@)),
                Some(PciChange::Removed(s)) => pci_change(self@, baseline@) == Some((false, s@)),
                None => pci_change(self@, baseline@) is None,
            },
    {
        let i = find_missing(self.devices.as_slice(), baseline.devices.as_slice());
        if i < self.devices.len() {
            return Some(PciChange::Added(self.devices[i].clone()));
        }
        let j = find_missing(baseline.devices.as_slice(), self.devices.as_slice());
        if j < baseline.devices.len() {
            return Some(PciChange::Removed(baseline.devices[j].clone()));
        }
        None
    }
}

/// No change is reported exactly when both sides hold the same devices.
pub proof fn no_change_means_the_same_devices(now: Seq<Seq<char>>, baseline: Seq<Seq<char>>)
    ensures
        pci_change(now, baseline) is None <==> forall|x: Seq<char>|
            now.contains(x) <==> baseline.contains(x),
{
    nothing_missing(now, baseline, 0);
    nothing_missing(baseline, now, 0);
    if pci_change(now, baseline) is None {
        assert forall|x: Seq<char>| now.contains(x) <==> baseline.contains(x) by {
            if now.contains(x) {
                let k = choose|k: int| 0 <= k < now.len() && now[k] == x;
                assert(baseline.contains(now[k]));
            }
            if baseline.contains(x) {
                let k = choose|k: int| 0 <= k < baseline.len() && baseline[k] == x;
                assert(now.contains(baseline[k]));
            }
        }
    }
    if forall|x: Seq<char>| now.contains(x) <==> baseline.contains(x) {
        assert forall|k: int| 0 <= k < now.len() implies baseline.contains(#[trigger] now[k]) by {
            assert(now.contains(now[k]));
        }
        assert forall|k: int| 0 <= k < baseline.len() implies now.contains(
            #[trigger] baseline[k],
        ) by {
            assert(baseline.contains(baseline[k]));
        }
    }
}

/// A selector is ignored if it contains any non-empty ignore token as a
/// substring, so `pci0:1:0` can mask a whole slot's flapping functions.
pub fn is_ignored(selector: &str, ignore: &[String]) -> (r: bool)
    ensures
        r == masked(selector@, ignore@),
{
    is_masked(selector, ignore)
}

/// The names that no ignore token masks.
pub open spec fn unmasked(names: Seq<Seq<char>>, ignore: Seq<String>) -> Seq<Seq<char>> {
    names.filter(|n: Seq<char>| !masked(n, ignore))
}

/// The connected PCI devices out of the names that the bus lists, without
/// those matching `ignore`.
pub fn enumerate_pci(names: Vec<String>, ignore: &[String]) -> (r: PciSnapshot)
    ensures
        r@ == distinct(unmasked(views(names@), ignore@)),
        r.wf(),
{
    PciSnapshot::from_set(drop_masked(names, ignore))
}

/// Drop the names that an ignore token masks.
fn drop_masked(names: Vec<String>, ignore: &[String]) -> (r: Vec<String>)
    ensures
        views(r@) == unmasked(views(names@), ignore@),
{
    let ghost all = names@;
    let mut kept: Vec<String> = Vec::new();
    proof {
        reveal(Seq::filter);
        assert(views(all).take(0) =~= Seq::<Seq<char>>::empty());
        assert(views(kept@) =~= Seq::<Seq<char>>::empty());
    }
    for n in it: names
        invariant
            it.seq() == all,
            views(kept@) == unmasked(views(all).take(it.index() as int), ignore@),
    {
        let ghost sofar = kept@;
        proof {
            reveal(Seq::filter);
            assert(views(all).take(it.index() + 1).drop_last() =~= views(all).take(
                it.index() as int,
            ));
        }
        if !is_ignored(n.as_str(), ignore) {
            kept.push(n);
            assert(views(kept@) =~= views(sofar).push(n@));
        }
    }
    assert(views(all).take(all.len() as int) =~= views(all));
    kept
}

/// A string without the colons at its end.
pub open spec fn without_colons(s: Seq<char>) -> Seq<char>
    decreases s.len(),
{
    if s.len() > 0 && s.last() == ':' {
        without_colons(s.drop_last())
    } else {
        s
    }
}

/// The selector on one line of `pciconf -l`: what follows the `@` in the first
/// word, without the colons at its end.
pub open spec fn pciconf_selector(line: Seq<char>) -> Option<Seq<char>> {
    let w = words_of(line);
    if w.len() == 0 || !w[0].contains('@') || without_colons(after(w[0], '@')).len() == 0 {
        None
    } else {
        Some(without_colons(after(w[0], '@')))
    }
}

/// The selectors on the lines of `pciconf -l`, in their order.
pub open spec fn pciconf_selectors(ls: Seq<Seq<char>>) -> Seq<Seq<char>>
    decreases ls.len(),
{
    if ls.len() == 0 {
        Seq::empty()
    } else {
        let front = pciconf_selectors(ls.drop_last());
        match pciconf_selector(ls.last()) {
            Some(s) => front.push(s),
            None => front,
        }
    }
}

/// Parse `pciconf -l` output into the set of selectors, excluding ignored ones.
/// Each line looks like `nvme0@pci0:1:0:0:\tclass=0x010802 ...`; the stable id is
/// the `pciN:b:s:f` selector after the `@`.
pub fn parse_pciconf(output: &str, ignore: &[String]) -> (r: Vec<String>)
    ensures
        views(r@) == distinct(unmasked(pciconf_selectors(lines_of(output@)), ignore@)),
{
    let all = chars(output);
    let ls = lines(all.as_slice());
    let ghost lv = slice_views(ls@);
    let mut found: Vec<String> = Vec::new();
    let mut i: usize = 0;
    proof {
        assert(lv.take(0) =~= Seq::<Seq<char>>::empty());
        assert(views(found@) =~= Seq::<Seq<char>>::empty());
    }
    while i < ls.len()
        invariant
            i <= ls@.len(),
            lv == slice_views(ls@),
            views(found@) == pciconf_selectors(lv.take(i as int)),
        decreases ls@.len() - i,
    {
        let ghost sofar = found@;
        assert(lv.take(i + 1).drop_last() =~= lv.take(i as int));
        assert(lv[i as int] == ls@[i as int]@);
        if let Some(s) = parse_pciconf_selector(ls[i]) {
            found.push(s);
            assert(views(found@) =~= views(sofar).push(s@));
        }
        i += 1;
    }
    assert(lv.take(i as int) =~= lv);
    let kept = drop_masked(found, ignore);
    PciSnapshot::from_set(kept).devices
}

/// The selector on one line of `pciconf -l`.
fn parse_pciconf_selector(line: &[char]) -> (r: Option<String>)
    ensures
        match r {
            Some(s) => pciconf_selector(line@) == Some(s@),
            None => pciconf_selector(line@) is None,
        },
{
    let w = words(line);
    assert(slice_views(w@).len() == w@.len());
    if w.len() == 0 {
        return None;
    }
    assert(slice_views(w@)[0] == w@[0]@);
    match split_once(w[0], '@') {
        None => None,
        Some((_, sel)) => {
            let mut n: usize = sel.len();
            assert(sel@.take(n as int) =~= sel@);
            while n > 0 && sel[n - 1] == ':'
                invariant
                    n <= sel@.len(),
                    without_colons(sel@.take(n as int)) == without_colons(sel@),
                decreases n,
            {
                assert(sel@.take(n as int).drop_last() =~= sel@.take(n - 1));
                n -= 1;
            }
            let sel2 = part(sel, 0, n);
            assert(sel2@ =~= sel@.take(n as int));
            if sel2.len() == 0 {
                None
            } else {
                Some(text(sel2))
            }
        },
    }
}

// ---- what holds of the bus -----------------------------------------------

/// A device is reported as added exactly where the bus lists it and the baseline does
/// not; one is reported as removed only where nothing was added, and exactly where the
/// baseline has it and the bus no longer does.
pub proof fn what_is_reported_came_or_went(now: Seq<Seq<char>>, baseline: Seq<Seq<char>>)
    ensures
        pci_change(now, baseline) matches Some((true, x)) ==> now.contains(x) && !baseline.contains(
            x,
        ),
        pci_change(now, baseline) matches Some((false, x)) ==> baseline.contains(x) && !now.contains(
            x,
        ),
        (exists|x: Seq<char>| now.contains(x) && !baseline.contains(x)) <==> pci_change(
            now,
            baseline,
        ) matches Some((true, _)),
        pci_change(now, baseline) is None <==> forall|x: Seq<char>|
            now.contains(x) <==> baseline.contains(x),
{
    nothing_missing(now, baseline, 0);
    nothing_missing(baseline, now, 0);
    no_change_means_the_same_devices(now, baseline);
    if exists|x: Seq<char>| now.contains(x) && !baseline.contains(x) {
        let x = choose|x: Seq<char>| now.contains(x) && !baseline.contains(x);
        let k = choose|k: int| 0 <= k < now.len() && now[k] == x;
        assert(!baseline.contains(now[k]));
    }
}

/// A device is listed exactly where the bus names it and no token masks it, and it is
/// listed once.
pub proof fn what_the_bus_names_is_listed(names: Seq<Seq<char>>, ignore: Seq<String>, x: Seq<char>)
    ensures
        distinct(unmasked(names, ignore)).contains(x) <==> names.contains(x) && !masked(x, ignore),
        distinct(unmasked(names, ignore)).no_duplicates(),
{
    distinct_keeps(unmasked(names, ignore));
    crate::order::a_pick_holds_what_passes(names, |n: Seq<char>| !masked(n, ignore), x);
}

/// Where the colons at the end of a string begin.
proof fn colons_end_it(s: Seq<char>) -> (n: int)
    ensures
        0 <= n <= s.len(),
        without_colons(s) == s.take(n),
        forall|k: int| n <= k < s.len() ==> #[trigger] s[k] == ':',
        n > 0 ==> s[n - 1] != ':',
    decreases s.len(),
{
    if s.len() > 0 && s.last() == ':' {
        let n = colons_end_it(s.drop_last());
        assert(s.drop_last().take(n) =~= s.take(n));
        assert forall|k: int| n <= k < s.len() implies #[trigger] s[k] == ':' by {
            if k < s.len() - 1 {
                assert(s.drop_last()[k] == s[k]);
            }
        }
        n
    } else {
        assert(s.take(s.len() as int) =~= s);
        s.len() as int
    }
}

/// A line's first word is a driver, an at sign, the selector and colons, and it gives
/// that selector.
pub proof fn a_line_gives_its_selector(line: Seq<char>, driver: Seq<char>, selector: Seq<char>, colons: Seq<char>)
    requires
        words_of(line).len() > 0,
        words_of(line)[0] == driver + seq!['@'] + selector + colons,
        !driver.contains('@'),
        forall|k: int| 0 <= k < colons.len() ==> #[trigger] colons[k] == ':',
        selector.len() > 0,
        selector.last() != ':',
    ensures
        pciconf_selector(line) == Some(selector),
{
    let w = words_of(line)[0];
    assert forall|k: int| 0 <= k < driver.len() implies w[k] != '@' by {
        assert(driver.contains(driver[k]));
    }
    assert(w[driver.len() as int] == '@');
    crate::text::first_at_is(w, '@', driver.len() as int);
    assert(w.contains('@'));
    let rest = after(w, '@');
    assert(rest =~= selector + colons);
    let n = colons_end_it(rest);
    assert(rest[selector.len() - 1] == selector.last());
    if n < selector.len() {
        assert(rest[selector.len() - 1] == ':');
    }
    if n > selector.len() {
        assert(rest[n - 1] == colons[n - 1 - selector.len()]);
    }
    assert(rest.take(n) =~= selector);
}

/// A line gives no selector where it is blank, or its first word has no at sign or
/// nothing but colons behind the first.
pub proof fn a_line_may_give_no_selector(line: Seq<char>)
    ensures
        pciconf_selector(line) is None <==> {
            ||| words_of(line).len() == 0
            ||| !words_of(line)[0].contains('@')
            ||| forall|k: int|
                0 <= k < after(words_of(line)[0], '@').len() ==> #[trigger] after(
                    words_of(line)[0],
                    '@',
                )[k] == ':'
        },
{
    if words_of(line).len() > 0 {
        let rest = after(words_of(line)[0], '@');
        let n = colons_end_it(rest);
        if n > 0 {
            assert(rest[n - 1] != ':');
        }
    }
}

/// The selectors of all lines are those of each line.
pub proof fn each_line_gives_its_own(ls: Seq<Seq<char>>, x: Seq<char>)
    ensures
        pciconf_selectors(ls).contains(x) <==> exists|i: int|
            0 <= i < ls.len() && pciconf_selector(#[trigger] ls[i]) == Some(x),
    decreases ls.len(),
{
    if ls.len() > 0 {
        let front = ls.drop_last();
        each_line_gives_its_own(front, x);
        let f = pciconf_selectors(front);
        let all = pciconf_selectors(ls);
        if all.contains(x) {
            let k = choose|k: int| 0 <= k < all.len() && all[k] == x;
            if k < f.len() {
                assert(f[k] == x);
                assert(f.contains(x));
                let i = choose|i: int|
                    0 <= i < front.len() && pciconf_selector(#[trigger] front[i]) == Some(x);
                assert(ls[i] == front[i]);
            } else {
                assert(pciconf_selector(ls[ls.len() - 1]) == Some(x));
            }
        }
        if exists|i: int| 0 <= i < ls.len() && pciconf_selector(#[trigger] ls[i]) == Some(x) {
            let i = choose|i: int| 0 <= i < ls.len() && pciconf_selector(#[trigger] ls[i]) == Some(x);
            if i < front.len() {
                assert(front[i] == ls[i]);
                assert(f.contains(x));
                let k = choose|k: int| 0 <= k < f.len() && f[k] == x;
                assert(all[k] == x);
            } else {
                assert(all[f.len() as int] == x);
            }
        }
    }
}

/// The words for a change name the device.
pub proof fn a_change_names_its_device(s: String)
    ensures
        PciChange::Added(s).words() == "unauthorized PCI device added: "@ + s@,
        PciChange::Removed(s).words() == "PCI device removed: "@ + s@,
{
}

} // verus!
