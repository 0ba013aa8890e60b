//! SD and MMC cards: what is in the slots, and what came or went.

use vstd::prelude::*;

use crate::number::{dec, decimal};
use crate::order::{in_order, sort_by_name, sorted_from, sorting_keeps_the_items, Named};
use crate::text::{
    begins, cat2, cat3, cat5, chars, find, first_at, first_at_is_first, listed, starts_with, views,
};

verus! {

/// A unique identifier for an SD/MMC card (by serial number).
#[derive(Debug, Eq, Hash)]
pub struct SdCardDeviceId {
    pub serial: String,
}

impl View for SdCardDeviceId {
    type V = Seq<char>;

    open spec fn view(&self) -> Seq<char> {
        self.serial@
    }
}

impl PartialEq for SdCardDeviceId {
    fn eq(&self, other: &Self) -> (r: bool) {
        self.serial == other.serial
    }
}

impl vstd::std_specs::cmp::PartialEqSpecImpl for SdCardDeviceId {
    open spec fn obeys_eq_spec() -> bool {
        true
    }

    open spec fn eq_spec(&self, other: &Self) -> bool {
        self@ == other@
    }
}

impl Clone for SdCardDeviceId {
    fn clone(&self) -> (r: Self)
        ensures
            r == *self,
    {
        SdCardDeviceId { serial: self.serial.clone() }
    }
}

/// Extended SD/MMC card information for display purposes.
#[derive(Debug, Clone, PartialEq, Eq)]
pub struct SdCardDeviceInfo {
    pub serial: String,
    pub name: Option<String>,
    pub card_type: Option<String>,
    pub cid: Option<String>,
    pub manfid: Option<String>,
    pub oemid: Option<String>,
    pub hwrev: Option<String>,
    pub fwrev: Option<String>,
    pub date: Option<String>,
}

impl Named for SdCardDeviceInfo {
    open spec fn key(&self) -> Seq<char> {
        self.serial@
    }

    fn name(&self) -> (r: &str) {
        self.serial.as_str()
    }
}

impl Default for SdCardDeviceInfo {
    fn default() -> (r: SdCardDeviceInfo)
        ensures
            r.serial@.len() == 0,
            r.name is None && r.card_type is None && r.cid is None && r.manfid is None,
            r.oemid is None && r.hwrev is None && r.fwrev is None && r.date is None,
    {
        SdCardDeviceInfo {
            serial: String::new(),
            name: None,
            card_type: None,
            cid: None,
            manfid: None,
            oemid: None,
            hwrev: None,
            fwrev: None,
            date: None,
        }
    }
}

/// Snapshot of all currently connected SD/MMC cards: each id once, with how
/// many of it there are, in the order they were found.
#[derive(Debug, Clone, PartialEq, Eq)]
pub struct SdCardSnapshot {
    devices: Vec<(SdCardDeviceId, u32)>,
}

impl View for SdCardSnapshot {
    type V = Seq<(SdCardDeviceId, u32)>;

    closed spec fn view(&self) -> Seq<(SdCardDeviceId, u32)> {
        self.devices@
    }
}

/// What kind of SD card change was detected.
#[derive(Debug, Clone, PartialEq, Eq)]
pub enum SdCardChange {
    Added(SdCardDeviceId),
    Removed(SdCardDeviceId),
}

impl SdCardChange {
    /// Extract the device ID from any change variant.
    pub fn device_id(&self) -> (r: &SdCardDeviceId)
        ensures
            *r == match self {
                SdCardChange::Added(id) => *id,
                SdCardChange::Removed(id) => *id,
            },
    {
        match self {
            SdCardChange::Added(id) => id,
            SdCardChange::Removed(id) => id,
        }
    }

    /// The change in words.
    pub open spec fn words(self) -> Seq<char> {
        match self {
            SdCardChange::Added(id) => "unauthorized SD card added: "@ + id@,
            SdCardChange::Removed(id) => "SD card removed: "@ + id@,
        }
    }

    /// The change in words.
    pub fn message(&self) -> (r: String)
        ensures
            r@ == self.words(),
    {
        match self {
            SdCardChange::Added(id) => cat2("unauthorized SD card added: ", id.serial.as_str()),
            SdCardChange::Removed(id) => cat2("SD card removed: ", id.serial.as_str()),
        }
    }
}

/// Whether a card is among the entries.
pub open spec fn holds_card(s: Seq<(SdCardDeviceId, u32)>, id: Seq<char>) -> bool {
    exists|i: int| 0 <= i < s.len() && (#[trigger] s[i]).0@ == id
}

/// No card is listed twice.
pub open spec fn one_per_card(s: Seq<(SdCardDeviceId, u32)>) -> bool {
    forall|i: int, j: int|
        0 <= i < j < s.len() ==> (#[trigger] s[i]).0@ != (#[trigger] s[j]).0@
}

/// The first card at or after position `i` that neither the baseline nor the
/// whitelist holds.
pub open spec fn first_new(
    s: Seq<(SdCardDeviceId, u32)>,
    baseline: Seq<(SdCardDeviceId, u32)>,
    whitelist: Seq<(SdCardDeviceId, u32)>,
    i: int,
) -> Option<SdCardDeviceId>
    decreases s.len() - i,
{
    if i >= s.len() || i < 0 {
        None
    } else if !holds_card(baseline, s[i].0@) && !holds_card(whitelist, s[i].0@) {
        Some(s[i].0)
    } else {
        first_new(s, baseline, whitelist, i + 1)
    }
}

/// The first baseline card at or after position `i` that is gone.
pub open spec fn first_gone(
    s: Seq<(SdCardDeviceId, u32)>,
    baseline: Seq<(SdCardDeviceId, u32)>,
    i: int,
) -> Option<SdCardDeviceId>
    decreases baseline.len() - i,
{
    if i >= baseline.len() || i < 0 {
        None
    } else if !holds_card(s, baseline[i].0@) {
        Some(baseline[i].0)
    } else {
        first_gone(s, baseline, i + 1)
    }
}

/// What is reported against a baseline and a whitelist: the first card that
/// neither knows, or else the first that has gone.
pub open spec fn card_change(
    s: Seq<(SdCardDeviceId, u32)>,
    baseline: Seq<(SdCardDeviceId, u32)>,
    whitelist: Seq<(SdCardDeviceId, u32)>,
) -> Option<SdCardChange> {
    match first_new(s, baseline, whitelist, 0) {
        Some(id) => Some(SdCardChange::Added(id)),
        None => match first_gone(s, baseline, 0) {
            Some(id) => Some(SdCardChange::Removed(id)),
            None => None,
        },
    }
}

/// No change is reported exactly when every card was known and none has gone.
pub proof fn no_change_means_every_card_is_known(
    s: Seq<(SdCardDeviceId, u32)>,
    baseline: Seq<(SdCardDeviceId, u32)>,
    whitelist: Seq<(SdCardDeviceId, u32)>,
)
    ensures
        card_change(s, baseline, whitelist) is None <==> {
            &&& forall|i: int|
                0 <= i < s.len() ==> holds_card(baseline, (#[trigger] s[i]).0@) || holds_card(
                    whitelist,
                    s[i].0@,
                )
            &&& forall|j: int|
                0 <= j < baseline.len() ==> holds_card(s, (#[trigger] baseline[j]).0@)
        },
{
    first_new_is_first(s, baseline, whitelist, 0);
    first_gone_is_first(s, baseline, 0);
}

proof fn first_new_is_first(
    s: Seq<(SdCardDeviceId, u32)>,
    baseline: Seq<(SdCardDeviceId, u32)>,
    whitelist: Seq<(SdCardDeviceId, u32)>,
    i: int,
)
    requires
        0 <= i,
    ensures
        first_new(s, baseline, whitelist, i) is None <==> forall|k: int|
            i <= k < s.len() ==> holds_card(baseline, (#[trigger] s[k]).0@) || holds_card(
                whitelist,
                s[k].0@,
            ),
    decreases s.len() - i,
{
    if i < s.len() {
        first_new_is_first(s, baseline, whitelist, i + 1);
    }
}

proof fn first_gone_is_first(
    s: Seq<(SdCardDeviceId, u32)>,
    baseline: Seq<(SdCardDeviceId, u32)>,
    i: int,
)
    requires
        0 <= i,
    ensures
        first_gone(s, baseline, i) is None <==> forall|k: int|
            i <= k < baseline.len() ==> holds_card(s, (#[trigger] baseline[k]).0@),
    decreases baseline.len() - i,
{
    if i < baseline.len() {
        first_gone_is_first(s, baseline, i + 1);
    }
}

/// The entries after one more card was put in: its count replaced where it is
/// listed already.
pub open spec fn put(s: Seq<(SdCardDeviceId, u32)>, id: SdCardDeviceId, n: u32) -> Seq<
    (SdCardDeviceId, u32),
> {
    let at = card_at(s, id@, 0);
    if at < s.len() {
        s.update(at, (s[at].0, n))
    } else {
        s.push((id, n))
    }
}

/// Where a card stands at or after position `i`, or the length.
pub open spec fn card_at(s: Seq<(SdCardDeviceId, u32)>, id: Seq<char>, i: int) -> int
    decreases s.len() - i,
{
    if i >= s.len() || i < 0 {
        s.len() as int
    } else if s[i].0@ == id {
        i
    } else {
        card_at(s, id, i + 1)
    }
}

proof fn card_at_is_first(s: Seq<(SdCardDeviceId, u32)>, id: Seq<char>, i: int)
    requires
        0 <= i <= s.len(),
    ensures
        i <= card_at(s, id, i) <= s.len(),
        card_at(s, id, i) < s.len() ==> s[card_at(s, id, i)].0@ == id,
        forall|k: int| i <= k < card_at(s, id, i) ==> (#[trigger] s[k]).0@ != id,
    decreases s.len() - i,
{
    if i < s.len() && s[i].0@ != id {
        card_at_is_first(s, id, i + 1);
    }
}

/// The map that a list of entries makes, later counts over earlier ones.
pub open spec fn map_of(s: Seq<(SdCardDeviceId, u32)>) -> Seq<(SdCardDeviceId, u32)>
    decreases s.len(),
{
    if s.len() == 0 {
        Seq::empty()
    } else {
        put(map_of(s.drop_last()), s.last().0, s.last().1)
    }
}

/// A map lists no card twice, and exactly the cards of its entries.
pub proof fn map_of_lists_each_once(s: Seq<(SdCardDeviceId, u32)>)
    ensures
        one_per_card(map_of(s)),
        forall|id: Seq<char>|
            #![trigger holds_card(map_of(s), id)]
            #![trigger holds_card(s, id)]
            holds_card(map_of(s), id) <==> holds_card(s, id),
    decreases s.len(),
{
    if s.len() > 0 {
        let front = s.drop_last();
        map_of_lists_each_once(front);
        let m = map_of(front);
        let (id, n) = s.last();
        card_at_is_first(m, id@, 0);
        let at = card_at(m, id@, 0);
        let r = put(m, id, n);
        assert forall|k: Seq<char>| holds_card(r, k) <==> holds_card(s, k) by {
            if holds_card(s, k) {
                let i = choose|i: int| 0 <= i < s.len() && (#[trigger] s[i]).0@ == k;
                if i < front.len() {
                    assert(front[i].0@ == k);
                    assert(holds_card(front, k));
                    let j = choose|j: int| 0 <= j < m.len() && (#[trigger] m[j]).0@ == k;
                    assert(r[j].0@ == k);
                } else if at < m.len() {
                    assert(r[at].0@ == k);
                } else {
                    assert(r[m.len() as int].0@ == k);
                }
            }
            if holds_card(r, k) {
                let j = choose|j: int| 0 <= j < r.len() && (#[trigger] r[j]).0@ == k;
                if j < m.len() {
                    assert(m[j].0@ == k);
                    assert(holds_card(m, k));
                    assert(holds_card(front, k));
                    let i = choose|i: int| 0 <= i < front.len() && (#[trigger] front[i]).0@ == k;
                    assert(s[i].0@ == k);
                } else {
                    assert(s[s.len() - 1].0@ == k);
                }
            }
        }
        assert forall|i: int, j: int| 0 <= i < j < r.len() implies (#[trigger] r[i]).0@ != (
        #[trigger] r[j]).0@ by {
            if at < m.len() {
                assert(r[i].0@ == m[i].0@ && r[j].0@ == m[j].0@);
            } else {
                assert(r[i] == m[i]);
                if j < m.len() {
                    assert(r[j] == m[j]);
                }
            }
        }
    }
}

/// Whether a card is among the entries.
fn has_card(s: &[(SdCardDeviceId, u32)], id: &SdCardDeviceId) -> (r: bool)
    ensures
        r == holds_card(s@, id@),
{
    let mut i: usize = 0;
    while i < s.len()
        invariant
            i <= s@.len(),
            forall|k: int| 0 <= k < i ==> (#[trigger] s@[k]).0@ != id@,
        decreases s@.len() - i,
    {
        if s[i].0 == *id {
            return true;
        }
        i += 1;
    }
    false
}

impl SdCardSnapshot {
    /// No card is listed twice.
    pub open spec fn wf(&self) -> bool {
        one_per_card(self@)
    }

    /// A snapshot of no cards.
    pub fn new() -> (r: SdCardSnapshot)
        ensures
            r@.len() == 0,
            r.wf(),
    {
        SdCardSnapshot { devices: Vec::new() }
    }

    /// Put one card in.
    fn insert(&mut self, id: SdCardDeviceId, n: u32)
        ensures
            final(self)@ == put(old(self)@, id, n),
    {
        let mut i: usize = 0;
        while i < self.devices.len() && self.devices[i].0 != id
            invariant
                i <= self.devices@.len(),
                *self == *old(self),
                card_at(self@, id@, 0) == card_at(self@, id@, i as int),
            decreases self.devices@.len() - i,
        {
            i += 1;
        }
        if i < self.devices.len() {
            self.devices[i].1 = n;
            assert(self@ =~= put(old(self)@, id, n));
        } else {
            self.devices.push((id, n));
        }
    }

    /// The snapshot that a list of entries makes, later counts over earlier
    /// ones.
    pub fn from_map(devices: Vec<(SdCardDeviceId, u32)>) -> (r: SdCardSnapshot)
        ensures
            r@ == map_of(devices@),
            r.wf(),
    {
        let ghost all = devices@;
        let mut out = SdCardSnapshot { devices: Vec::new() };
        assert(all.take(0) =~= Seq::<(SdCardDeviceId, u32)>::empty());
        for d in it: devices
            invariant
                it.seq() == all,
                out@ == map_of(all.take(it.index() as int)),
        {
            assert(all.take(it.index() + 1).drop_last() =~= all.take(it.index() as int));
            let (id, n) = d;
            out.insert(id, n);
        }
        assert(all.take(all.len() as int) =~= all);
        proof {
            map_of_lists_each_once(all);
        }
        out
    }

    /// The cards and how many there are of each.
    pub fn devices(&self) -> (r: &[(SdCardDeviceId, u32)])
        ensures
            r@ == self@,
    {
        self.devices.as_slice()
    }

    /// How many cards there are.
    pub fn len(&self) -> (r: usize)
        ensures
            r == self@.len(),
    {
        self.devices.len()
    }

    /// Whether there are none.
    pub fn is_empty(&self) -> (r: bool)
        ensures
            r == (self@.len() == 0),
    {
        self.devices.len() == 0
    }

    /// Check current snapshot against a baseline + whitelist.
    /// Returns None if no unauthorized changes, Some(change) if violation detected.
    pub fn detect_changes(
        &self,
        baseline: &SdCardSnapshot,
        whitelist: &SdCardSnapshot,
    ) -> (r: Option<SdCardChange>)
        ensures
            r == card_change(self@, baseline@, whitelist@),
    {
        let mut i: usize = 0;
        while i < self.devices.len()
            invariant
                i <= self.devices@.len(),
                first_new(self@, baseline@, whitelist@, 0) == first_new(
                    self@,
                    baseline@,
                    whitelist@,
                    i as int,
                ),
            decreases self.devices@.len() - i,
        {
            let id = &self.devices[i].0;
            if !has_card(baseline.devices.as_slice(), id) && !has_card(
                whitelist.devices.as_slice(),
                id,
            ) {
                return Some(SdCardChange::Added(id.clone()));
            }
            i += 1;
        }
        let mut j: usize = 0;
        while j < baseline.devices.len()
            invariant
                j <= baseline.devices@.len(),
                first_new(self@, baseline@, whitelist@, 0) is None,
                first_gone(self@, baseline@, 0) == first_gone(self@, baseline@, j as int),
            decreases baseline.devices@.len() - j,
        {
            let id = &baseline.devices[j].0;
            if !has_card(self.devices.as_slice(), id) {
                return Some(SdCardChange::Removed(id.clone()));
            }
            j += 1;
        }
        None
    }
}

/// Whether a sysfs entry name represents an MMC card device.
pub open spec fn mmc_name(name: Seq<char>) -> bool {
    begins(name, "mmc"@) && name.contains(':')
}

/// Returns true if this sysfs entry name represents an MMC card device.
/// MMC card entries look like "mmc0:0001" (host:address).
pub fn is_mmc_card(name: &str) -> (r: bool)
    ensures
        r == mmc_name(name@),
{
    let name = chars(name);
    proof {
        first_at_is_first(name@, ':', 0);
        if name@.contains(':') {
            let k = choose|k: int| 0 <= k < name@.len() && name@[k] == ':';
            assert(first_at(name@, ':', 0) <= k);
        }
    }
    starts_with(name.as_slice(), "mmc") && find(name.as_slice(), ':') < name.len()
}

/// One directory entry of the MMC bus with its attribute files as they were
/// read: the text, nothing where the file is missing, or why reading failed.
#[derive(Debug)]
pub struct CardFiles<E> {
    pub dir: String,
    pub card_type: Result<Option<String>, E>,
    pub serial: Result<Option<String>, E>,
    pub name: Result<Option<String>, E>,
    pub cid: Result<Option<String>, E>,
    pub manfid: Result<Option<String>, E>,
    pub oemid: Result<Option<String>, E>,
    pub hwrev: Result<Option<String>, E>,
    pub fwrev: Result<Option<String>, E>,
    pub date: Result<Option<String>, E>,
}

/// An attribute that counts only when it says something.
pub open spec fn filled(s: Option<String>) -> Option<String> {
    match s {
        Some(t) => if t@.len() > 0 {
            Some(t)
        } else {
            None
        },
        None => None,
    }
}

/// The serial of the card in an entry. `None` where there is no card: no MMC
/// name, no type, or no serial to know it by.
pub open spec fn card_serial<E>(e: CardFiles<E>) -> Result<Option<String>, E> {
    if !mmc_name(e.dir@) {
        Ok(None)
    } else {
        match e.card_type {
            Err(err) => Err(err),
            Ok(None) => Ok(None),
            Ok(Some(_)) => match e.serial {
                Err(err) => Err(err),
                Ok(s) => Ok(filled(s)),
            },
        }
    }
}

/// The cards that a directory walk found, or the first failure to read one.
pub open spec fn cards_in<E>(entries: Seq<CardFiles<E>>) -> Result<
    Seq<(SdCardDeviceId, u32)>,
    E,
>
    decreases entries.len(),
{
    if entries.len() == 0 {
        Ok(Seq::empty())
    } else {
        match cards_in(entries.drop_last()) {
            Err(e) => Err(e),
            Ok(front) => match card_serial(entries.last()) {
                Err(e) => Err(e),
                Ok(None) => Ok(front),
                Ok(Some(serial)) => Ok(put(front, SdCardDeviceId { serial }, 1)),
            },
        }
    }
}

/// What the entries put so far amount to lists no card twice.
proof fn cards_in_lists_each_once<E>(entries: Seq<CardFiles<E>>)
    ensures
        cards_in(entries) matches Ok(m) ==> one_per_card(m),
    decreases entries.len(),
{
    if entries.len() > 0 {
        cards_in_lists_each_once(entries.drop_last());
        if let Ok(m) = cards_in(entries.drop_last()) {
            if let Ok(Some(serial)) = card_serial(entries.last()) {
                let id = SdCardDeviceId { serial };
                card_at_is_first(m, id@, 0);
                let r = put(m, id, 1);
                let at = card_at(m, id@, 0);
                assert forall|i: int, j: int| 0 <= i < j < r.len() implies (#[trigger] r[i]).0@
                    != (#[trigger] r[j]).0@ by {
                    if at < m.len() {
                        assert(r[i].0@ == m[i].0@ && r[j].0@ == m[j].0@);
                    } else {
                        assert(r[i] == m[i]);
                        if j < m.len() {
                            assert(r[j] == m[j]);
                        }
                    }
                }
            }
        }
    }
}

/// A failure at one entry is a failure of the whole walk.
proof fn cards_in_fails_at<E>(entries: Seq<CardFiles<E>>, i: int)
    requires
        0 < i <= entries.len(),
        cards_in(entries.take(i)) is Err,
    ensures
        cards_in(entries) == cards_in(entries.take(i)),
    decreases entries.len() - i,
{
    if i < entries.len() {
        assert(entries.take(i + 1).drop_last() =~= entries.take(i));
        cards_in_fails_at(entries, i + 1);
    } else {
        assert(entries.take(i) =~= entries);
    }
}

/// The serial of the card in an entry, taken out of it.
fn take_serial<E>(
    dir: &str,
    card_type: Result<Option<String>, E>,
    serial: Result<Option<String>, E>,
) -> (r: Result<Option<String>, E>)
    ensures
        r == if !mmc_name(dir@) {
            Ok(None)
        } else {
            match card_type {
                Err(err) => Err(err),
                Ok(None) => Ok(None),
                Ok(Some(_)) => match serial {
                    Err(err) => Err(err),
                    Ok(s) => Ok(filled(s)),
                },
            }
        },
{
    if !is_mmc_card(dir) {
        return Ok(None);
    }
    match card_type {
        Err(err) => Err(err),
        Ok(None) => Ok(None),
        Ok(Some(_)) => match serial {
            Err(err) => Err(err),
            Ok(s) => Ok(fill(s)),
        },
    }
}

/// An attribute that counts only when it says something.
fn fill(s: Option<String>) -> (r: Option<String>)
    ensures
        r == filled(s),
{
    match s {
        Some(t) => if t.as_str().is_empty() {
            None
        } else {
            Some(t)
        },
        None => None,
    }
}

/// Enumerate SD/MMC cards out of what a walk of the MMC bus read.
pub fn enumerate_sdcard_devices_from<E>(entries: Vec<CardFiles<E>>) -> (r: Result<
    SdCardSnapshot,
    E,
>)
    ensures
        match r {
            Ok(s) => cards_in(entries@) == Ok::<_, E>(s@) && s.wf(),
            Err(e) => cards_in(entries@) == Err::<Seq<(SdCardDeviceId, u32)>, E>(e),
        },
{
    let ghost all = entries@;
    let mut out = SdCardSnapshot { devices: Vec::new() };
    assert(all.take(0) =~= Seq::<CardFiles<E>>::empty());
    for e in it: entries
        invariant
            it.seq() == all,
            cards_in(all.take(it.index() as int)) == Ok::<_, E>(out@),
    {
        assert(all.take(it.index() + 1).drop_last() =~= all.take(it.index() as int));
        match take_serial(e.dir.as_str(), e.card_type, e.serial) {
            Err(err) => {
                proof {
                    cards_in_fails_at(all, it.index() + 1);
                }
                return Err(err);
            },
            Ok(None) => {},
            Ok(Some(serial)) => {
                out.insert(SdCardDeviceId { serial }, 1);
            },
        }
    }
    assert(all.take(all.len() as int) =~= all);
    proof {
        cards_in_lists_each_once(all);
    }
    Ok(out)
}

/// The first of these reads that failed.
pub open spec fn first_failure<E>(e: CardFiles<E>) -> Option<E> {
    match e.name {
        Err(x) => Some(x),
        Ok(_) => match e.cid {
            Err(x) => Some(x),
            Ok(_) => match e.manfid {
                Err(x) => Some(x),
                Ok(_) => match e.oemid {
                    Err(x) => Some(x),
                    Ok(_) => match e.hwrev {
                        Err(x) => Some(x),
                        Ok(_) => match e.fwrev {
                            Err(x) => Some(x),
                            Ok(_) => match e.date {
                                Err(x) => Some(x),
                                Ok(_) => None,
                            },
                        },
                    },
                },
            },
        },
    }
}

/// What an entry says about the card in it.
pub open spec fn card_info<E>(e: CardFiles<E>) -> Result<Option<SdCardDeviceInfo>, E> {
    match card_serial(e) {
        Err(err) => Err(err),
        Ok(None) => Ok(None),
        Ok(Some(serial)) => match first_failure(e) {
            Some(err) => Err(err),
            None => Ok(
                Some(
                    SdCardDeviceInfo {
                        serial,
                        name: filled(e.name->Ok_0),
                        card_type: e.card_type->Ok_0,
                        cid: filled(e.cid->Ok_0),
                        manfid: filled(e.manfid->Ok_0),
                        oemid: filled(e.oemid->Ok_0),
                        hwrev: filled(e.hwrev->Ok_0),
                        fwrev: filled(e.fwrev->Ok_0),
                        date: filled(e.date->Ok_0),
                    },
                ),
            ),
        },
    }
}

/// What a directory walk says about the cards it found, or the first failure.
pub open spec fn infos_in<E>(entries: Seq<CardFiles<E>>) -> Result<Seq<SdCardDeviceInfo>, E>
    decreases entries.len(),
{
    if entries.len() == 0 {
        Ok(Seq::empty())
    } else {
        match infos_in(entries.drop_last()) {
            Err(e) => Err(e),
            Ok(front) => match card_info(entries.last()) {
                Err(e) => Err(e),
                Ok(None) => Ok(front),
                Ok(Some(info)) => Ok(front.push(info)),
            },
        }
    }
}

proof fn infos_in_fails_at<E>(entries: Seq<CardFiles<E>>, i: int)
    requires
        0 < i <= entries.len(),
        infos_in(entries.take(i)) is Err,
    ensures
        infos_in(entries) == infos_in(entries.take(i)),
    decreases entries.len() - i,
{
    if i < entries.len() {
        assert(entries.take(i + 1).drop_last() =~= entries.take(i));
        infos_in_fails_at(entries, i + 1);
    } else {
        assert(entries.take(i) =~= entries);
    }
}

/// What an entry says about the card in it.
fn read_card<E>(e: CardFiles<E>) -> (r: Result<Option<SdCardDeviceInfo>, E>)
    ensures
        r == card_info(e),
{
    if !is_mmc_card(e.dir.as_str()) {
        return Ok(None);
    }
    let card_type = match e.card_type {
        Err(err) => {
            return Err(err);
        },
        Ok(t) => t,
    };
    if card_type.is_none() {
        return Ok(None);
    }
    let serial = match e.serial {
        Err(err) => {
            return Err(err);
        },
        Ok(s) => match fill(s) {
            Some(s) => s,
            None => {
                return Ok(None);
            },
        },
    };
    let name = match e.name {
        Err(err) => {
            return Err(err);
        },
        Ok(s) => fill(s),
    };
    let cid = match e.cid {
        Err(err) => {
            return Err(err);
        },
        Ok(s) => fill(s),
    };
    let manfid = match e.manfid {
        Err(err) => {
            return Err(err);
        },
        Ok(s) => fill(s),
    };
    let oemid = match e.oemid {
        Err(err) => {
            return Err(err);
        },
        Ok(s) => fill(s),
    };
    let hwrev = match e.hwrev {
        Err(err) => {
            return Err(err);
        },
        Ok(s) => fill(s),
    };
    let fwrev = match e.fwrev {
        Err(err) => {
            return Err(err);
        },
        Ok(s) => fill(s),
    };
    let date = match e.date {
        Err(err) => {
            return Err(err);
        },
        Ok(s) => fill(s),
    };
    Ok(
        Some(
            SdCardDeviceInfo {
                serial,
                name,
                card_type,
                cid,
                manfid,
                oemid,
                hwrev,
                fwrev,
                date,
            },
        ),
    )
}

/// Enumerate SD/MMC cards with extended info out of what a walk of the MMC bus
/// read, sorted by serial.
pub fn enumerate_sdcard_devices_detailed_from<E>(entries: Vec<CardFiles<E>>) -> (r: Result<
    Vec<SdCardDeviceInfo>,
    E,
>)
    ensures
        match r {
            Ok(s) => infos_in(entries@) is Ok && sorted_from(s@, infos_in(entries@)->Ok_0),
            Err(e) => infos_in(entries@) == Err::<Seq<SdCardDeviceInfo>, E>(e),
        },
{
    let ghost all = entries@;
    let mut out: Vec<SdCardDeviceInfo> = Vec::new();
    assert(all.take(0) =~= Seq::<CardFiles<E>>::empty());
    for e in it: entries
        invariant
            it.seq() == all,
            infos_in(all.take(it.index() as int)) == Ok::<_, E>(out@),
    {
        assert(all.take(it.index() + 1).drop_last() =~= all.take(it.index() as int));
        match read_card(e) {
            Err(err) => {
                proof {
                    infos_in_fails_at(all, it.index() + 1);
                }
                return Err(err);
            },
            Ok(None) => {},
            Ok(Some(info)) => {
                out.push(info);
            },
        }
    }
    assert(all.take(all.len() as int) =~= all);
    Ok(sort_by_name(out))
}

// ---- what holds of the two lists -----------------------------------------

/// Whether an attribute is missing or says something.
pub open spec fn says_something(s: Option<String>) -> bool {
    s matches Some(t) ==> t@.len() > 0
}

impl SdCardDeviceInfo {
    /// Whether a card has a serial to know it by, a type, and no empty attribute.
    pub open spec fn complete(self) -> bool {
        &&& self.serial@.len() > 0
        &&& self.card_type is Some
        &&& says_something(self.name) && says_something(self.cid) && says_something(self.manfid)
        &&& says_something(self.oemid) && says_something(self.hwrev)
        &&& says_something(self.fwrev) && says_something(self.date)
    }
}

/// Whether a card of this serial is among these.
pub open spec fn has_serial(s: Seq<SdCardDeviceInfo>, serial: Seq<char>) -> bool {
    exists|i: int| 0 <= i < s.len() && (#[trigger] s[i]).serial@ == serial
}

/// A card that was put in is there, and every other as before.
proof fn put_holds(s: Seq<(SdCardDeviceId, u32)>, id: SdCardDeviceId, n: u32, x: Seq<char>)
    ensures
        holds_card(put(s, id, n), x) <==> holds_card(s, x) || x == id@,
{
    card_at_is_first(s, id@, 0);
    let r = put(s, id, n);
    let at = card_at(s, id@, 0);
    if holds_card(s, x) {
        let i = choose|i: int| 0 <= i < s.len() && (#[trigger] s[i]).0@ == x;
        assert(r[i].0@ == x);
    }
    if x == id@ {
        assert(r[at].0@ == x);
    }
    if holds_card(r, x) && x != id@ {
        let i = choose|i: int| 0 <= i < r.len() && (#[trigger] r[i]).0@ == x;
        assert(i < s.len() && s[i].0@ == x);
    }
}

/// What a walk found, before it is sorted.
proof fn the_walks_agree<E>(entries: Seq<CardFiles<E>>)
    requires
        infos_in(entries) is Ok,
    ensures
        cards_in(entries) is Ok,
        forall|i: int|
            0 <= i < cards_in(entries)->Ok_0.len() ==> (#[trigger] cards_in(entries)->Ok_0[i]).1 == 1,
        forall|i: int|
            0 <= i < infos_in(entries)->Ok_0.len() ==> (#[trigger] infos_in(
                entries,
            )->Ok_0[i]).complete(),
        forall|x: Seq<char>| #[trigger]
            holds_card(cards_in(entries)->Ok_0, x) <==> has_serial(infos_in(entries)->Ok_0, x),
    decreases entries.len(),
{
    if entries.len() > 0 {
        let front = entries.drop_last();
        the_walks_agree(front);
        let was = cards_in(front)->Ok_0;
        let before_it = infos_in(front)->Ok_0;
        if let Ok(Some(info)) = card_info(entries.last()) {
            let id = SdCardDeviceId { serial: info.serial };
            let cards = cards_in(entries)->Ok_0;
            let infos = infos_in(entries)->Ok_0;
            assert(cards == put(was, id, 1));
            card_at_is_first(was, id@, 0);
            assert(infos == before_it.push(info));
            assert forall|x: Seq<char>| #[trigger] holds_card(cards, x) <==> has_serial(infos, x) by {
                put_holds(was, id, 1, x);
                assert(holds_card(was, x) <==> has_serial(before_it, x));
                if has_serial(before_it, x) {
                    let i = choose|i: int|
                        0 <= i < before_it.len() && (#[trigger] before_it[i]).serial@ == x;
                    assert(infos[i].serial@ == x);
                }
                if x == id@ {
                    assert(infos[before_it.len() as int].serial@ == x);
                }
                if has_serial(infos, x) {
                    let i = choose|i: int| 0 <= i < infos.len() && (#[trigger] infos[i]).serial@ == x;
                    if i < before_it.len() {
                        assert(before_it[i].serial@ == x);
                    }
                }
            }
        }
    }
}

/// The detailed list and the snapshot of one walk speak of the same cards: where the
/// list can be read so can the snapshot, the serials in the list are exactly the cards
/// of the snapshot, and each is counted once. The list ascends by serial, and every
/// card in it has a serial, a type and no empty attribute.
pub proof fn the_list_and_the_snapshot_agree<E>(
    entries: Seq<CardFiles<E>>,
    list: Seq<SdCardDeviceInfo>,
)
    requires
        infos_in(entries) is Ok,
        sorted_from(list, infos_in(entries)->Ok_0),
    ensures
        cards_in(entries) is Ok,
        one_per_card(cards_in(entries)->Ok_0),
        forall|i: int|
            0 <= i < cards_in(entries)->Ok_0.len() ==> (#[trigger] cards_in(entries)->Ok_0[i]).1 == 1,
        forall|x: Seq<char>| #[trigger]
            holds_card(cards_in(entries)->Ok_0, x) <==> has_serial(list, x),
        in_order(list),
        forall|i: int| 0 <= i < list.len() ==> (#[trigger] list[i]).complete(),
{
    the_walks_agree(entries);
    cards_in_lists_each_once(entries);
    let found = infos_in(entries)->Ok_0;
    assert forall|i: int| 0 <= i < list.len() implies (#[trigger] list[i]).complete() by {
        sorting_keeps_the_items(list, found, list[i]);
        assert(list.contains(list[i]));
        let k = choose|k: int| 0 <= k < found.len() && found[k] == list[i];
        assert(found[k].complete());
    }
    assert forall|x: Seq<char>| #[trigger]
        holds_card(cards_in(entries)->Ok_0, x) <==> has_serial(list, x) by {
        if has_serial(found, x) {
            let i = choose|i: int| 0 <= i < found.len() && (#[trigger] found[i]).serial@ == x;
            sorting_keeps_the_items(list, found, found[i]);
            assert(found.contains(found[i]));
            let k = choose|k: int| 0 <= k < list.len() && list[k] == found[i];
            assert(list[k].serial@ == x);
        }
        if has_serial(list, x) {
            let i = choose|i: int| 0 <= i < list.len() && (#[trigger] list[i]).serial@ == x;
            sorting_keeps_the_items(list, found, list[i]);
            assert(list.contains(list[i]));
            let k = choose|k: int| 0 <= k < found.len() && found[k] == list[i];
            assert(found[k].serial@ == x);
        }
    }
}

// ---- lists for people ----------------------------------------------------

/// A text that stands in for one that is missing.
pub open spec fn or_else(s: Option<String>, other: Seq<char>) -> Seq<char> {
    match s {
        Some(t) => t@,
        None => other,
    }
}

fn or<'a>(s: &'a Option<String>, other: &'a str) -> (r: &'a str)
    ensures
        r@ == or_else(*s, other@),
{
    match s {
        Some(t) => t.as_str(),
        None => other,
    }
}

/// One line of a list, when the attribute is there.
pub open spec fn attribute_line(label: Seq<char>, s: Option<String>) -> Seq<char> {
    match s {
        Some(t) => label + t@ + "\n"@,
        None => Seq::empty(),
    }
}

fn push_attribute(out: &mut String, label: &str, s: &Option<String>)
    ensures
        final(out)@ == old(out)@ + attribute_line(label@, *s),
{
    match s {
        Some(t) => {
            let line = cat3(label, t.as_str(), "\n");
            out.push_str(line.as_str());
        },
        None => {
            assert(out@ + Seq::<char>::empty() =~= out@);
        },
    }
}

/// One card of the list, with its attributes.
pub open spec fn card_entry(d: SdCardDeviceInfo) -> Seq<char> {
    "\n  "@ + or_else(d.name, "Unknown card"@) + " ("@ + or_else(d.card_type, "?"@) + ") serial: "@
        + d.serial@ + "\n"@ + attribute_line("    CID:    "@, d.cid) + attribute_line(
        "    Manfid: "@,
        d.manfid,
    ) + attribute_line("    OEM ID: "@, d.oemid) + attribute_line("    Date:   "@, d.date)
}

/// What the summary says about the whitelist.
pub open spec fn annotation(whitelist: Option<Seq<Seq<char>>>, serial: Seq<char>) -> Seq<char> {
    match whitelist {
        Some(w) => if w.contains(serial) {
            " [whitelisted]"@
        } else {
            " [NOT whitelisted]"@
        },
        None => ""@,
    }
}

/// One card of the summary.
pub open spec fn card_summary(
    d: SdCardDeviceInfo,
    whitelist: Option<Seq<Seq<char>>>,
) -> Seq<char> {
    "  serial: "@ + d.serial@ + "  ("@ + or_else(d.name, "Unknown card"@) + ", "@ + or_else(
        d.card_type,
        "?"@,
    ) + ")"@ + annotation(whitelist, d.serial@) + "\n"@
}

/// The cards one after the other.
pub open spec fn entries_text(devices: Seq<SdCardDeviceInfo>) -> Seq<char>
    decreases devices.len(),
{
    if devices.len() == 0 {
        Seq::empty()
    } else {
        entries_text(devices.drop_last()) + card_entry(devices.last())
    }
}

/// The summary lines one after the other.
pub open spec fn summaries_text(
    devices: Seq<SdCardDeviceInfo>,
    whitelist: Option<Seq<Seq<char>>>,
) -> Seq<char>
    decreases devices.len(),
{
    if devices.len() == 0 {
        Seq::empty()
    } else {
        summaries_text(devices.drop_last(), whitelist) + card_summary(devices.last(), whitelist)
    }
}

/// A whitelist as its serials.
pub open spec fn serials(whitelist: Option<&[String]>) -> Option<Seq<Seq<char>>> {
    match whitelist {
        Some(w) => Some(views(w@)),
        None => None,
    }
}

/// The formatted list of SD/MMC cards, as it is printed.
pub fn sdcard_device_list(
    devices: &[SdCardDeviceInfo],
    whitelist: Option<&[String]>,
) -> (r: String)
    ensures
        r@ == "\nConnected SD/MMC cards ("@ + dec(devices@.len()) + " found):\n"@ + entries_text(
            devices@,
        ) + "\nSD/MMC card summary (for whitelist configuration):\n"@ + summaries_text(
            devices@,
            serials(whitelist),
        ),
{
    let n = decimal(devices.len() as u64);
    let mut out = cat3("\nConnected SD/MMC cards (", n.as_str(), " found):\n");
    let ghost head = out@;
    let mut i: usize = 0;
    proof {
        assert(devices@.take(0) =~= Seq::<SdCardDeviceInfo>::empty());
        assert(head + Seq::<char>::empty() =~= head);
    }
    while i < devices.len()
        invariant
            i <= devices@.len(),
            out@ == head + entries_text(devices@.take(i as int)),
        decreases devices@.len() - i,
    {
        let d = &devices[i];
        assert(devices@.take(i + 1).drop_last() =~= devices@.take(i as int));
        let mut line = cat5(
            "\n  ",
            or(&d.name, "Unknown card"),
            " (",
            or(&d.card_type, "?"),
            ") serial: ",
        );
        line.push_str(d.serial.as_str());
        line.push_str("\n");
        push_attribute(&mut line, "    CID:    ", &d.cid);
        push_attribute(&mut line, "    Manfid: ", &d.manfid);
        push_attribute(&mut line, "    OEM ID: ", &d.oemid);
        push_attribute(&mut line, "    Date:   ", &d.date);
        assert(line@ == card_entry(*d));
        let ghost sofar = out@;
        out.push_str(line.as_str());
        assert(out@ =~= head + (entries_text(devices@.take(i as int)) + card_entry(*d)));
        i += 1;
    }
    assert(devices@.take(i as int) =~= devices@);
    out.push_str("\nSD/MMC card summary (for whitelist configuration):\n");
    let ghost head2 = out@;
    let mut j: usize = 0;
    assert(head2 + Seq::<char>::empty() =~= head2);
    while j < devices.len()
        invariant
            j <= devices@.len(),
            out@ == head2 + summaries_text(devices@.take(j as int), serials(whitelist)),
        decreases devices@.len() - j,
    {
        let d = &devices[j];
        assert(devices@.take(j + 1).drop_last() =~= devices@.take(j as int));
        let note = match whitelist {
            Some(w) => if listed(w, d.serial.as_str()) {
                " [whitelisted]"
            } else {
                " [NOT whitelisted]"
            },
            None => "",
        };
        let mut line = cat5(
            "  serial: ",
            d.serial.as_str(),
            "  (",
            or(&d.name, "Unknown card"),
            ", ",
        );
        line.push_str(or(&d.card_type, "?"));
        line.push_str(")");
        line.push_str(note);
        line.push_str("\n");
        assert(line@ == card_summary(*d, serials(whitelist)));
        out.push_str(line.as_str());
        assert(out@ =~= head2 + (summaries_text(devices@.take(j as int), serials(whitelist))
            + card_summary(*d, serials(whitelist))));
        j += 1;
    }
    assert(devices@.take(j as int) =~= devices@);
    out
}

/// One whitelist line.
pub open spec fn whitelist_line(d: SdCardDeviceInfo) -> Seq<char> {
    "    { serial = \""@ + d.serial@ + "\" },  # "@ + or_else(d.name, "Unknown card"@) + " ("@
        + or_else(d.card_type, "?"@) + ")\n"@
}

/// The whitelist lines one after the other.
pub open spec fn whitelist_lines(devices: Seq<SdCardDeviceInfo>) -> Seq<char>
    decreases devices.len(),
{
    if devices.len() == 0 {
        Seq::empty()
    } else {
        whitelist_lines(devices.drop_last()) + whitelist_line(devices.last())
    }
}

/// Generate a ready-to-paste TOML `[sdcard_whitelist]` block from connected cards.
pub fn generate_sdcard_whitelist_toml(devices: &[SdCardDeviceInfo]) -> (r: String)
    ensures
        r@ == "\n[sdcard_whitelist]\ndevices = [\n"@ + whitelist_lines(devices@) + "]\n"@,
{
    let mut out = "\n[sdcard_whitelist]\ndevices = [\n".to_owned();
    let ghost head = out@;
    let mut i: usize = 0;
    proof {
        assert(devices@.take(0) =~= Seq::<SdCardDeviceInfo>::empty());
        assert(head + Seq::<char>::empty() =~= head);
    }
    while i < devices.len()
        invariant
            i <= devices@.len(),
            out@ == head + whitelist_lines(devices@.take(i as int)),
        decreases devices@.len() - i,
    {
        let d = &devices[i];
        assert(devices@.take(i + 1).drop_last() =~= devices@.take(i as int));
        let mut line = cat5(
            "    { serial = \"",
            d.serial.as_str(),
            "\" },  # ",
            or(&d.name, "Unknown card"),
            " (",
        );
        line.push_str(or(&d.card_type, "?"));
        line.push_str(")\n");
        assert(line@ == whitelist_line(*d));
        out.push_str(line.as_str());
        assert(out@ =~= head + (whitelist_lines(devices@.take(i as int)) + whitelist_line(*d)));
        i += 1;
    }
    assert(devices@.take(i as int) =~= devices@);
    out.push_str("]\n");
    out
}

// ---- what holds of cards -------------------------------------------------

/// A card is reported as added exactly where one is in a slot whose serial neither the
/// baseline nor the whitelist has; one is reported as removed only where none was added,
/// and is one of the baseline whose serial is in no slot. The whitelist brings no card
/// that must be there.
pub proof fn what_is_reported_came_or_went(
    s: Seq<(SdCardDeviceId, u32)>,
    baseline: Seq<(SdCardDeviceId, u32)>,
    whitelist: Seq<(SdCardDeviceId, u32)>,
)
    ensures
        (card_change(s, baseline, whitelist) matches Some(SdCardChange::Added(_))) <==> exists|i: int|
            0 <= i < s.len() && (forall|j: int|
                0 <= j < baseline.len() ==> (#[trigger] baseline[j]).0.serial@ != s[i].0.serial@) && (
            forall|j: int|
                0 <= j < whitelist.len() ==> (#[trigger] whitelist[j]).0.serial@
                    != (#[trigger] s[i]).0.serial@),
        card_change(s, baseline, whitelist) matches Some(SdCardChange::Added(id)) ==> {
            &&& exists|i: int| 0 <= i < s.len() && (#[trigger] s[i]).0 == id
            &&& forall|j: int|
                0 <= j < baseline.len() ==> (#[trigger] baseline[j]).0.serial@ != id.serial@
            &&& forall|j: int|
                0 <= j < whitelist.len() ==> (#[trigger] whitelist[j]).0.serial@ != id.serial@
        },
        card_change(s, baseline, whitelist) matches Some(SdCardChange::Removed(id)) ==> {
            &&& exists|j: int| 0 <= j < baseline.len() && (#[trigger] baseline[j]).0 == id
            &&& forall|i: int| 0 <= i < s.len() ==> (#[trigger] s[i]).0.serial@ != id.serial@
        },
        card_change(s, baseline, whitelist) is None ==> forall|j: int|
            0 <= j < baseline.len() ==> exists|i: int|
                0 <= i < s.len() && (#[trigger] s[i]).0.serial@ == (#[trigger] baseline[j]).0.serial@,
{
    first_new_is_first(s, baseline, whitelist, 0);
    first_gone_is_first(s, baseline, 0);
    if first_new(s, baseline, whitelist, 0) is Some {
        let at = new_is_listed(s, baseline, whitelist, 0);
        assert(!holds_card(baseline, s[at].0@) && !holds_card(whitelist, s[at].0@));
    }
    if first_gone(s, baseline, 0) is Some {
        let at = gone_is_listed(s, baseline, 0);
        assert(!holds_card(s, baseline[at].0@));
    }
    if exists|i: int|
        0 <= i < s.len() && (forall|j: int|
            0 <= j < baseline.len() ==> (#[trigger] baseline[j]).0.serial@ != s[i].0.serial@) && (
        forall|j: int|
            0 <= j < whitelist.len() ==> (#[trigger] whitelist[j]).0.serial@
                != (#[trigger] s[i]).0.serial@) {
        let i = choose|i: int|
            0 <= i < s.len() && (forall|j: int|
                0 <= j < baseline.len() ==> (#[trigger] baseline[j]).0.serial@ != s[i].0.serial@) && (
            forall|j: int|
                0 <= j < whitelist.len() ==> (#[trigger] whitelist[j]).0.serial@
                    != (#[trigger] s[i]).0.serial@);
        assert(!holds_card(baseline, s[i].0@) && !holds_card(whitelist, s[i].0@));
    }
    if card_change(s, baseline, whitelist) is None {
        assert forall|j: int| 0 <= j < baseline.len() implies exists|i: int|
            0 <= i < s.len() && (#[trigger] s[i]).0.serial@ == (#[trigger] baseline[j]).0.serial@ by {
            assert(holds_card(s, baseline[j].0@));
        }
    }
}

proof fn new_is_listed(
    s: Seq<(SdCardDeviceId, u32)>,
    baseline: Seq<(SdCardDeviceId, u32)>,
    whitelist: Seq<(SdCardDeviceId, u32)>,
    i: int,
) -> (at: int)
    requires
        0 <= i,
        first_new(s, baseline, whitelist, i) is Some,
    ensures
        i <= at < s.len(),
        Some(s[at].0) == first_new(s, baseline, whitelist, i),
        !holds_card(baseline, s[at].0@) && !holds_card(whitelist, s[at].0@),
    decreases s.len() - i,
{
    if !holds_card(baseline, s[i].0@) && !holds_card(whitelist, s[i].0@) {
        i
    } else {
        new_is_listed(s, baseline, whitelist, i + 1)
    }
}

proof fn gone_is_listed(
    s: Seq<(SdCardDeviceId, u32)>,
    baseline: Seq<(SdCardDeviceId, u32)>,
    i: int,
) -> (at: int)
    requires
        0 <= i,
        first_gone(s, baseline, i) is Some,
    ensures
        i <= at < baseline.len(),
        Some(baseline[at].0) == first_gone(s, baseline, i),
        !holds_card(s, baseline[at].0@),
    decreases baseline.len() - i,
{
    if !holds_card(s, baseline[i].0@) {
        i
    } else {
        gone_is_listed(s, baseline, i + 1)
    }
}

/// Whether an entry is of a card: a directory named `mmc`, something and a colon, with a
/// type that could be read, and the serial that is given.
pub open spec fn is_card<E>(e: CardFiles<E>, serial: Seq<char>) -> bool {
    &&& e.dir@.len() >= 3 && e.dir@[0] == 'm' && e.dir@[1] == 'm' && e.dir@[2] == 'c'
    &&& exists|k: int| 0 <= k < e.dir@.len() && e.dir@[k] == ':'
    &&& e.card_type matches Ok(Some(_))
    &&& e.serial matches Ok(Some(t)) && t@ == serial
    &&& serial.len() > 0
}

proof fn mmc_by_its_letters(name: Seq<char>)
    ensures
        mmc_name(name) <==> name.len() >= 3 && name[0] == 'm' && name[1] == 'm' && name[2] == 'c' && (
        exists|k: int| 0 <= k < name.len() && name[k] == ':'),
{
    reveal_strlit("mmc");
    crate::text::one_text_in_another(name, "mmc"@);
    if name.len() >= 3 && name[0] == 'm' && name[1] == 'm' && name[2] == 'c' {
        assert forall|k: int| 0 <= k < 3 implies name[k] == "mmc"@[k] by {
            if k == 0 {
            } else if k == 1 {
            } else {
                assert(k == 2);
            }
        }
    }
    if begins(name, "mmc"@) {
        assert(name[0] == "mmc"@[0] && name[1] == "mmc"@[1] && name[2] == "mmc"@[2]);
    }
}

/// A walk over the entries finds a card exactly where one of them is of it, and each
/// card once.
pub proof fn a_walk_finds_the_cards<E>(entries: Seq<CardFiles<E>>)
    requires
        cards_in(entries) is Ok,
    ensures
        forall|x: Seq<char>| #[trigger]
            holds_card(cards_in(entries)->Ok_0, x) <==> exists|i: int|
                0 <= i < entries.len() && is_card(#[trigger] entries[i], x),
        forall|i: int|
            0 <= i < cards_in(entries)->Ok_0.len() ==> (#[trigger] cards_in(entries)->Ok_0[i]).1 == 1,
        one_per_card(cards_in(entries)->Ok_0),
    decreases entries.len(),
{
    cards_in_lists_each_once(entries);
    if entries.len() > 0 {
        let front = entries.drop_last();
        let e = entries.last();
        a_walk_finds_the_cards(front);
        mmc_by_its_letters(e.dir@);
        let m = cards_in(front)->Ok_0;
        let all = cards_in(entries)->Ok_0;
        let found = card_serial(e)->Ok_0;
        assert forall|x: Seq<char>| is_card(e, x) <==> (found matches Some(t) && t@ == x) by {}
        if let Some(serial) = found {
            card_at_is_first(m, serial@, 0);
            assert forall|i: int| 0 <= i < all.len() implies (#[trigger] all[i]).1 == 1 by {
                if i < m.len() {
                    assert(m[i].1 == 1);
                }
            }
        }
        assert forall|x: Seq<char>| #[trigger] holds_card(all, x) <==> exists|i: int|
            0 <= i < entries.len() && is_card(#[trigger] entries[i], x) by {
            if let Some(serial) = found {
                put_holds(m, SdCardDeviceId { serial }, 1, x);
            }
            if exists|i: int| 0 <= i < entries.len() && is_card(#[trigger] entries[i], x) {
                let i = choose|i: int| 0 <= i < entries.len() && is_card(#[trigger] entries[i], x);
                if i < front.len() {
                    assert(front[i] == entries[i]);
                    assert(holds_card(m, x));
                }
            }
            if holds_card(m, x) {
                let i = choose|i: int| 0 <= i < front.len() && is_card(#[trigger] front[i], x);
                assert(entries[i] == front[i]);
            }
            if found matches Some(t) && t@ == x {
                assert(is_card(entries[entries.len() - 1], x));
            }
        }
    }
}

/// A walk fails exactly where the type of an entry with a card's name could not be read
/// for a reason that counts, or the serial of one that has a type.
pub proof fn a_walk_fails_where_a_card_cannot_be_read<E>(entries: Seq<CardFiles<E>>)
    ensures
        cards_in(entries) is Err <==> exists|i: int|
            0 <= i < entries.len() && mmc_name((#[trigger] entries[i]).dir@) && (
            entries[i].card_type is Err || (entries[i].card_type matches Ok(Some(_))
                && entries[i].serial is Err)),
    decreases entries.len(),
{
    if entries.len() > 0 {
        let front = entries.drop_last();
        a_walk_fails_where_a_card_cannot_be_read(front);
        if cards_in(front) is Err {
            let i = choose|i: int|
                0 <= i < front.len() && mmc_name((#[trigger] front[i]).dir@) && (
                front[i].card_type is Err || (front[i].card_type matches Ok(Some(_))
                    && front[i].serial is Err));
            assert(entries[i] == front[i]);
        } else {
            assert forall|i: int| 0 <= i < front.len() implies #[trigger] entries[i] == front[i] by {}
            if cards_in(entries) is Err {
                assert(entries[entries.len() - 1] == entries.last());
            }
        }
    }
}

/// A card is described by its files: each attribute as the file reads, and none where
/// the file is missing or empty.
pub proof fn a_card_is_described_by_its_files<E>(e: CardFiles<E>, d: SdCardDeviceInfo)
    requires
        card_info(e) == Ok::<Option<SdCardDeviceInfo>, E>(Some(d)),
    ensures
        is_card(e, d.serial@),
        e.card_type == Ok::<Option<String>, E>(d.card_type),
        forall|t: String|
            #![trigger t@.len()]
            t@.len() > 0 ==> {
                &&& d.name == Some(t) <==> e.name == Ok::<Option<String>, E>(Some(t))
                &&& d.cid == Some(t) <==> e.cid == Ok::<Option<String>, E>(Some(t))
                &&& d.manfid == Some(t) <==> e.manfid == Ok::<Option<String>, E>(Some(t))
                &&& d.oemid == Some(t) <==> e.oemid == Ok::<Option<String>, E>(Some(t))
                &&& d.hwrev == Some(t) <==> e.hwrev == Ok::<Option<String>, E>(Some(t))
                &&& d.fwrev == Some(t) <==> e.fwrev == Ok::<Option<String>, E>(Some(t))
                &&& d.date == Some(t) <==> e.date == Ok::<Option<String>, E>(Some(t))
            },
        e.name matches Ok(Some(t)) && t@.len() == 0 ==> d.name is None,
{
    mmc_by_its_letters(e.dir@);
}

/// The last count given for a card is the one that is kept.
pub proof fn the_last_count_is_kept(s: Seq<(SdCardDeviceId, u32)>, i: int)
    requires
        0 <= i < s.len(),
        forall|k: int| i < k < s.len() ==> (#[trigger] s[k]).0.serial@ != s[i].0.serial@,
    ensures
        exists|j: int|
            0 <= j < map_of(s).len() && (#[trigger] map_of(s)[j]).0.serial@ == s[i].0.serial@
                && map_of(s)[j].1 == s[i].1,
    decreases s.len(),
{
    let front = s.drop_last();
    let m = map_of(front);
    let (id, n) = s.last();
    card_at_is_first(m, id@, 0);
    let at = card_at(m, id@, 0);
    if i == s.len() - 1 {
        if at < m.len() {
            assert(map_of(s)[at].0@ == id@);
        } else {
            assert(map_of(s)[m.len() as int].0@ == id@);
        }
    } else {
        assert forall|k: int| i < k < front.len() implies (#[trigger] front[k]).0.serial@
            != front[i].0.serial@ by {
            assert(front[k] == s[k]);
        }
        the_last_count_is_kept(front, i);
        let j = choose|j: int|
            0 <= j < m.len() && (#[trigger] m[j]).0.serial@ == front[i].0.serial@ && m[j].1
                == front[i].1;
        assert(s[s.len() - 1].0.serial@ != s[i].0.serial@);
        assert(j != at);
        assert(map_of(s)[j] == m[j]);
    }
}

/// A card is marked as whitelisted exactly where the whitelist has its serial, and not
/// at all where there is no whitelist to hold it against.
pub proof fn a_card_is_marked_by_its_serial(whitelist: Seq<Seq<char>>, serial: Seq<char>)
    ensures
        whitelist.contains(serial) ==> annotation(Some(whitelist), serial) == " [whitelisted]"@,
        !whitelist.contains(serial) ==> annotation(Some(whitelist), serial)
            == " [NOT whitelisted]"@,
        annotation(None, serial).len() == 0,
{
    reveal_strlit("");
}

/// Each card has a line of its own in the block and in the summary, by its serial, and
/// a paragraph of its own in the list.
pub proof fn each_card_has_its_line(
    devices: Seq<SdCardDeviceInfo>,
    d: SdCardDeviceInfo,
    whitelist: Option<Seq<Seq<char>>>,
)
    ensures
        ({
            let name = match d.name {
                Some(n) => n@,
                None => "Unknown card"@,
            };
            let kind = match d.card_type {
                Some(t) => t@,
                None => "?"@,
            };
            let mark = match whitelist {
                Some(w) => if w.contains(d.serial@) {
                    " [whitelisted]"@
                } else {
                    " [NOT whitelisted]"@
                },
                None => ""@,
            };
            &&& whitelist_lines(devices.push(d)) == whitelist_lines(devices) + ("    { serial = \""@
                + d.serial@ + "\" },  # "@ + name + " ("@ + kind + ")\n"@)
            &&& summaries_text(devices.push(d), whitelist) == summaries_text(devices, whitelist) + (
            "  serial: "@ + d.serial@ + "  ("@ + name + ", "@ + kind + ")"@ + mark + "\n"@)
            &&& entries_text(devices.push(d)) == entries_text(devices) + card_entry(d)
            &&& begins(
                card_entry(d),
                "\n  "@ + name + " ("@ + kind + ") serial: "@ + d.serial@ + "\n"@,
            )
        }),
        whitelist_lines(Seq::empty()).len() == 0,
        summaries_text(Seq::empty(), whitelist).len() == 0,
        entries_text(Seq::empty()).len() == 0,
{
    assert(devices.push(d).drop_last() =~= devices);
    let head = "\n  "@ + or_else(d.name, "Unknown card"@) + " ("@ + or_else(d.card_type, "?"@)
        + ") serial: "@ + d.serial@ + "\n"@;
    assert(card_entry(d).take(head.len() as int) =~= head);
}

/// An attribute has a line where the card has it, and none where it does not.
pub proof fn an_attribute_has_a_line_where_it_is(label: Seq<char>, t: String)
    ensures
        attribute_line(label, Some(t)) == label + t@ + "\n"@,
        attribute_line(label, None).len() == 0,
{
}

/// The words for a change name the card by its serial.
pub proof fn a_change_names_its_card(id: SdCardDeviceId)
    ensures
        SdCardChange::Added(id).words() == "unauthorized SD card added: "@ + id.serial@,
        SdCardChange::Removed(id).words() == "SD card removed: "@ + id.serial@,
{
}

} // verus!
