//! Addresses that were looked up, remembered for a few seconds.

use vstd::prelude::*;

use crate::text::same;

verus! {

/// How long an answer is remembered, in nanoseconds.
pub const TTL_NANOS: u128 = 5_000_000_000;

/// One answer.
#[derive(Debug)]
pub struct CacheEntry<A> {
    pub address: String,
    pub addrs: Vec<A>,
    /// When it is forgotten, on the caller's monotonic clock in nanoseconds.
    pub expires: u128,
}

/// Answers by address, each address once. `A` is the caller's type for where an
/// address leads.
#[derive(Debug)]
pub struct Resolver<A> {
    cache: Vec<CacheEntry<A>>,
}

/// Where an address stands at or after position `i`, or the length.
pub open spec fn entry_at<A>(s: Seq<CacheEntry<A>>, address: Seq<char>, i: int) -> int
    decreases s.len() - i,
{
    if i >= s.len() || i < 0 {
        s.len() as int
    } else if s[i].address@ == address {
        i
    } else {
        entry_at(s, address, i + 1)
    }
}

/// What is remembered of an address at `now`.
pub open spec fn fresh<A>(s: Seq<CacheEntry<A>>, address: Seq<char>, now: u128) -> Option<Seq<A>> {
    let at = entry_at(s, address, 0);
    if at < s.len() && now < s[at].expires {
        Some(s[at].addrs@)
    } else {
        None
    }
}

proof fn entry_at_is_first<A>(s: Seq<CacheEntry<A>>, address: Seq<char>, i: int)
    requires
        0 <= i <= s.len(),
    ensures
        i <= entry_at(s, address, i) <= s.len(),
        entry_at(s, address, i) < s.len() ==> s[entry_at(s, address, i)].address@ == address,
        forall|k: int| i <= k < entry_at(s, address, i) ==> (#[trigger] s[k]).address@ != address,
    decreases s.len() - i,
{
    if i < s.len() && s[i].address@ != address {
        entry_at_is_first(s, address, i + 1);
    }
}

/// The first entry for an address is the same in two lists that agree on the
/// addresses before it.
proof fn entry_at_is<A>(s: Seq<CacheEntry<A>>, address: Seq<char>, at: int)
    requires
        0 <= at <= s.len(),
        forall|k: int| 0 <= k < at ==> (#[trigger] s[k]).address@ != address,
        at < s.len() ==> s[at].address@ == address,
    ensures
        entry_at(s, address, 0) == at,
{
    entry_at_is_first(s, address, 0);
    let f = entry_at(s, address, 0);
    if f < at {
        assert(s[f].address@ != address);
    } else if at < f {
        assert(s[at].address@ != address);
    }
}

impl<A: Copy> Resolver<A> {
    /// The answers, oldest first.
    pub closed spec fn entries(&self) -> Seq<CacheEntry<A>> {
        self.cache@
    }

    /// What is remembered of an address at `now`.
    pub open spec fn known(&self, address: Seq<char>, now: u128) -> Option<Seq<A>> {
        fresh(self.entries(), address, now)
    }

    /// Nothing remembered yet.
    pub fn new() -> (r: Resolver<A>)
        ensures
            r.entries().len() == 0,
    {
        Resolver { cache: Vec::new() }
    }

    fn position(&self, address: &str) -> (r: usize)
        ensures
            r == entry_at(self.entries(), address@, 0),
            r <= self.cache@.len(),
    {
        let mut i: usize = 0;
        while i < self.cache.len()
            invariant
                i <= self.cache@.len(),
                entry_at(self.entries(), address@, 0) == entry_at(
                    self.entries(),
                    address@,
                    i as int,
                ),
            decreases self.cache@.len() - i,
        {
            if same(self.cache[i].address.as_str(), address) {
                return i;
            }
            i += 1;
        }
        i
    }

    /// What is remembered of an address, `None` where it has to be looked up.
    pub fn lookup(&self, address: &str, now: u128) -> (r: Option<Vec<A>>)
        ensures
            match r {
                Some(v) => self.known(address@, now) == Some(v@),
                None => self.known(address@, now) is None,
            },
    {
        let at = self.position(address);
        if at < self.cache.len() && now < self.cache[at].expires {
            Some(copy_all(self.cache[at].addrs.as_slice()))
        } else {
            None
        }
    }

    /// Remember an answer that came in at `now`. An address that could not be
    /// looked up is not remembered.
    pub fn remember(&mut self, address: &str, addrs: &[A], now: u128)
        requires
            now + TTL_NANOS <= u128::MAX,
        ensures
            forall|t: u128|
                #![trigger final(self).known(address@, t)]
                final(self).known(address@, t) == if t < now + 5_000_000_000 {
                    Some(addrs@)
                } else {
                    None
                },
            forall|other: Seq<char>, t: u128|
                #![trigger final(self).known(other, t)]
                other != address@ ==> final(self).known(other, t) == old(self).known(other, t),
    {
        let ghost before = self.entries();
        let at = self.position(address);
        let entry = CacheEntry {
            address: address.to_owned(),
            addrs: copy_all(addrs),
            expires: now + TTL_NANOS,
        };
        proof {
            entry_at_is_first(before, address@, 0);
        }
        if at < self.cache.len() {
            self.cache.remove(at);
            self.cache.insert(at, entry);
        } else {
            self.cache.push(entry);
        }
        let ghost after = self.entries();
        proof {
            if at < before.len() {
                assert(after =~= before.update(at as int, entry));
            } else {
                assert(after =~= before.push(entry));
            }
            entry_at_is(after, address@, at as int);
            assert forall|other: Seq<char>, t: u128|
                #![trigger self.known(other, t)]
                other != address@ implies self.known(other, t) == fresh(before, other, t) by {
                entry_at_is_first(before, other, 0);
                let f = entry_at(before, other, 0);
                if f < before.len() {
                    entry_at_is(after, other, f);
                } else {
                    entry_at_is(after, other, after.len() as int);
                }
            }
        }
    }
}

/// A copy of a list.
fn copy_all<A: Copy>(list: &[A]) -> (r: Vec<A>)
    ensures
        r@ == list@,
{
    let mut out: Vec<A> = Vec::new();
    let mut i: usize = 0;
    while i < list.len()
        invariant
            i <= list@.len(),
            out@ == list@.take(i as int),
        decreases list@.len() - i,
    {
        out.push(list[i]);
        i += 1;
        assert(out@ =~= list@.take(i as int));
    }
    assert(out@ =~= list@);
    out
}

} // verus!
