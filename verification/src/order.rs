//! Strings in order, and lists sorted by name.

use vstd::prelude::*;

use crate::text::chars;

verus! {

/// Whether one string comes before another: at the first character where they
/// differ the smaller code point comes first, and a prefix before what it
/// begins.
pub open spec fn precedes(a: Seq<char>, b: Seq<char>) -> bool
    decreases a.len(),
{
    if b.len() == 0 {
        false
    } else if a.len() == 0 {
        true
    } else if a[0] != b[0] {
        (a[0] as int) < (b[0] as int)
    } else {
        precedes(a.drop_first(), b.drop_first())
    }
}

/// A code point fits in 32 bits.
pub proof fn code_fits(c: char)
    ensures
        (c as u32) as int == c as int,
{
}

/// The order is total.
pub proof fn order_is_total(a: Seq<char>, b: Seq<char>)
    requires
        !precedes(a, b),
        !precedes(b, a),
    ensures
        a == b,
    decreases a.len(),
{
    if a.len() > 0 && b.len() > 0 {
        order_is_total(a.drop_first(), b.drop_first());
        assert(a =~= seq![a[0]] + a.drop_first());
        assert(b =~= seq![b[0]] + b.drop_first());
    } else {
        assert(a =~= b);
    }
}

/// The order is transitive.
pub proof fn order_is_transitive(a: Seq<char>, b: Seq<char>, c: Seq<char>)
    requires
        precedes(a, b),
        precedes(b, c),
    ensures
        precedes(a, c),
    decreases a.len(),
{
    if a.len() > 0 && a[0] == b[0] && b[0] == c[0] {
        order_is_transitive(a.drop_first(), b.drop_first(), c.drop_first());
    }
}

/// Nothing comes before itself.
pub proof fn order_is_strict(a: Seq<char>)
    ensures
        !precedes(a, a),
    decreases a.len(),
{
    if a.len() > 0 {
        order_is_strict(a.drop_first());
    }
}

/// Whether one string comes before another.
pub fn less(a: &str, b: &str) -> (r: bool)
    ensures
        r == precedes(a@, b@),
{
    let p = chars(a);
    let q = chars(b);
    let mut i: usize = 0;
    assert(p@.skip(0) =~= p@);
    assert(q@.skip(0) =~= q@);
    while i < p.len() && i < q.len()
        invariant
            p@ == a@,
            q@ == b@,
            i <= p@.len(),
            i <= q@.len(),
            precedes(a@, b@) == precedes(p@.skip(i as int), q@.skip(i as int)),
        decreases p@.len() - i,
    {
        if p[i] != q[i] {
            let x: char = p[i];
            let y: char = q[i];
            proof {
                code_fits(x);
                code_fits(y);
            }
            return (x as u32) < (y as u32);
        }
        assert(p@.skip(i as int).drop_first() =~= p@.skip(i + 1));
        assert(q@.skip(i as int).drop_first() =~= q@.skip(i + 1));
        i += 1;
    }
    i < q.len()
}

/// Something with a name to sort by.
pub trait Named {
    /// The name.
    spec fn key(&self) -> Seq<char>;

    /// The name.
    fn name(&self) -> (r: &str)
        ensures
            r@ == self.key(),
    ;
}

/// No item stands behind one whose name comes later.
pub open spec fn in_order<T: Named>(s: Seq<T>) -> bool {
    forall|i: int, j: int|
        0 <= i < j < s.len() ==> !precedes((#[trigger] s[j]).key(), (#[trigger] s[i]).key())
}

/// The items under one name.
pub open spec fn under<T: Named>(s: Seq<T>, name: Seq<char>) -> Seq<T> {
    s.filter(|x: T| x.key() == name)
}

/// `r` is `s` sorted by name: in order, and under every name the same items in
/// the same order.
pub open spec fn sorted_from<T: Named>(r: Seq<T>, s: Seq<T>) -> bool {
    &&& r.len() == s.len()
    &&& in_order(r)
    &&& forall|name: Seq<char>| #[trigger] under(r, name) == under(s, name)
}

/// Putting one item in before those that come later keeps the order, and adds
/// it behind the others of its name.
proof fn put_in<T: Named>(s: Seq<T>, at: int, x: T)
    requires
        in_order(s),
        0 <= at <= s.len(),
        forall|k: int| 0 <= k < at ==> !precedes(x.key(), (#[trigger] s[k]).key()),
        at < s.len() ==> precedes(x.key(), s[at].key()),
    ensures
        in_order(s.insert(at, x)),
        forall|name: Seq<char>| #[trigger]
            under(s.insert(at, x), name) == under(s.push(x), name),
{
    let r = s.insert(at, x);
    let front = s.take(at);
    let back = s.skip(at);
    assert forall|k: int| at <= k < s.len() implies precedes(x.key(), (#[trigger] s[k]).key()) by {
        if k > at {
            assert(!precedes(s[k].key(), s[at].key()));
            if !precedes(x.key(), s[k].key()) {
                if precedes(s[k].key(), x.key()) {
                    order_is_transitive(s[k].key(), x.key(), s[at].key());
                } else {
                    order_is_total(s[k].key(), x.key());
                }
            }
        }
    }
    assert forall|i: int, j: int| 0 <= i < j < r.len() implies !precedes(
        (#[trigger] r[j]).key(),
        (#[trigger] r[i]).key(),
    ) by {
        if i < at && j == at {
            assert(r[i] == s[i]);
        } else if i == at {
            assert(r[j] == s[j - 1]);
            if precedes(s[j - 1].key(), x.key()) {
                order_is_transitive(x.key(), s[j - 1].key(), x.key());
                order_is_strict(x.key());
            }
        } else {
            let i2 = if i < at {
                i
            } else {
                i - 1
            };
            let j2 = if j < at {
                j
            } else {
                j - 1
            };
            assert(r[i] == s[i2] && r[j] == s[j2]);
        }
    }
    assert forall|name: Seq<char>| #[trigger]
        under(r, name) == under(s.push(x), name) by {
        let p = |y: T| y.key() == name;
        assert(r =~= front + seq![x] + back);
        assert(s.push(x) =~= front + back + seq![x]);
        Seq::filter_distributes_over_add(front + seq![x], back, p);
        Seq::filter_distributes_over_add(front, seq![x], p);
        Seq::filter_distributes_over_add(front + back, seq![x], p);
        Seq::filter_distributes_over_add(front, back, p);
        if x.key() == name {
            assert forall|k: int| 0 <= k < back.len() implies !p(#[trigger] back[k]) by {
                assert(back[k] == s[at + k]);
                order_is_strict(x.key());
            }
            filter_of_none(back, p);
            assert(under(r, name) =~= under(s.push(x), name));
        } else {
            filter_of_none(seq![x], p);
            assert(under(r, name) =~= under(s.push(x), name));
        }
    }
}

/// Filtering for what is not there leaves nothing.
proof fn filter_of_none<T>(s: Seq<T>, p: spec_fn(T) -> bool)
    requires
        forall|k: int| 0 <= k < s.len() ==> !p(#[trigger] s[k]),
    ensures
        s.filter(p) == Seq::<T>::empty(),
    decreases s.len(),
{
    reveal(Seq::filter);
    if s.len() > 0 {
        filter_of_none(s.drop_last(), p);
    }
}

/// Sorting loses nothing and adds nothing.
pub proof fn sorting_keeps_the_items<T: Named>(r: Seq<T>, s: Seq<T>, x: T)
    requires
        sorted_from(r, s),
    ensures
        r.contains(x) <==> s.contains(x),
{
    let p = |y: T| y.key() == x.key();
    assert(under(r, x.key()) == under(s, x.key()));
    if r.contains(x) {
        let i = choose|i: int| 0 <= i < r.len() && r[i] == x;
        r.lemma_filter_contains(p, i);
        s.lemma_filter_contains_rev(p, x);
    }
    if s.contains(x) {
        let i = choose|i: int| 0 <= i < s.len() && s[i] == x;
        s.lemma_filter_contains(p, i);
        r.lemma_filter_contains_rev(p, x);
    }
}

/// Sort by name. Items of one name keep their order.
pub fn sort_by_name<T: Named>(items: Vec<T>) -> (r: Vec<T>)
    ensures
        sorted_from(r@, items@),
{
    let ghost all = items@;
    let mut out: Vec<T> = Vec::new();
    assert(all.take(0) =~= Seq::<T>::empty());
    for x in it: items
        invariant
            it.seq() == all,
            sorted_from(out@, all.take(it.index() as int)),
    {
        let mut at: usize = 0;
        while at < out.len() && !less(x.name(), out[at].name())
            invariant
                at <= out@.len(),
                forall|k: int|
                    0 <= k < at ==> !precedes(x.key(), (#[trigger] out@[k]).key()),
            decreases out@.len() - at,
        {
            at += 1;
        }
        proof {
            put_in(out@, at as int, x);
            let sofar = all.take(it.index() as int);
            assert(all.take(it.index() + 1) =~= sofar.push(x));
            assert forall|name: Seq<char>| #[trigger]
                under(out@.insert(at as int, x), name) == under(sofar.push(x), name) by {
                reveal(Seq::filter);
                assert(under(out@.insert(at as int, x), name) == under(out@.push(x), name));
                assert(out@.push(x).drop_last() =~= out@);
                assert(sofar.push(x).drop_last() =~= sofar);
                assert(under(out@, name) == under(sofar, name));
            }
        }
        out.insert(at, x);
    }
    assert(all.take(all.len() as int) =~= all);
    out
}

/// One string comes before another where, behind what they share, it ends or has the
/// smaller character.
pub proof fn the_first_difference_decides(a: Seq<char>, b: Seq<char>)
    ensures
        precedes(a, b) <==> exists|k: int|
            0 <= k <= a.len() && k < b.len() && #[trigger] a.take(k) == b.take(k) && (k == a.len()
                || (a[k] as int) < (b[k] as int)),
    decreases a.len(),
{
    if b.len() == 0 {
    } else if a.len() == 0 {
        assert(a.take(0) =~= b.take(0));
    } else if a[0] != b[0] {
        assert(a.take(0) =~= b.take(0));
        assert forall|k: int| 0 < k <= a.len() && k < b.len() implies #[trigger] a.take(k)
            != b.take(k) by {
            assert(a.take(k)[0] != b.take(k)[0]);
        }
    } else {
        let (x, y) = (a.drop_first(), b.drop_first());
        the_first_difference_decides(x, y);
        if precedes(x, y) {
            let k = choose|k: int|
                0 <= k <= x.len() && k < y.len() && #[trigger] x.take(k) == y.take(k) && (k
                    == x.len() || (x[k] as int) < (y[k] as int));
            assert(a.take(k + 1) =~= seq![a[0]] + x.take(k));
            assert(b.take(k + 1) =~= seq![b[0]] + y.take(k));
            assert(a.take(k + 1) == b.take(k + 1));
        }
        if exists|k: int|
            0 <= k <= a.len() && k < b.len() && #[trigger] a.take(k) == b.take(k) && (k == a.len()
                || (a[k] as int) < (b[k] as int)) {
            let k = choose|k: int|
                0 <= k <= a.len() && k < b.len() && #[trigger] a.take(k) == b.take(k) && (k
                    == a.len() || (a[k] as int) < (b[k] as int));
            assert(k > 0);
            assert(x.take(k - 1) =~= a.take(k).drop_first());
            assert(y.take(k - 1) =~= b.take(k).drop_first());
            assert(x.take(k - 1) == y.take(k - 1));
        }
    }
}

/// A part of a list that a test picks holds what the list holds and the test lets
/// through.
pub proof fn a_pick_holds_what_passes<A>(s: Seq<A>, p: spec_fn(A) -> bool, x: A)
    ensures
        s.filter(p).contains(x) <==> s.contains(x) && p(x),
    decreases s.len(),
{
    reveal(Seq::filter);
    if s.len() > 0 {
        let front = s.drop_last();
        a_pick_holds_what_passes(front, p, x);
        let kept = front.filter(p);
        assert(s =~= front.push(s.last()));
        push_holds(front, s.last(), x);
        push_holds(kept, s.last(), x);
    }
}

proof fn push_holds<A>(s: Seq<A>, last: A, x: A)
    ensures
        s.push(last).contains(x) <==> s.contains(x) || x == last,
{
    let t = s.push(last);
    assert(t[s.len() as int] == last);
    if s.contains(x) {
        let k = choose|k: int| 0 <= k < s.len() && s[k] == x;
        assert(t[k] == x);
    }
    if t.contains(x) {
        let k = choose|k: int| 0 <= k < t.len() && t[k] == x;
        if k < s.len() {
            assert(s[k] == x);
        }
    }
}

/// A sorted list goes up: of two items the earlier has the same name or one that comes
/// before.
pub proof fn a_sorted_list_goes_up<T: Named>(r: Seq<T>, s: Seq<T>, i: int, j: int)
    requires
        sorted_from(r, s),
        0 <= i < j < r.len(),
    ensures
        r[i].key() == r[j].key() || precedes(r[i].key(), r[j].key()),
        r.len() == s.len(),
{
    if !precedes(r[i].key(), r[j].key()) {
        order_is_total(r[i].key(), r[j].key());
    }
}

} // verus!
