//! What FreeBSD's sysctls say.

use vstd::prelude::*;
use vstd::slice::slice_subrange;
use vstd::utf8::{decode_utf8, valid_utf8};

use crate::text::utf8;

verus! {

/// Bytes without the NULs at their end.
pub open spec fn without_nuls(b: Seq<u8>) -> Seq<u8>
    decreases b.len(),
{
    if b.len() > 0 && b.last() == 0 {
        without_nuls(b.drop_last())
    } else {
        b
    }
}

/// The part of a buffer that was filled.
pub open spec fn filled(buf: Seq<u8>, len: usize) -> Seq<u8> {
    if len <= buf.len() {
        buf.take(len as int)
    } else {
        buf
    }
}

/// What a string sysctl says: `buf` was handed to the kernel, which filled `len`
/// bytes of it. Trailing NULs are stripped; bytes that are no text say nothing.
pub fn sysctl_string(buf: &[u8], len: usize) -> (r: Option<String>)
    ensures
        match r {
            Some(s) => valid_utf8(without_nuls(filled(buf@, len))) && s@ == decode_utf8(
                without_nuls(filled(buf@, len)),
            ),
            None => !valid_utf8(without_nuls(filled(buf@, len))),
        },
{
    let mut n: usize = if len <= buf.len() {
        len
    } else {
        buf.len()
    };
    assert(buf@.take(n as int) =~= filled(buf@, len));
    while n > 0 && buf[n - 1] == 0
        invariant
            n <= buf@.len(),
            without_nuls(buf@.take(n as int)) == without_nuls(filled(buf@, len)),
        decreases n,
    {
        assert(buf@.take(n as int).drop_last() =~= buf@.take(n - 1));
        n -= 1;
    }
    assert(buf@.subrange(0, n as int) =~= buf@.take(n as int));
    match utf8(slice_subrange(buf, 0, n)) {
        Some(s) => Some(s.to_owned()),
        None => None,
    }
}

/// The NULs at the end are dropped, all of them, and nothing else.
pub proof fn only_the_nuls_at_the_end_go(b: Seq<u8>) -> (n: int)
    ensures
        0 <= n <= b.len(),
        without_nuls(b) == b.take(n),
        forall|k: int| n <= k < b.len() ==> #[trigger] b[k] == 0,
        n > 0 ==> b[n - 1] != 0,
    decreases b.len(),
{
    if b.len() > 0 && b.last() == 0 {
        let n = only_the_nuls_at_the_end_go(b.drop_last());
        assert(b.drop_last().take(n) =~= b.take(n));
        assert forall|k: int| n <= k < b.len() implies #[trigger] b[k] == 0 by {
            if k < b.len() - 1 {
                assert(b.drop_last()[k] == b[k]);
            }
        }
        n
    } else {
        assert(b.take(b.len() as int) =~= b);
        b.len() as int
    }
}

/// Only what the kernel filled counts, and no more than there is room for.
pub proof fn only_what_was_filled_counts(buf: Seq<u8>, len: usize)
    ensures
        len <= buf.len() ==> filled(buf, len).len() == len,
        len > buf.len() ==> filled(buf, len) == buf,
        forall|k: int| 0 <= k < filled(buf, len).len() ==> #[trigger] filled(buf, len)[k] == buf[k],
{
}

} // verus!
