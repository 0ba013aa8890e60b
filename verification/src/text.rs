//! Strings as sequences of characters.
//!
//! Everything the library parses or prints goes through here. A string is
//! modelled by the sequence of its characters; parsers work on slices of
//! characters, printers append to a `String`.

use vstd::prelude::*;
use vstd::slice::slice_subrange;

verus! {

broadcast use vstd::seq_lib::group_seq_properties;

/// `String::push` appends one character.
pub assume_specification[ String::push ](s: &mut String, c: char)
    ensures
        final(s)@ == old(s)@.push(c),
;

/// `String::push_str` appends another string.
pub assume_specification[ String::push_str ](s: &mut String, other: &str)
    ensures
        final(s)@ == old(s)@ + other@,
;

/// `core::str::from_utf8`: the text, when the bytes are valid UTF-8.
#[verifier::external_body]
pub(crate) fn utf8(b: &[u8]) -> (r: Option<&str>)
    ensures
        match r {
            Some(s) => vstd::utf8::valid_utf8(b@) && s@ == vstd::utf8::decode_utf8(b@),
            None => !vstd::utf8::valid_utf8(b@),
        },
{
    core::str::from_utf8(b).ok()
}

/// The characters of a string.
pub fn chars(s: &str) -> (r: Vec<char>)
    ensures
        r@ == s@,
{
    let mut out: Vec<char> = Vec::new();
    for c in it: s.chars()
        invariant
            out@ == s@.take(it.index() as int),
            it.seq() == s@,
            it.index() <= s@.len(),
    {
        out.push(c);
        assert(out@ =~= s@.take(it.index() + 1));
    }
    assert(out@ =~= s@);
    out
}

/// The string that holds these characters.
pub fn text(s: &[char]) -> (r: String)
    ensures
        r@ == s@,
{
    let mut out = String::new();
    let mut i: usize = 0;
    while i < s.len()
        invariant
            i <= s.len(),
            out@ == s@.take(i as int),
        decreases s.len() - i,
    {
        out.push(s[i]);
        i += 1;
        assert(out@ =~= s@.take(i as int));
    }
    assert(out@ =~= s@);
    out
}

/// An owned copy of a string.
pub fn copy(s: &str) -> (r: String)
    ensures
        r@ == s@,
{
    s.to_owned()
}

/// Two strings one after the other.
pub fn cat2(a: &str, b: &str) -> (r: String)
    ensures
        r@ == a@ + b@,
{
    let mut out = a.to_owned();
    out.push_str(b);
    out
}

/// Three strings one after the other.
pub fn cat3(a: &str, b: &str, c: &str) -> (r: String)
    ensures
        r@ == a@ + b@ + c@,
{
    let mut out = cat2(a, b);
    out.push_str(c);
    out
}

/// Four strings one after the other.
pub fn cat4(a: &str, b: &str, c: &str, d: &str) -> (r: String)
    ensures
        r@ == a@ + b@ + c@ + d@,
{
    let mut out = cat3(a, b, c);
    out.push_str(d);
    out
}

/// Five strings one after the other.
pub fn cat5(a: &str, b: &str, c: &str, d: &str, e: &str) -> (r: String)
    ensures
        r@ == a@ + b@ + c@ + d@ + e@,
{
    let mut out = cat4(a, b, c, d);
    out.push_str(e);
    out
}

/// Whether two slices hold the same characters.
pub fn same_chars(a: &[char], b: &[char]) -> (r: bool)
    ensures
        r == (a@ == b@),
{
    if a.len() != b.len() {
        return false;
    }
    let mut i: usize = 0;
    while i < a.len()
        invariant
            i <= a.len(),
            a.len() == b.len(),
            forall|k: int| 0 <= k < i ==> a@[k] == b@[k],
        decreases a.len() - i,
    {
        if a[i] != b[i] {
            return false;
        }
        i += 1;
    }
    assert(a@ =~= b@);
    true
}

/// Whether a slice spells a string.
pub fn is(a: &[char], b: &str) -> (r: bool)
    ensures
        r == (a@ == b@),
{
    let b = chars(b);
    same_chars(a, b.as_slice())
}

/// Whether two strings are the same.
pub fn same(a: &str, b: &str) -> (r: bool)
    ensures
        r == (a@ == b@),
{
    let a = chars(a);
    let b = chars(b);
    same_chars(a.as_slice(), b.as_slice())
}

/// A run of a slice.
pub fn part(s: &[char], from: usize, to: usize) -> (r: &[char])
    requires
        from <= to <= s@.len(),
    ensures
        r@ == s@.subrange(from as int, to as int),
{
    slice_subrange(s, from, to)
}

// ---- searching -----------------------------------------------------------

/// Where a character first stands at or after position `i`, or the length.
pub open spec fn first_at(s: Seq<char>, c: char, i: int) -> int
    decreases s.len() - i,
{
    if i >= s.len() || i < 0 {
        s.len() as int
    } else if s[i] == c {
        i
    } else {
        first_at(s, c, i + 1)
    }
}

/// What stands before the first `c`, all of it when there is none.
pub open spec fn before(s: Seq<char>, c: char) -> Seq<char> {
    s.take(first_at(s, c, 0))
}

/// What stands after the first `c`.
pub open spec fn after(s: Seq<char>, c: char) -> Seq<char> {
    s.skip(first_at(s, c, 0) + 1)
}

/// Whether a string begins with another.
pub open spec fn begins(s: Seq<char>, p: Seq<char>) -> bool {
    p.len() <= s.len() && s.take(p.len() as int) == p
}

/// Whether a string ends with another.
pub open spec fn ends(s: Seq<char>, p: Seq<char>) -> bool {
    p.len() <= s.len() && s.skip(s.len() - p.len()) == p
}

/// Whether another string stands at position `i`.
pub open spec fn stands_at(s: Seq<char>, p: Seq<char>, i: int) -> bool {
    0 <= i && i + p.len() <= s.len() && s.subrange(i, i + p.len()) == p
}

/// Whether a string stands somewhere inside another.
pub open spec fn holds(s: Seq<char>, p: Seq<char>) -> bool {
    exists|i: int| stands_at(s, p, i)
}

/// `first_at` finds a position: nothing before it is `c`.
pub proof fn first_at_is_first(s: Seq<char>, c: char, i: int)
    requires
        0 <= i <= s.len(),
    ensures
        i <= first_at(s, c, i) <= s.len(),
        first_at(s, c, i) < s.len() ==> s[first_at(s, c, i)] == c,
        forall|k: int| i <= k < first_at(s, c, i) ==> s[k] != c,
    decreases s.len() - i,
{
    if i < s.len() && s[i] != c {
        first_at_is_first(s, c, i + 1);
    }
}

/// `first_at` from the front is any position that holds `c` with none before it.
pub proof fn first_at_is(s: Seq<char>, c: char, at: int)
    requires
        0 <= at <= s.len(),
        forall|k: int| 0 <= k < at ==> s[k] != c,
        at < s.len() ==> s[at] == c,
    ensures
        first_at(s, c, 0) == at,
{
    first_at_is_first(s, c, 0);
    let f = first_at(s, c, 0);
    if f < at {
        assert(s[f] != c);
    } else if at < f {
        assert(s[at] != c);
    }
}

/// Where a character first stands, or the length.
pub fn find(s: &[char], c: char) -> (r: usize)
    ensures
        r == first_at(s@, c, 0),
        r <= s@.len(),
{
    let mut i: usize = 0;
    while i < s.len() && s[i] != c
        invariant
            i <= s.len(),
            first_at(s@, c, 0) == first_at(s@, c, i as int),
        decreases s.len() - i,
    {
        i += 1;
    }
    i
}

/// Split at the first `c`, when there is one.
pub fn split_once(s: &[char], c: char) -> (r: Option<(&[char], &[char])>)
    ensures
        match r {
            Some((a, b)) => s@.contains(c) && a@ == before(s@, c) && b@ == after(s@, c),
            None => !s@.contains(c),
        },
{
    let at = find(s, c);
    proof {
        first_at_is_first(s@, c, 0);
    }
    if at < s.len() {
        assert(s@[at as int] == c);
        let a = part(s, 0, at);
        let b = part(s, at + 1, s.len());
        assert(a@ =~= before(s@, c));
        assert(b@ =~= after(s@, c));
        Some((a, b))
    } else {
        None
    }
}

/// Whether `p` stands at the front of `s`.
pub fn starts_with(s: &[char], p: &str) -> (r: bool)
    ensures
        r == begins(s@, p@),
{
    let p = chars(p);
    if p.len() > s.len() {
        return false;
    }
    let front = part(s, 0, p.len());
    assert(front@ =~= s@.take(p@.len() as int));
    same_chars(front, p.as_slice())
}

/// Whether `p` stands at the back of `s`.
pub fn ends_with(s: &[char], p: &str) -> (r: bool)
    ensures
        r == ends(s@, p@),
{
    let p = chars(p);
    if p.len() > s.len() {
        return false;
    }
    let back = part(s, s.len() - p.len(), s.len());
    assert(back@ =~= s@.skip(s@.len() - p@.len()));
    same_chars(back, p.as_slice())
}

/// What follows `p`, when `s` begins with it.
pub fn strip_prefix<'a>(s: &'a [char], p: &str) -> (r: Option<&'a [char]>)
    ensures
        match r {
            Some(rest) => begins(s@, p@) && rest@ == s@.skip(p@.len() as int),
            None => !begins(s@, p@),
        },
{
    if starts_with(s, p) {
        let n = chars(p).len();
        let rest = part(s, n, s.len());
        assert(rest@ =~= s@.skip(p@.len() as int));
        Some(rest)
    } else {
        None
    }
}

/// Whether `p` stands somewhere inside `s`.
pub fn contains(s: &[char], p: &[char]) -> (r: bool)
    ensures
        r == holds(s@, p@),
{
    if p.len() > s.len() {
        return false;
    }
    let mut i: usize = s.len() - p.len();
    if same_chars(part(s, i, i + p.len()), p) {
        assert(stands_at(s@, p@, i as int));
        return true;
    }
    while i > 0
        invariant
            p.len() <= s.len(),
            i <= s.len() - p.len(),
            forall|k: int| i <= k ==> !stands_at(s@, p@, k),
        decreases i,
    {
        i -= 1;
        if same_chars(part(s, i, i + p.len()), p) {
            assert(stands_at(s@, p@, i as int));
            return true;
        }
    }
    false
}

/// Whether one string stands somewhere inside another.
pub fn contains_str(s: &str, p: &str) -> (r: bool)
    ensures
        r == holds(s@, p@),
{
    let s = chars(s);
    let p = chars(p);
    contains(s.as_slice(), p.as_slice())
}

// ---- case ----------------------------------------------------------------

/// A character with its ASCII capital made small.
pub open spec fn small(c: char) -> char {
    if 65 <= c as u32 <= 90 {
        (c as u32 + 32) as char
    } else {
        c
    }
}

/// A text with its ASCII capitals made small.
pub open spec fn lower(s: Seq<char>) -> Seq<char> {
    s.map_values(|c: char| small(c))
}

/// Make the ASCII capitals of a text small.
pub fn to_lower(s: &[char]) -> (r: String)
    ensures
        r@ == lower(s@),
{
    let mut out = String::new();
    let mut i: usize = 0;
    while i < s.len()
        invariant
            i <= s.len(),
            out@ == lower(s@.take(i as int)),
        decreases s.len() - i,
    {
        let c: char = s[i];
        let u: u32 = c as u32;
        if 65 <= u && u <= 90 {
            out.push((u as u8 + 32) as char);
        } else {
            out.push(c);
        }
        assert(s@.take(i + 1) =~= s@.take(i as int).push(c));
        assert(out@ =~= lower(s@.take(i + 1)));
        i += 1;
    }
    assert(s@.take(i as int) =~= s@);
    out
}

// ---- white space ---------------------------------------------------------

/// The characters with the Unicode property White_Space.
pub open spec fn is_space(c: char) -> bool {
    let u = c as u32;
    ||| 0x09 <= u <= 0x0D
    ||| u == 0x20
    ||| u == 0x85
    ||| u == 0xA0
    ||| u == 0x1680
    ||| 0x2000 <= u <= 0x200A
    ||| u == 0x2028
    ||| u == 0x2029
    ||| u == 0x202F
    ||| u == 0x205F
    ||| u == 0x3000
}

/// Whether a character is white space.
pub fn space(c: char) -> (r: bool)
    ensures
        r == is_space(c),
{
    let u: u32 = c as u32;
    (0x09 <= u && u <= 0x0D) || u == 0x20 || u == 0x85 || u == 0xA0 || u == 0x1680 || (0x2000 <= u
        && u <= 0x200A) || u == 0x2028 || u == 0x2029 || u == 0x202F || u == 0x205F || u == 0x3000
}

/// A string without the white space at its front.
pub open spec fn trimmed_front(s: Seq<char>) -> Seq<char>
    decreases s.len(),
{
    if s.len() > 0 && is_space(s[0]) {
        trimmed_front(s.drop_first())
    } else {
        s
    }
}

/// A string without the white space at its back.
pub open spec fn trimmed_back(s: Seq<char>) -> Seq<char>
    decreases s.len(),
{
    if s.len() > 0 && is_space(s.last()) {
        trimmed_back(s.drop_last())
    } else {
        s
    }
}

/// A string without the white space at either end.
pub open spec fn trimmed(s: Seq<char>) -> Seq<char> {
    trimmed_back(trimmed_front(s))
}

/// Drop the white space at the front.
pub fn trim_start(s: &[char]) -> (r: &[char])
    ensures
        r@ == trimmed_front(s@),
        r@.len() <= s@.len(),
        r@ == s@.skip(s@.len() - r@.len()),
{
    let mut i: usize = 0;
    assert(s@.skip(0) =~= s@);
    while i < s.len() && space(s[i])
        invariant
            i <= s.len(),
            trimmed_front(s@.skip(i as int)) == trimmed_front(s@),
        decreases s.len() - i,
    {
        assert(s@.skip(i as int).drop_first() =~= s@.skip(i + 1));
        i += 1;
    }
    let r = part(s, i, s.len());
    assert(r@ =~= s@.skip(i as int));
    r
}

/// Drop the white space at the back.
pub fn trim_end(s: &[char]) -> (r: &[char])
    ensures
        r@ == trimmed_back(s@),
{
    let mut n: usize = s.len();
    assert(s@.take(n as int) =~= s@);
    while n > 0 && space(s[n - 1])
        invariant
            n <= s.len(),
            trimmed_back(s@.take(n as int)) == trimmed_back(s@),
        decreases n,
    {
        assert(s@.take(n as int).drop_last() =~= s@.take(n - 1));
        n -= 1;
    }
    let r = part(s, 0, n);
    assert(r@ =~= s@.take(n as int));
    r
}

/// Drop the white space at both ends.
pub fn trim(s: &[char]) -> (r: &[char])
    ensures
        r@ == trimmed(s@),
{
    trim_end(trim_start(s))
}

// ---- fields --------------------------------------------------------------

/// The fields between the separators, one more than there are separators.
pub open spec fn fields(s: Seq<char>, sep: char) -> Seq<Seq<char>>
    decreases s.len(),
{
    let at = first_at(s, sep, 0);
    if 0 <= at < s.len() {
        seq![s.take(at)] + fields(s.skip(at + 1), sep)
    } else {
        seq![s]
    }
}

/// A list of strings as their views.
pub open spec fn views(v: Seq<String>) -> Seq<Seq<char>> {
    v.map_values(|s: String| s@)
}

/// A list of slices as their views.
pub open spec fn slice_views(v: Seq<&[char]>) -> Seq<Seq<char>> {
    v.map_values(|s: &[char]| s@)
}

/// Split at every `sep`.
pub fn split(s: &[char], sep: char) -> (r: Vec<&[char]>)
    ensures
        slice_views(r@) == fields(s@, sep),
        r@.len() >= 1,
{
    let mut out: Vec<&[char]> = Vec::new();
    let mut rest: &[char] = s;
    assert(slice_views(out@) + fields(rest@, sep) =~= fields(s@, sep));
    loop
        invariant
            slice_views(out@) + fields(rest@, sep) == fields(s@, sep),
        decreases rest@.len(),
    {
        let at = find(rest, sep);
        let ghost before_push = out@;
        if at < rest.len() {
            let head = part(rest, 0, at);
            let tail = part(rest, at + 1, rest.len());
            assert(head@ =~= rest@.take(at as int));
            assert(tail@ =~= rest@.skip(at + 1));
            out.push(head);
            assert(slice_views(out@) =~= slice_views(before_push).push(head@));
            assert(slice_views(out@) + fields(tail@, sep) =~= slice_views(before_push) + fields(
                rest@,
                sep,
            ));
            rest = tail;
        } else {
            out.push(rest);
            assert(slice_views(out@) =~= slice_views(before_push).push(rest@));
            assert(slice_views(out@) =~= slice_views(before_push) + fields(rest@, sep));
            return out;
        }
    }
}

/// The lines of a text. A final line break opens no line of its own, and a
/// carriage return before a break belongs to the break.
pub open spec fn lines_of(s: Seq<char>) -> Seq<Seq<char>>
    decreases s.len(),
{
    if s.len() == 0 {
        Seq::empty()
    } else {
        let at = first_at(s, '\n', 0);
        if 0 <= at < s.len() {
            seq![without_return(s.take(at))] + lines_of(s.skip(at + 1))
        } else {
            seq![s]
        }
    }
}

/// A line without the carriage return that ends it.
pub open spec fn without_return(s: Seq<char>) -> Seq<char> {
    if s.len() > 0 && s.last() == '\r' {
        s.drop_last()
    } else {
        s
    }
}

/// The lines of a text.
pub fn lines(s: &[char]) -> (r: Vec<&[char]>)
    ensures
        slice_views(r@) == lines_of(s@),
{
    let mut out: Vec<&[char]> = Vec::new();
    let mut rest: &[char] = s;
    assert(slice_views(out@) + lines_of(rest@) =~= lines_of(s@));
    while rest.len() > 0
        invariant
            slice_views(out@) + lines_of(rest@) == lines_of(s@),
        decreases rest@.len(),
    {
        let at = find(rest, '\n');
        let ghost before_push = out@;
        if at < rest.len() {
            let line = part(rest, 0, at);
            let tail = part(rest, at + 1, rest.len());
            assert(line@ =~= rest@.take(at as int));
            assert(tail@ =~= rest@.skip(at + 1));
            let head = if line.len() > 0 && line[line.len() - 1] == '\r' {
                let short = part(line, 0, line.len() - 1);
                assert(short@ =~= line@.drop_last());
                short
            } else {
                line
            };
            assert(head@ == without_return(rest@.take(at as int)));
            out.push(head);
            assert(slice_views(out@) =~= slice_views(before_push).push(head@));
            assert(slice_views(out@) + lines_of(tail@) =~= slice_views(before_push) + lines_of(
                rest@,
            ));
            rest = tail;
        } else {
            out.push(rest);
            assert(slice_views(out@) =~= slice_views(before_push).push(rest@));
            assert(slice_views(out@) =~= slice_views(before_push) + lines_of(rest@));
            rest = part(rest, rest.len(), rest.len());
            assert(rest@ =~= Seq::<char>::empty());
            assert(slice_views(out@) + lines_of(rest@) =~= slice_views(out@));
        }
    }
    assert(slice_views(out@) + lines_of(rest@) =~= slice_views(out@));
    out
}

/// Where the first word ends: the first white space, or the length.
pub open spec fn word_end(s: Seq<char>) -> int
    decreases s.len(),
{
    if s.len() == 0 || is_space(s[0]) {
        0
    } else {
        1 + word_end(s.drop_first())
    }
}

/// `word_end` is a position inside the string, past at least one character
/// when the string begins with a word.
pub proof fn word_end_bounds(s: Seq<char>)
    ensures
        0 <= word_end(s) <= s.len(),
        s.len() > 0 && !is_space(s[0]) ==> word_end(s) > 0,
    decreases s.len(),
{
    if s.len() > 0 && !is_space(s[0]) {
        word_end_bounds(s.drop_first());
    }
}

/// Dropping white space at the front makes nothing longer.
pub proof fn trimmed_front_shrinks(s: Seq<char>)
    ensures
        trimmed_front(s).len() <= s.len(),
        trimmed_front(s).len() > 0 ==> !is_space(trimmed_front(s)[0]),
    decreases s.len(),
{
    if s.len() > 0 && is_space(s[0]) {
        trimmed_front_shrinks(s.drop_first());
    }
}

/// The words of a text: what stands between runs of white space.
pub open spec fn words_of(s: Seq<char>) -> Seq<Seq<char>>
    decreases s.len(),
    via words_of_decreases
{
    let t = trimmed_front(s);
    if t.len() == 0 {
        Seq::empty()
    } else {
        seq![t.take(word_end(t))] + words_of(t.skip(word_end(t)))
    }
}

#[via_fn]
proof fn words_of_decreases(s: Seq<char>) {
    let t = trimmed_front(s);
    trimmed_front_shrinks(s);
    word_end_bounds(t);
}

/// The words of a text.
pub fn words(s: &[char]) -> (r: Vec<&[char]>)
    ensures
        slice_views(r@) == words_of(s@),
{
    let mut out: Vec<&[char]> = Vec::new();
    let mut rest: &[char] = trim_start(s);
    assert(slice_views(out@) + words_of(s@) =~= words_of(s@));
    proof {
        trimmed_front_shrinks(s@);
        trimmed_front_idempotent(s@);
    }
    while rest.len() > 0
        invariant
            slice_views(out@) + words_of(rest@) == words_of(s@),
            rest@ == trimmed_front(rest@),
            rest@.len() > 0 ==> !is_space(rest@[0]),
        decreases rest@.len(),
    {
        let ghost before_push = out@;
        let mut n: usize = 0;
        assert(rest@.skip(0) =~= rest@);
        while n < rest.len() && !space(rest[n])
            invariant
                n <= rest.len(),
                n + word_end(rest@.skip(n as int)) == word_end(rest@),
            decreases rest.len() - n,
        {
            assert(rest@.skip(n as int).drop_first() =~= rest@.skip(n + 1));
            n += 1;
        }
        let head = part(rest, 0, n);
        let tail = part(rest, n, rest.len());
        assert(head@ =~= rest@.take(n as int));
        assert(tail@ =~= rest@.skip(n as int));
        out.push(head);
        assert(slice_views(out@) =~= slice_views(before_push).push(head@));
        assert(slice_views(out@) + words_of(tail@) =~= slice_views(before_push) + words_of(rest@));
        proof {
            word_end_bounds(rest@);
            trimmed_front_shrinks(tail@);
            trimmed_front_idempotent(tail@);
        }
        rest = trim_start(tail);
    }
    assert(words_of(rest@) =~= Seq::<Seq<char>>::empty());
    assert(slice_views(out@) + words_of(rest@) =~= slice_views(out@));
    out
}

/// Trimming the front twice trims it once, and does not change the words.
pub proof fn trimmed_front_idempotent(s: Seq<char>)
    ensures
        trimmed_front(trimmed_front(s)) == trimmed_front(s),
        words_of(trimmed_front(s)) == words_of(s),
    decreases s.len(),
{
    trimmed_front_shrinks(s);
}

/// A field ends at its separator.
pub proof fn cut(a: Seq<char>, c: char, rest: Seq<char>)
    requires
        !a.contains(c),
    ensures
        (a + seq![c] + rest).contains(c),
        before(a + seq![c] + rest, c) == a,
        after(a + seq![c] + rest, c) == rest,
        fields(a + seq![c] + rest, c) == seq![a] + fields(rest, c),
{
    let s = a + seq![c] + rest;
    assert(s[a.len() as int] == c);
    assert forall|k: int| 0 <= k < a.len() implies s[k] != c by {
        assert(s[k] == a[k]);
        assert(a.contains(a[k]));
    }
    first_at_is(s, c, a.len() as int);
    assert(before(s, c) =~= a);
    assert(after(s, c) =~= rest);
    assert(s.take(a.len() as int) =~= a);
    assert(s.skip((a.len() + 1) as int) =~= rest);
}

/// A text without the separator is one field.
pub proof fn one_field(a: Seq<char>, c: char)
    requires
        !a.contains(c),
    ensures
        fields(a, c) == seq![a],
{
    assert forall|k: int| 0 <= k < a.len() implies a[k] != c by {
        assert(a.contains(a[k]));
    }
    first_at_is(a, c, a.len() as int);
}

/// A text is what stands before its first separator, the separator, and what
/// stands after it.
pub proof fn rejoin(s: Seq<char>, c: char)
    requires
        s.contains(c),
    ensures
        s == before(s, c) + seq![c] + after(s, c),
        !before(s, c).contains(c),
{
    first_at_is_first(s, c, 0);
    let f = first_at(s, c, 0);
    let at = choose|i: int| 0 <= i < s.len() && s[i] == c;
    assert(f < s.len()) by {
        if f >= s.len() {
            assert(s[at] != c);
        }
    }
    assert(s =~= before(s, c) + seq![c] + after(s, c));
    assert forall|k: int| 0 <= k < before(s, c).len() implies before(s, c)[k] != c by {
        assert(s[k] != c);
    }
}

// ---- joining -------------------------------------------------------------

/// The parts with `sep` between them.
pub open spec fn joined(parts: Seq<Seq<char>>, sep: Seq<char>) -> Seq<char>
    decreases parts.len(),
{
    if parts.len() == 0 {
        Seq::empty()
    } else if parts.len() == 1 {
        parts[0]
    } else {
        joined(parts.drop_last(), sep) + sep + parts.last()
    }
}

/// Join strings with a separator between them.
pub fn join(parts: &[String], sep: &str) -> (r: String)
    ensures
        r@ == joined(views(parts@), sep@),
{
    let mut out = String::new();
    let mut i: usize = 0;
    assert(views(parts@).take(0) =~= Seq::<Seq<char>>::empty());
    while i < parts.len()
        invariant
            i <= parts.len(),
            out@ == joined(views(parts@).take(i as int), sep@),
        decreases parts.len() - i,
    {
        if i > 0 {
            out.push_str(sep);
        }
        out.push_str(parts[i].as_str());
        proof {
            let now = views(parts@).take(i + 1);
            assert(now.drop_last() =~= views(parts@).take(i as int));
            assert(now.last() == parts@[i as int]@);
            if i == 0 {
                assert(out@ =~= now[0]);
            }
        }
        i += 1;
    }
    assert(views(parts@).take(i as int) =~= views(parts@));
    out
}

// ---- lists of strings ----------------------------------------------------

/// Whether a string is in a list.
pub fn listed(list: &[String], s: &str) -> (r: bool)
    ensures
        r == views(list@).contains(s@),
{
    let mut i: usize = 0;
    while i < list.len()
        invariant
            i <= list.len(),
            forall|k: int| 0 <= k < i ==> views(list@)[k] != s@,
        decreases list.len() - i,
    {
        if same(list[i].as_str(), s) {
            assert(views(list@)[i as int] == s@);
            return true;
        }
        i += 1;
    }
    false
}

/// Whether two lists hold the same strings, in the same order.
pub fn same_list(a: &[String], b: &[String]) -> (r: bool)
    ensures
        r == (views(a@) == views(b@)),
{
    let ghost x = views(a@);
    let ghost y = views(b@);
    if a.len() != b.len() {
        assert(x.len() != y.len());
        return false;
    }
    let mut i: usize = 0;
    while i < a.len()
        invariant
            i <= a@.len(),
            a@.len() == b@.len(),
            x == views(a@),
            y == views(b@),
            forall|k: int| 0 <= k < i ==> x[k] == y[k],
        decreases a@.len() - i,
    {
        assert(x[i as int] == a@[i as int]@);
        assert(y[i as int] == b@[i as int]@);
        if !same(a[i].as_str(), b[i].as_str()) {
            return false;
        }
        i += 1;
    }
    assert(x =~= y);
    true
}

/// How often a string stands in a list.
pub open spec fn times(list: Seq<Seq<char>>, s: Seq<char>) -> nat
    decreases list.len(),
{
    if list.len() == 0 {
        0
    } else {
        times(list.drop_last(), s) + if list.last() == s {
            1nat
        } else {
            0nat
        }
    }
}

/// Taking less of a list finds a string no more often.
pub proof fn times_grows(list: Seq<Seq<char>>, s: Seq<char>, i: int)
    requires
        0 <= i <= list.len(),
    ensures
        times(list.take(i), s) <= times(list, s),
    decreases list.len() - i,
{
    if i == list.len() {
        assert(list.take(i) =~= list);
    } else {
        times_grows(list, s, i + 1);
        assert(list.take(i + 1).drop_last() =~= list.take(i));
    }
}

/// A string that is not in a list stands there no times.
pub proof fn times_of_none(list: Seq<Seq<char>>, s: Seq<char>)
    requires
        !list.contains(s),
    ensures
        times(list, s) == 0,
    decreases list.len(),
{
    if list.len() > 0 {
        assert(list[list.len() - 1] != s);
        assert forall|k: int| 0 <= k < list.drop_last().len() implies list.drop_last()[k] != s by {
            assert(list[k] != s);
        }
        times_of_none(list.drop_last(), s);
    }
}

/// How often a string stands in a list.
pub fn count_of(list: &[String], s: &str) -> (r: usize)
    ensures
        r == times(views(list@), s@),
{
    let ghost lv = views(list@);
    let mut c: usize = 0;
    let mut i: usize = 0;
    assert(lv.take(0) =~= Seq::<Seq<char>>::empty());
    while i < list.len()
        invariant
            i <= list@.len(),
            lv == views(list@),
            c <= i,
            c == times(lv.take(i as int), s@),
        decreases list@.len() - i,
    {
        assert(lv.take(i + 1).drop_last() =~= lv.take(i as int));
        if same(list[i].as_str(), s) {
            c += 1;
        }
        i += 1;
    }
    assert(lv.take(i as int) =~= lv);
    c
}

/// A copy of a list of strings.
pub fn copies(list: &[String]) -> (r: Vec<String>)
    ensures
        r@ == list@,
{
    let mut out: Vec<String> = Vec::new();
    let mut i: usize = 0;
    while i < list.len()
        invariant
            i <= list.len(),
            out@ == list@.take(i as int),
        decreases list.len() - i,
    {
        out.push(list[i].clone());
        i += 1;
        assert(out@ =~= list@.take(i as int));
    }
    assert(out@ =~= list@);
    out
}

/// A copy of a string that may be missing.
pub fn copy_option(s: &Option<String>) -> (r: Option<String>)
    ensures
        r == *s,
{
    match s {
        Some(s) => Some(s.clone()),
        None => None,
    }
}

/// Whether any non-empty token of a list stands inside a name.
pub open spec fn masked(name: Seq<char>, tokens: Seq<String>) -> bool {
    exists|i: int|
        0 <= i < tokens.len() && (#[trigger] tokens[i])@.len() > 0 && holds(name, tokens[i]@)
}

/// Whether any non-empty token of a list stands inside a name.
pub fn is_masked(name: &str, tokens: &[String]) -> (r: bool)
    ensures
        r == masked(name@, tokens@),
{
    let mut i: usize = 0;
    while i < tokens.len()
        invariant
            i <= tokens.len(),
            forall|k: int|
                0 <= k < i ==> !((#[trigger] tokens@[k])@.len() > 0 && holds(name@, tokens@[k]@)),
        decreases tokens.len() - i,
    {
        if !tokens[i].as_str().is_empty() && contains_str(name, tokens[i].as_str()) {
            return true;
        }
        i += 1;
    }
    false
}

// ---- what holds of texts -------------------------------------------------

/// Cutting a text at a character takes it apart at the first one: what stands before,
/// the character and what stands after join to the text again.
pub proof fn a_cut_text_joins_again(s: Seq<char>, c: char)
    ensures
        s.contains(c) ==> s == before(s, c) + seq![c] + after(s, c),
        !before(s, c).contains(c),
        !s.contains(c) ==> before(s, c) == s,
{
    first_at_is_first(s, c, 0);
    let at = first_at(s, c, 0);
    assert forall|k: int| 0 <= k < before(s, c).len() implies before(s, c)[k] != c by {
        assert(s[k] != c);
    }
    if s.contains(c) {
        let k = choose|k: int| 0 <= k < s.len() && s[k] == c;
        assert(at < s.len());
        assert(s =~= before(s, c) + seq![c] + after(s, c));
    } else {
        if at < s.len() {
            assert(s.contains(s[at]));
        }
        assert(before(s, c) =~= s);
    }
}

/// A text begins or ends with another, or holds it, where the characters are the same.
pub proof fn one_text_in_another(s: Seq<char>, p: Seq<char>)
    ensures
        begins(s, p) <==> p.len() <= s.len() && forall|k: int| 0 <= k < p.len() ==> s[k] == p[k],
        ends(s, p) <==> p.len() <= s.len() && forall|k: int|
            0 <= k < p.len() ==> s[s.len() - p.len() + k] == p[k],
        holds(s, p) <==> exists|i: int|
            0 <= i <= s.len() - p.len() && #[trigger] s.subrange(i, i + p.len()) == p,
{
    if p.len() <= s.len() {
        if forall|k: int| 0 <= k < p.len() ==> s[k] == p[k] {
            assert(s.take(p.len() as int) =~= p);
        }
        if s.take(p.len() as int) == p {
            assert forall|k: int| 0 <= k < p.len() implies s[k] == p[k] by {
                assert(s.take(p.len() as int)[k] == s[k]);
            }
        }
        let from = s.len() - p.len();
        if forall|k: int| 0 <= k < p.len() ==> s[from + k] == p[k] {
            assert(s.skip(from) =~= p);
        }
        if s.skip(from) == p {
            assert forall|k: int| 0 <= k < p.len() implies s[from + k] == p[k] by {
                assert(s.skip(from)[k] == s[from + k]);
            }
        }
    }
    if holds(s, p) {
        let i = choose|i: int| stands_at(s, p, i);
        assert(0 <= i <= s.len() - p.len() && s.subrange(i, i + p.len()) == p);
    }
    if exists|i: int| 0 <= i <= s.len() - p.len() && #[trigger] s.subrange(i, i + p.len()) == p {
        let i = choose|i: int|
            0 <= i <= s.len() - p.len() && #[trigger] s.subrange(i, i + p.len()) == p;
        assert(stands_at(s, p, i));
    }
}

/// White space is the tab, the line breaks, the space, and what Unicode counts among
/// them.
pub proof fn white_space_is(c: char)
    ensures
        is_space(c) <==> (c == ' ' || c == '\t' || c == '\n' || c == '\u{b}' || c == '\u{c}' || c
            == '\r' || c == '\u{85}' || c == '\u{a0}' || c == '\u{1680}' || ('\u{2000}' <= c && c
            <= '\u{200a}') || c == '\u{2028}' || c == '\u{2029}' || c == '\u{202f}' || c
            == '\u{205f}' || c == '\u{3000}'),
{
}

proof fn front_is_white(s: Seq<char>) -> (n: int)
    ensures
        0 <= n <= s.len(),
        trimmed_front(s) == s.skip(n),
        forall|k: int| 0 <= k < n ==> is_space(#[trigger] s[k]),
        n < s.len() ==> !is_space(s[n]),
    decreases s.len(),
{
    if s.len() > 0 && is_space(s[0]) {
        let m = front_is_white(s.drop_first());
        assert(s.drop_first().skip(m) =~= s.skip(m + 1));
        assert forall|k: int| 0 <= k < m + 1 implies is_space(#[trigger] s[k]) by {
            if k > 0 {
                assert(s.drop_first()[k - 1] == s[k]);
            }
        }
        if m + 1 < s.len() {
            assert(s.drop_first()[m] == s[m + 1]);
        }
        m + 1
    } else {
        assert(s.skip(0) =~= s);
        0
    }
}

proof fn back_is_white(s: Seq<char>) -> (n: int)
    ensures
        0 <= n <= s.len(),
        trimmed_back(s) == s.take(n),
        forall|k: int| n <= k < s.len() ==> is_space(#[trigger] s[k]),
        n > 0 ==> !is_space(s[n - 1]),
    decreases s.len(),
{
    if s.len() > 0 && is_space(s.last()) {
        let m = back_is_white(s.drop_last());
        assert(s.drop_last().take(m) =~= s.take(m));
        assert forall|k: int| m <= k < s.len() implies is_space(#[trigger] s[k]) by {
            if k < s.len() - 1 {
                assert(s.drop_last()[k] == s[k]);
            }
        }
        m
    } else {
        assert(s.take(s.len() as int) =~= s);
        s.len() as int
    }
}

/// Trimming drops white space at both ends, all of it, and nothing else.
pub proof fn trimming_drops_the_white_ends(s: Seq<char>) -> (ends: (int, int))
    ensures
        0 <= ends.0 <= ends.1 <= s.len(),
        trimmed(s) == s.subrange(ends.0, ends.1),
        forall|k: int| 0 <= k < ends.0 || ends.1 <= k < s.len() ==> is_space(#[trigger] s[k]),
        ends.0 < ends.1 ==> !is_space(s[ends.0]) && !is_space(s[ends.1 - 1]),
{
    let a = front_is_white(s);
    let t = s.skip(a);
    let n = back_is_white(t);
    assert(t.take(n) =~= s.subrange(a, a + n));
    assert forall|k: int| 0 <= k < a || a + n <= k < s.len() implies is_space(#[trigger] s[k]) by {
        if k >= a {
            assert(t[k - a] == s[k]);
        }
    }
    if n > 0 {
        assert(t[n - 1] == s[a + n - 1]);
    }
    (a, a + n)
}

/// Making a text small moves the capitals A to Z and no other character.
pub proof fn small_letters(s: Seq<char>)
    ensures
        lower(s).len() == s.len(),
        forall|i: int|
            0 <= i < s.len() ==> #[trigger] lower(s)[i] == if 65 <= s[i] as u32 <= 90 {
                ((s[i] as u32 + 32) as u32) as char
            } else {
                s[i]
            },
{
}

proof fn joined_from_the_front(x: Seq<char>, ys: Seq<Seq<char>>, sep: Seq<char>)
    requires
        ys.len() > 0,
    ensures
        joined(seq![x] + ys, sep) == x + sep + joined(ys, sep),
    decreases ys.len(),
{
    let all = seq![x] + ys;
    assert(all.last() == ys.last());
    if ys.len() == 1 {
        assert(all.drop_last() =~= seq![x]);
        assert(joined(seq![x], sep) == x);
    } else {
        assert(all.drop_last() =~= seq![x] + ys.drop_last());
        joined_from_the_front(x, ys.drop_last(), sep);
        assert(x + sep + joined(ys.drop_last(), sep) + sep + ys.last() =~= x + sep + (joined(
            ys.drop_last(),
            sep,
        ) + sep + ys.last()));
    }
}

/// The fields of a text, joined by the separator, are the text, and no field holds the
/// separator.
pub proof fn fields_join_again(s: Seq<char>, sep: char)
    ensures
        fields(s, sep).len() >= 1,
        joined(fields(s, sep), seq![sep]) == s,
        forall|i: int| 0 <= i < fields(s, sep).len() ==> !(#[trigger] fields(s, sep)[i]).contains(sep),
    decreases s.len(),
{
    first_at_is_first(s, sep, 0);
    let at = first_at(s, sep, 0);
    if at < s.len() {
        let head = s.take(at);
        let tail = s.skip(at + 1);
        fields_join_again(tail, sep);
        joined_from_the_front(head, fields(tail, sep), seq![sep]);
        assert(s =~= head + seq![sep] + tail);
        assert forall|i: int| 0 <= i < fields(s, sep).len() implies !(#[trigger] fields(
            s,
            sep,
        )[i]).contains(sep) by {
            if i > 0 {
                assert(fields(s, sep)[i] == fields(tail, sep)[i - 1]);
            } else {
                assert forall|k: int| 0 <= k < head.len() implies head[k] != sep by {
                    assert(s[k] != sep);
                }
            }
        }
    } else {
        assert(fields(s, sep)[0] == s);
    }
}

/// What joining makes of a list: nothing of nothing, one part as it is, and each
/// further part behind the separator.
pub proof fn one_more_part_is_joined(parts: Seq<Seq<char>>, x: Seq<char>, sep: Seq<char>)
    ensures
        joined(Seq::<Seq<char>>::empty(), sep) == Seq::<char>::empty(),
        joined(seq![x], sep) == x,
        parts.len() > 0 ==> joined(parts.push(x), sep) == joined(parts, sep) + sep + x,
{
    assert(parts.push(x).drop_last() =~= parts);
}

/// The lines of a text: a break ends a line, with a carriage return before it or
/// without, and what follows the last break is a line where there is anything.
pub proof fn a_break_ends_a_line(a: Seq<char>, rest: Seq<char>)
    requires
        !a.contains('\n'),
    ensures
        lines_of(Seq::<char>::empty()) == Seq::<Seq<char>>::empty(),
        a.len() > 0 ==> lines_of(a) == seq![a],
        !(a.len() > 0 && a.last() == '\r') ==> lines_of(a + seq!['\n'] + rest) == seq![a]
            + lines_of(rest),
        lines_of(a + seq!['\r', '\n'] + rest) == seq![a] + lines_of(rest),
{
    assert forall|k: int| 0 <= k < a.len() implies a[k] != '\n' by {
        assert(a.contains(a[k]));
    }
    first_at_is(a, '\n', a.len() as int);
    let s = a + seq!['\n'] + rest;
    first_at_is(s, '\n', a.len() as int);
    assert(s.take(a.len() as int) =~= a);
    assert(s.skip(a.len() as int + 1) =~= rest);
    let t = a + seq!['\r', '\n'] + rest;
    assert(t[a.len() as int] == '\r' && t[a.len() as int + 1] == '\n');
    first_at_is(t, '\n', a.len() as int + 1);
    assert(t.take(a.len() as int + 1) =~= a.push('\r'));
    assert(a.push('\r').drop_last() =~= a);
    assert(t.skip(a.len() as int + 2) =~= rest);
}

proof fn word_ends_at(w: Seq<char>, rest: Seq<char>)
    requires
        forall|k: int| 0 <= k < w.len() ==> !is_space(#[trigger] w[k]),
        rest.len() > 0 ==> is_space(rest[0]),
    ensures
        word_end(w + rest) == w.len(),
    decreases w.len(),
{
    let s = w + rest;
    if w.len() > 0 {
        assert(s[0] == w[0]);
        assert(s.drop_first() =~= w.drop_first() + rest);
        assert forall|k: int| 0 <= k < w.drop_first().len() implies !is_space(
            #[trigger] w.drop_first()[k],
        ) by {
            assert(w.drop_first()[k] == w[k + 1]);
        }
        word_ends_at(w.drop_first(), rest);
    }
}

/// The words of a text: white space parts them and belongs to none.
pub proof fn white_space_parts_words(w: Seq<char>, blank: char, rest: Seq<char>)
    requires
        is_space(blank),
        w.len() > 0,
        forall|k: int| 0 <= k < w.len() ==> !is_space(#[trigger] w[k]),
    ensures
        words_of(Seq::<char>::empty()) == Seq::<Seq<char>>::empty(),
        words_of(seq![blank] + rest) == words_of(rest),
        words_of(w) == seq![w],
        words_of(w + seq![blank] + rest) == seq![w] + words_of(rest),
{
    let none = Seq::<char>::empty();
    assert(trimmed_front(none) == none);
    let s = seq![blank] + rest;
    assert(s.drop_first() =~= rest);
    assert(trimmed_front(s) == trimmed_front(rest));
    assert(words_of(s) == words_of(rest));
    assert(!is_space(w[0]));
    assert(trimmed_front(w) == w);
    assert(w + none =~= w);
    word_ends_at(w, none);
    assert(w.take(w.len() as int) =~= w);
    assert(w.skip(w.len() as int) =~= none);
    assert(words_of(none) =~= Seq::<Seq<char>>::empty());
    assert(words_of(w) == seq![w] + words_of(none));
    assert(words_of(w) =~= seq![w]);
    let t = w + seq![blank] + rest;
    assert(t =~= w + s);
    word_ends_at(w, s);
    assert(t[0] == w[0]);
    assert(trimmed_front(t) == t);
    assert(t.take(w.len() as int) =~= w);
    assert(t.skip(w.len() as int) =~= s);
}

/// How often a string stands in a list: each place where it stands counts once.
pub proof fn each_place_counts_once(list: Seq<Seq<char>>, x: Seq<char>, s: Seq<char>)
    ensures
        times(Seq::<Seq<char>>::empty(), s) == 0,
        times(list.push(x), s) == times(list, s) + if x == s {
            1int
        } else {
            0
        },
{
    assert(list.push(x).drop_last() =~= list);
}

/// A name is masked where some token that is not empty stands somewhere inside it.
pub proof fn a_token_masks_what_it_stands_in(name: Seq<char>, tokens: Seq<String>)
    ensures
        masked(name, tokens) <==> exists|i: int, at: int| #![trigger tokens[i], name.subrange(at, at + tokens[i]@.len())]
            0 <= i < tokens.len() && tokens[i]@.len() > 0 && 0 <= at <= name.len() - tokens[i]@.len()
                && name.subrange(at, at + tokens[i]@.len()) == tokens[i]@,
{
    if masked(name, tokens) {
        let i = choose|i: int|
            0 <= i < tokens.len() && (#[trigger] tokens[i])@.len() > 0 && holds(name, tokens[i]@);
        let at = choose|at: int| stands_at(name, tokens[i]@, at);
        assert(name.subrange(at, at + tokens[i]@.len()) == tokens[i]@);
    }
    if exists|i: int, at: int| #![trigger tokens[i], name.subrange(at, at + tokens[i]@.len())]
        0 <= i < tokens.len() && tokens[i]@.len() > 0 && 0 <= at <= name.len() - tokens[i]@.len()
            && name.subrange(at, at + tokens[i]@.len()) == tokens[i]@ {
        let (i, at) = choose|i: int, at: int| #![trigger tokens[i], name.subrange(at, at + tokens[i]@.len())]
            0 <= i < tokens.len() && tokens[i]@.len() > 0 && 0 <= at <= name.len() - tokens[i]@.len()
                && name.subrange(at, at + tokens[i]@.len()) == tokens[i]@;
        assert(stands_at(name, tokens[i]@, at));
        assert(holds(name, tokens[i]@));
    }
}

/// Lists of strings are viewed one by one.
pub proof fn views_are_one_by_one(v: Seq<String>)
    ensures
        views(v).len() == v.len(),
        forall|i: int| 0 <= i < v.len() ==> #[trigger] views(v)[i] == v[i]@,
{
}

} // verus!
