//! Numbers as text: decimal and hexadecimal digits, printed and read back.

use vstd::prelude::*;

use crate::text::part;

verus! {

/// The digit for a value below sixteen, letters in lower case.
pub open spec fn digit_char(d: nat) -> char {
    if d < 10 {
        (48 + d) as char
    } else {
        (87 + d) as char
    }
}

/// The value of a digit, letters in either case; sixteen when it is none.
pub open spec fn digit_value(c: char) -> nat {
    let u = c as u32;
    if 48 <= u <= 57 {
        (u - 48) as nat
    } else if 97 <= u <= 102 {
        (u - 87) as nat
    } else if 65 <= u <= 70 {
        (u - 55) as nat
    } else {
        16
    }
}

/// A number in decimal, without leading zeros.
pub open spec fn dec(n: nat) -> Seq<char>
    decreases n,
{
    if n < 10 {
        seq![digit_char(n)]
    } else {
        dec(n / 10).push(digit_char(n % 10))
    }
}

/// The last `width` hexadecimal digits of a number, zeros in front.
pub open spec fn hex(n: nat, width: nat) -> Seq<char>
    decreases width,
{
    if width == 0 {
        Seq::empty()
    } else {
        hex(n / 16, (width - 1) as nat).push(digit_char(n % 16))
    }
}

/// Whether every character is a digit of the base.
pub open spec fn all_digits(s: Seq<char>, base: nat) -> bool {
    forall|i: int| 0 <= i < s.len() ==> digit_value(#[trigger] s[i]) < base
}

/// What a run of digits is worth.
pub open spec fn value(s: Seq<char>, base: nat) -> nat
    decreases s.len(),
{
    if s.len() == 0 {
        0
    } else {
        value(s.drop_last(), base) * base + digit_value(s.last())
    }
}

/// The digits of a number that may carry a plus sign.
pub open spec fn unsigned_body(s: Seq<char>) -> Seq<char> {
    if s.len() > 0 && s[0] == '+' {
        s.skip(1)
    } else {
        s
    }
}

/// What a text is worth as an unsigned number: digits, perhaps after a plus
/// sign, of a value no greater than `max`.
pub open spec fn unsigned(s: Seq<char>, base: nat, max: nat) -> Option<nat> {
    let body = unsigned_body(s);
    if body.len() == 0 || !all_digits(body, base) || value(body, base) > max {
        None
    } else {
        Some(value(body, base))
    }
}

/// The digit for a value below sixteen.
pub fn digit(d: u8) -> (c: char)
    requires
        d < 16,
    ensures
        c == digit_char(d as nat),
{
    if d < 10 {
        (48 + d) as char
    } else {
        (87 + d) as char
    }
}

/// The value of a digit, sixteen when it is none.
pub fn digit_of(c: char) -> (r: u8)
    ensures
        r == digit_value(c),
        r <= 16,
{
    let u: u32 = c as u32;
    if 48 <= u && u <= 57 {
        (u - 48) as u8
    } else if 97 <= u && u <= 102 {
        (u - 87) as u8
    } else if 65 <= u && u <= 70 {
        (u - 55) as u8
    } else {
        16
    }
}

/// Print a number in decimal.
pub fn decimal(n: u64) -> (r: String)
    ensures
        r@ == dec(n as nat),
    decreases n,
{
    if n < 10 {
        let mut out = String::new();
        out.push(digit(n as u8));
        assert(out@ =~= dec(n as nat));
        out
    } else {
        let mut out = decimal(n / 10);
        out.push(digit((n % 10) as u8));
        out
    }
}

/// A whole number in decimal, with a minus sign where it is below zero.
pub open spec fn signed(n: int) -> Seq<char> {
    if n < 0 {
        seq!['-'] + dec((-n) as nat)
    } else {
        dec(n as nat)
    }
}

/// Print a whole number in decimal.
pub fn integer(n: i64) -> (r: String)
    ensures
        r@ == signed(n as int),
{
    if n < 0 {
        let mut out = String::new();
        out.push('-');
        let size: u64 = (-(n as i128)) as u64;
        out.push_str(decimal(size).as_str());
        assert(out@ =~= signed(n as int));
        out
    } else {
        decimal(n as u64)
    }
}

/// Print the last `width` hexadecimal digits of a number.
pub fn hexadecimal(n: u64, width: u8) -> (r: String)
    ensures
        r@ == hex(n as nat, width as nat),
    decreases width,
{
    if width == 0 {
        String::new()
    } else {
        let mut out = hexadecimal(n / 16, width - 1);
        out.push(digit((n % 16) as u8));
        out
    }
}

/// Whether every character is a digit of the base.
pub fn digits_only(s: &[char], base: u8) -> (r: bool)
    ensures
        r == all_digits(s@, base as nat),
{
    let mut i: usize = 0;
    while i < s.len()
        invariant
            i <= s.len(),
            forall|k: int| 0 <= k < i ==> digit_value(#[trigger] s@[k]) < base,
        decreases s.len() - i,
    {
        if digit_of(s[i]) >= base {
            return false;
        }
        i += 1;
    }
    true
}

/// Read an unsigned number no greater than `max`.
pub fn read(s: &[char], base: u8, max: u64) -> (r: Option<u64>)
    requires
        2 <= base <= 16,
    ensures
        match r {
            Some(n) => unsigned(s@, base as nat, max as nat) == Some(n as nat),
            None => unsigned(s@, base as nat, max as nat) is None,
        },
{
    let body = if s.len() > 0 && s[0] == '+' {
        part(s, 1, s.len())
    } else {
        s
    };
    assert(body@ =~= unsigned_body(s@));
    if body.len() == 0 || !digits_only(body, base) {
        return None;
    }
    let mut acc: u128 = 0;
    let mut i: usize = 0;
    while i < body.len()
        invariant
            i <= body.len(),
            2 <= base <= 16,
            body@ == unsigned_body(s@),
            body@.len() > 0,
            all_digits(body@, base as nat),
            acc <= max,
            acc == value(body@.take(i as int), base as nat),
        decreases body.len() - i,
    {
        let d: u8 = digit_of(body[i]);
        let ghost now = body@.take(i + 1);
        assert(now.drop_last() =~= body@.take(i as int));
        assert(acc * base + d <= 0xFFFF_FFFF_FFFF_FFFF * 16 + 16) by (nonlinear_arith)
            requires
                acc <= 0xFFFF_FFFF_FFFF_FFFF,
                base <= 16,
                d <= 16,
        ;
        assert(acc * base >= 0) by (nonlinear_arith);
        acc = acc * (base as u128) + (d as u128);
        assert(acc == value(now, base as nat));
        i += 1;
        if acc > max as u128 {
            proof {
                value_grows(body@, i as int, base as nat);
            }
            return None;
        }
    }
    assert(body@.take(i as int) =~= body@);
    Some(acc as u64)
}

/// More digits are worth no less.
pub proof fn value_grows(s: Seq<char>, i: int, base: nat)
    requires
        0 <= i <= s.len(),
        base >= 1,
    ensures
        value(s.take(i), base) <= value(s, base),
    decreases s.len() - i,
{
    if i == s.len() {
        assert(s.take(i) =~= s);
    } else {
        value_grows(s, i + 1, base);
        let next = s.take(i + 1);
        assert(next.drop_last() =~= s.take(i));
        let v = value(s.take(i), base);
        assert(v * base >= v) by (nonlinear_arith)
            requires
                base >= 1,
                v >= 0,
        ;
    }
}

/// Decimal digits are digits, and they are worth the number they print.
pub proof fn dec_reads_back(n: nat)
    ensures
        all_digits(dec(n), 10),
        value(dec(n), 10) == n,
        dec(n).len() >= 1,
        dec(n)[0] != '+',
    decreases n,
{
    if n < 10 {
        let s = dec(n);
        assert(s.drop_last() =~= Seq::<char>::empty());
        assert(value(s.drop_last(), 10) == 0);
    } else {
        dec_reads_back(n / 10);
        let s = dec(n);
        assert(s.drop_last() =~= dec(n / 10));
        assert(s[0] == dec(n / 10)[0]);
        assert forall|i: int| 0 <= i < s.len() implies digit_value(#[trigger] s[i]) < 10 by {
            if i < s.len() - 1 {
                assert(s[i] == dec(n / 10)[i]);
            }
        }
    }
}

/// What `unsigned` makes of a printed decimal number.
pub proof fn dec_is_unsigned(n: nat, max: nat)
    requires
        n <= max,
    ensures
        unsigned(dec(n), 10, max) == Some(n),
{
    dec_reads_back(n);
}

/// A digit value printed and read.
pub proof fn digit_round_trip(d: nat)
    requires
        d < 16,
    ensures
        digit_value(digit_char(d)) == d,
        digit_char(d) != '+',
        digit_char(d) != ':',
{
}

/// Sixteen to a power.
pub open spec fn pow16(w: nat) -> nat
    decreases w,
{
    if w == 0 {
        1
    } else {
        16 * pow16((w - 1) as nat)
    }
}

/// Hexadecimal digits of a number that fits are worth the number.
pub proof fn hex_reads_back(n: nat, width: nat)
    requires
        n < pow16(width),
    ensures
        hex(n, width).len() == width,
        all_digits(hex(n, width), 16),
        value(hex(n, width), 16) == n,
        width > 0 ==> hex(n, width)[0] != '+',
        forall|i: int| 0 <= i < width ==> hex(n, width)[i] != ':',
    decreases width,
{
    if width > 0 {
        hex_reads_back(n / 16, (width - 1) as nat);
        digit_round_trip(n % 16);
        let s = hex(n, width);
        let front = hex(n / 16, (width - 1) as nat);
        assert(s.drop_last() =~= front);
        assert forall|i: int| 0 <= i < s.len() implies digit_value(#[trigger] s[i]) < 16 && s[i]
            != ':' && s[i] != '+' by {
            if i < s.len() - 1 {
                assert(s[i] == front[i]);
                hex_digit_shape(n / 16, (width - 1) as nat, i);
            }
        }
    }
}

/// No character of a printed number is a sign.
proof fn hex_digit_shape(n: nat, width: nat, i: int)
    requires
        0 <= i < width,
    ensures
        hex(n, width).len() == width,
        hex(n, width)[i] != '+',
    decreases width,
{
    digit_round_trip(n % 16);
    if width > 1 {
        if i < width - 1 {
            hex_digit_shape(n / 16, (width - 1) as nat, i);
        } else {
            hex_digit_shape(n / 16, (width - 1) as nat, 0);
        }
    } else {
        assert(hex(n / 16, 0).len() == 0);
    }
}

// ---- columns -------------------------------------------------------------

/// Spaces, `n` of them.
pub open spec fn blanks(n: nat) -> Seq<char> {
    Seq::new(n, |i: int| ' ')
}

/// A cell filled up with spaces behind.
pub open spec fn padded(s: Seq<char>, width: nat) -> Seq<char> {
    if s.len() >= width {
        s
    } else {
        s + blanks((width - s.len()) as nat)
    }
}

/// A cell filled up with spaces in front.
pub open spec fn padded_front(s: Seq<char>, width: nat) -> Seq<char> {
    if s.len() >= width {
        s
    } else {
        blanks((width - s.len()) as nat) + s
    }
}

/// A string of `n` spaces.
pub fn spaces(n: usize) -> (r: String)
    ensures
        r@ == blanks(n as nat),
{
    let mut out = String::new();
    let mut i: usize = 0;
    while i < n
        invariant
            i <= n,
            out@ == blanks(i as nat),
        decreases n - i,
    {
        out.push(' ');
        i += 1;
        assert(out@ =~= blanks(i as nat));
    }
    assert(out@ =~= blanks(n as nat));
    out
}

/// Fill a cell up with spaces behind.
pub fn pad_back(s: &str, width: usize) -> (r: String)
    ensures
        r@ == padded(s@, width as nat),
{
    let n = crate::text::chars(s).len();
    if n >= width {
        s.to_owned()
    } else {
        crate::text::cat2(s, spaces(width - n).as_str())
    }
}

/// Fill a cell up with spaces in front.
pub fn pad_front(s: &str, width: usize) -> (r: String)
    ensures
        r@ == padded_front(s@, width as nat),
{
    let n = crate::text::chars(s).len();
    if n >= width {
        s.to_owned()
    } else {
        crate::text::cat2(spaces(width - n).as_str(), s)
    }
}

/// A decimal number is printed by its last digit behind the rest of it.
pub proof fn the_last_digit_is_the_remainder(n: nat)
    ensures
        n < 10 ==> dec(n) == seq![(48 + n) as char],
        n >= 10 ==> dec(n) == dec(n / 10).push((48 + n % 10) as char),
{
}

/// A digit more is worth the base times what stands before it, and the digit: 0 to 9,
/// and from ten on the letters a to f, small or capital.
pub proof fn a_digit_more(s: Seq<char>, base: nat, d: nat)
    requires
        d < 16,
    ensures
        value(Seq::<char>::empty(), base) == 0,
        d < 10 ==> value(s.push((48 + d) as char), base) == value(s, base) * base + d,
        d >= 10 ==> value(s.push((87 + d) as char), base) == value(s, base) * base + d,
        d >= 10 ==> value(s.push((55 + d) as char), base) == value(s, base) * base + d,
{
    assert(s.push((48 + d) as char).drop_last() =~= s);
    assert(s.push((87 + d) as char).drop_last() =~= s);
    assert(s.push((55 + d) as char).drop_last() =~= s);
}

/// A number is read from its digits, a plus sign before them or not, where it is no
/// greater than it may be. Nothing is read from no digits, or where another character
/// stands among them.
pub proof fn a_number_is_read_from_its_digits(s: Seq<char>, base: nat, max: nat)
    requires
        2 <= base <= 16,
    ensures
        unsigned(Seq::<char>::empty(), base, max) is None,
        unsigned(seq!['+'], base, max) is None,
        s.len() > 0 && (forall|i: int| 0 <= i < s.len() ==> is_digit_of(#[trigger] s[i], base)) ==> {
            &&& unsigned(s, base, max) == if value(s, base) <= max {
                Some(value(s, base))
            } else {
                None
            }
            &&& unsigned(seq!['+'] + s, base, max) == unsigned(s, base, max)
        },
        s.len() > 0 && s[0] != '+' && (exists|i: int|
            0 <= i < s.len() && !is_digit_of(#[trigger] s[i], base)) ==> unsigned(s, base, max) is None
            && unsigned(seq!['+'] + s, base, max) is None,
        unsigned(seq!['+', '+'] + s, base, max) is None,
{
    assert(seq!['+'].skip(1) =~= Seq::<char>::empty());
    let signed = seq!['+'] + s;
    assert(signed[0] == '+');
    assert(signed.skip(1) =~= s);
    if exists|i: int| 0 <= i < s.len() && !is_digit_of(#[trigger] s[i], base) {
        let i = choose|i: int| 0 <= i < s.len() && !is_digit_of(#[trigger] s[i], base);
        assert(digit_value(s[i]) >= base);
    }
    let twice = seq!['+', '+'] + s;
    assert(twice[0] == '+');
    assert(twice.skip(1)[0] == '+');
    assert(digit_value('+') == 16);
    assert forall|i: int| 0 <= i < s.len() && is_digit_of(#[trigger] s[i], base) implies digit_value(
        s[i],
    ) < base && s[i] != '+' by {}
    if s.len() > 0 && (forall|i: int| 0 <= i < s.len() ==> is_digit_of(#[trigger] s[i], base)) {
        assert(is_digit_of(s[0], base));
        assert(all_digits(s, base));
    }
}

/// A digit of a base, by its character: 0 to 9, and from ten on a to f or A to F.
pub open spec fn is_digit_of(c: char, base: nat) -> bool {
    let u = c as u32;
    (48 <= u <= 57 && u - 48 < base) || (97 <= u <= 102 && u - 87 < base) || (65 <= u <= 70 && u - 55
        < base)
}

/// Hexadecimal digits to a width: the last is the remainder by sixteen.
pub proof fn the_last_hex_digit(n: nat, width: nat)
    requires
        width > 0,
    ensures
        hex(n, 0) == Seq::<char>::empty(),
        hex(n, width).drop_last() == hex(n / 16, (width - 1) as nat),
        hex(n, width).last() == if n % 16 < 10 {
            (48 + n % 16) as char
        } else {
            (87 + n % 16) as char
        },
{
    assert(hex(n, width).drop_last() =~= hex(n / 16, (width - 1) as nat));
}

/// A number below zero is printed as its size behind a minus sign.
pub proof fn a_minus_sign_stands_before_the_size(n: int)
    ensures
        n >= 0 ==> signed(n) == dec(n as nat),
        n < 0 ==> signed(n) == seq!['-'] + dec((-n) as nat),
{
    reveal_strlit("-");
    assert(n < 0 ==> signed(n) =~= seq!['-'] + dec((-n) as nat));
}

/// A cell is filled up with spaces to its width, behind the text or before it, and a
/// text that is wider stays whole.
pub proof fn a_cell_is_filled_with_spaces(s: Seq<char>, width: nat)
    ensures
        padded(s, width).len() == if s.len() < width {
            width
        } else {
            s.len()
        },
        padded_front(s, width).len() == padded(s, width).len(),
        padded(s, width).take(s.len() as int) == s,
        padded_front(s, width).skip(padded_front(s, width).len() - s.len()) == s,
        forall|k: int| s.len() <= k < padded(s, width).len() ==> padded(s, width)[k] == ' ',
        forall|k: int|
            0 <= k < padded_front(s, width).len() - s.len() ==> padded_front(s, width)[k] == ' ',
{
    if s.len() < width {
        let gap = blanks((width - s.len()) as nat);
        blanks_are_spaces((width - s.len()) as nat);
        assert(padded(s, width).take(s.len() as int) =~= s);
        assert(padded_front(s, width).skip(gap.len() as int) =~= s);
        assert forall|k: int| s.len() <= k < padded(s, width).len() implies padded(s, width)[k]
            == ' ' by {
            assert(padded(s, width)[k] == gap[k - s.len()]);
        }
        assert forall|k: int| 0 <= k < padded_front(s, width).len() - s.len() implies padded_front(
            s,
            width,
        )[k] == ' ' by {
            assert(padded_front(s, width)[k] == gap[k]);
        }
    } else {
        assert(s.take(s.len() as int) =~= s);
        assert(s.skip(0) =~= s);
    }
}

proof fn blanks_are_spaces(n: nat)
    ensures
        blanks(n).len() == n,
        forall|k: int| 0 <= k < n ==> #[trigger] blanks(n)[k] == ' ',
    decreases n,
{
    if n > 0 {
        blanks_are_spaces((n - 1) as nat);
    }
}

} // verus!
