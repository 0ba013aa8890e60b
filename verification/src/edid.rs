//! EDID base block parsing.
//!
//! The bytes come from whatever is plugged into the port, so this is untrusted
//! input handled by a daemon running as root. Every field is read at a fixed
//! offset inside a block whose length was checked, nothing the device sends
//! sizes an allocation, and any malformed input gives `None`.

use vstd::prelude::*;

use crate::number::{dec, decimal, hex, hexadecimal};
use crate::text::{cat3, cat5, trim, trimmed};

verus! {

/// Length of the EDID base block. Extension blocks are not parsed.
pub const EDID_BASE_LEN: usize = 128;

/// Tag of the monitor name descriptor.
pub const TAG_MONITOR_NAME: u8 = 0xFC;

/// A monitor's identity as reported by its EDID.
#[derive(Debug)]
pub struct EdidId {
    /// Three letter PNP manufacturer code, for example "SAM".
    pub mfg: String,
    /// Manufacturer assigned product code.
    pub product: u16,
    /// Unit serial. `None` when the monitor reports 0, which many panels do.
    pub serial: Option<u32>,
    /// Model name from the monitor name descriptor. May be empty.
    pub name: String,
}

/// What identifies a monitor: everything but its name.
pub struct EdidKey {
    pub mfg: Seq<char>,
    pub product: u16,
    pub serial: Option<u32>,
}

impl View for EdidId {
    type V = EdidKey;

    open spec fn view(&self) -> EdidKey {
        EdidKey { mfg: self.mfg@, product: self.product, serial: self.serial }
    }
}

impl EdidKey {
    /// The identity as a selector spells it.
    pub open spec fn text(self) -> Seq<char> {
        match self.serial {
            Some(s) => self.mfg + ":"@ + hex(self.product as nat, 4) + ":"@ + dec(s as nat),
            None => self.mfg + ":"@ + hex(self.product as nat, 4),
        }
    }
}

/// Identity is manufacturer, product and serial. The name is a free text
/// descriptor that some monitors pad or truncate differently between reads, so
/// comparing it would produce violations that are not device changes.
impl PartialEq for EdidId {
    fn eq(&self, other: &Self) -> (r: bool) {
        self.mfg == other.mfg && self.product == other.product && self.serial == other.serial
    }
}

impl vstd::std_specs::cmp::PartialEqSpecImpl for EdidId {
    open spec fn obeys_eq_spec() -> bool {
        true
    }

    open spec fn eq_spec(&self, other: &Self) -> bool {
        self@ == other@
    }
}

impl Eq for EdidId {

}

impl Clone for EdidId {
    fn clone(&self) -> (r: Self)
        ensures
            r == *self,
    {
        EdidId {
            mfg: self.mfg.clone(),
            product: self.product,
            serial: self.serial,
            name: self.name.clone(),
        }
    }
}

impl EdidId {
    /// Stable identity string for selectors and log lines. A monitor with no
    /// serial identifies only to model level, the same way a USB device without
    /// a serial identifies only by vendor and product.
    pub fn selector(&self) -> (r: String)
        ensures
            r@ == self@.text(),
    {
        let product = hexadecimal(self.product as u64, 4);
        match self.serial {
            Some(s) => {
                let serial = decimal(s as u64);
                cat5(self.mfg.as_str(), ":", product.as_str(), ":", serial.as_str())
            },
            None => cat3(self.mfg.as_str(), ":", product.as_str()),
        }
    }
}

/// Every EDID base block starts with zero, six times 0xFF, zero.
pub open spec fn header_ok(b: Seq<u8>) -> bool {
    b[0] == 0 && b[7] == 0 && forall|i: int| 1 <= i < 7 ==> b[i] == 0xFF
}

/// The `i`th letter of the manufacturer code, 1 for A: three fields of five
/// bits, packed big endian into bytes 8 and 9.
pub open spec fn letter(b: Seq<u8>, i: int) -> int {
    let packed = b[8] * 256 + b[9];
    if i == 0 {
        packed / 1024 % 32
    } else if i == 1 {
        packed / 32 % 32
    } else {
        packed % 32
    }
}

/// The manufacturer code, when all three letters are letters.
pub open spec fn manufacturer(b: Seq<u8>) -> Option<Seq<char>> {
    if forall|i: int| 0 <= i < 3 ==> 1 <= #[trigger] letter(b, i) <= 26 {
        Some(Seq::new(3, |i: int| (64 + letter(b, i)) as char))
    } else {
        None
    }
}

/// The product code, little endian.
pub open spec fn product(b: Seq<u8>) -> int {
    b[10] + 256 * b[11]
}

/// The serial number, little endian.
pub open spec fn serial(b: Seq<u8>) -> int {
    b[12] + 256 * b[13] + 65536 * b[14] + 16777216 * b[15]
}

/// Whether the descriptor at `off` is the monitor name.
pub open spec fn names_monitor(b: Seq<u8>, off: int) -> bool {
    b[off] == 0 && b[off + 1] == 0 && b[off + 2] == 0 && b[off + 3] == TAG_MONITOR_NAME
}

/// Where the text of a descriptor ends: at its first line feed, counted from
/// `i`, or after thirteen bytes.
pub open spec fn name_end(b: Seq<u8>, off: int, i: int) -> int
    decreases 13 - i,
{
    if i >= 13 || b[off + 5 + i] == 0x0A {
        i
    } else {
        name_end(b, off, i + 1)
    }
}

/// A byte of a name as it is shown: itself, or a space when it is not
/// printable ASCII.
pub open spec fn shown(c: u8) -> char {
    if 0x20 <= c < 0x7F {
        c as char
    } else {
        ' '
    }
}

/// The text of the descriptor at `off`.
pub open spec fn name_at(b: Seq<u8>, off: int) -> Seq<char> {
    trimmed(Seq::new(name_end(b, off, 0) as nat, |i: int| shown(b[off + 5 + i])))
}

/// The name in the first monitor name descriptor at or after `off`.
pub open spec fn name_from(b: Seq<u8>, off: int) -> Seq<char>
    decreases
            if off < 126 {
                126 - off
            } else {
                0
            },
{
    if off >= 126 {
        Seq::empty()
    } else if names_monitor(b, off) {
        name_at(b, off)
    } else {
        name_from(b, off + 18)
    }
}

/// Whether these bytes begin with an EDID base block.
pub open spec fn is_edid(b: Seq<u8>) -> bool {
    b.len() >= EDID_BASE_LEN && header_ok(b) && manufacturer(b) is Some
}

/// The identity an EDID base block carries.
pub open spec fn identity(b: Seq<u8>) -> EdidKey {
    EdidKey {
        mfg: manufacturer(b)->0,
        product: product(b) as u16,
        serial: if serial(b) == 0 {
            None
        } else {
            Some(serial(b) as u32)
        },
    }
}

/// Parse an EDID base block. Returns `None` for anything that is not one.
pub fn parse(bytes: &[u8]) -> (r: Option<EdidId>)
    ensures
        match r {
            Some(id) => is_edid(bytes@) && id@ == identity(bytes@) && id.name@ == name_from(
                bytes@,
                54,
            ),
            None => !is_edid(bytes@),
        },
{
    if bytes.len() < EDID_BASE_LEN {
        return None;
    }
    if bytes[0] != 0 || bytes[7] != 0 {
        return None;
    }
    let mut i: usize = 1;
    while i < 7
        invariant
            1 <= i <= 7,
            bytes@.len() >= EDID_BASE_LEN,
            forall|k: int| 1 <= k < i ==> bytes@[k] == 0xFF,
        decreases 7 - i,
    {
        if bytes[i] != 0xFF {
            return None;
        }
        i += 1;
    }
    let packed: u32 = bytes[8] as u32 * 256 + bytes[9] as u32;
    let first: u32 = packed / 1024 % 32;
    let second: u32 = packed / 32 % 32;
    let third: u32 = packed % 32;
    assert(first == letter(bytes@, 0));
    assert(second == letter(bytes@, 1));
    assert(third == letter(bytes@, 2));
    if first < 1 || first > 26 || second < 1 || second > 26 || third < 1 || third > 26 {
        return None;
    }
    let mut mfg = String::new();
    mfg.push((64 + first as u8) as char);
    mfg.push((64 + second as u8) as char);
    mfg.push((64 + third as u8) as char);
    assert(forall|i: int| 0 <= i < 3 ==> 1 <= #[trigger] letter(bytes@, i) <= 26);
    assert(mfg@ =~= manufacturer(bytes@)->0);
    let product: u16 = bytes[10] as u16 + 256 * (bytes[11] as u16);
    let serial: u32 = bytes[12] as u32 + 256 * (bytes[13] as u32) + 65536 * (bytes[14] as u32)
        + 16777216 * (bytes[15] as u32);
    let serial: Option<u32> = if serial == 0 {
        None
    } else {
        Some(serial)
    };
    Some(EdidId { mfg, product, serial, name: monitor_name(bytes) })
}

/// Pull the monitor name out of the four 18 byte descriptors. A descriptor is a
/// monitor descriptor when it starts with three zero bytes; byte 3 is its tag.
pub fn monitor_name(b: &[u8]) -> (r: String)
    requires
        b@.len() >= EDID_BASE_LEN,
    ensures
        r@ == name_from(b@, 54),
{
    let mut off: usize = 54;
    while off < 126
        invariant
            54 <= off <= 126,
            off % 18 == 0,
            b@.len() >= EDID_BASE_LEN,
            name_from(b@, off as int) == name_from(b@, 54),
        decreases 126 - off,
    {
        if b[off] == 0 && b[off + 1] == 0 && b[off + 2] == 0 && b[off + 3] == TAG_MONITOR_NAME {
            let mut name: Vec<char> = Vec::new();
            let mut i: usize = 0;
            while i < 13 && b[off + 5 + i] != 0x0A
                invariant
                    i <= 13,
                    54 <= off <= 108,
                    b@.len() >= EDID_BASE_LEN,
                    name_end(b@, off as int, 0) == name_end(b@, off as int, i as int),
                    name@ == Seq::new(i as nat, |k: int| shown(b@[off + 5 + k])),
                decreases 13 - i,
            {
                let c: u8 = b[off + 5 + i];
                if 0x20 <= c && c < 0x7F {
                    name.push(c as char);
                } else {
                    name.push(' ');
                }
                i += 1;
                assert(name@ =~= Seq::new(i as nat, |k: int| shown(b@[off + 5 + k])));
            }
            return crate::text::text(trim(name.as_slice()));
        }
        off += 18;
    }
    String::new()
}

// ---- what holds of EDIDs -------------------------------------------------

/// Bytes are an EDID exactly where there are 128 of them or more, they begin with 00 FF
/// FF FF FF FF FF 00, and the three fields of five bits behind that each stand for a
/// letter.
pub proof fn an_edid_begins_so(b: Seq<u8>)
    ensures
        is_edid(b) <==> {
            &&& b.len() >= 128
            &&& b[0] == 0 && b[1] == 255 && b[2] == 255 && b[3] == 255 && b[4] == 255 && b[5] == 255
                && b[6] == 255 && b[7] == 0
            &&& 1 <= b[8] / 4 % 32 <= 26
            &&& 1 <= (b[8] % 4) * 8 + b[9] / 32 <= 26
            &&& 1 <= b[9] % 32 <= 26
        },
{
    letters_by_their_bits(b);
    if manufacturer(b) is Some {
        assert(1 <= letter(b, 0) <= 26 && 1 <= letter(b, 1) <= 26 && 1 <= letter(b, 2) <= 26);
    }
    if 1 <= letter(b, 0) <= 26 && 1 <= letter(b, 1) <= 26 && 1 <= letter(b, 2) <= 26 {
        assert forall|i: int| 0 <= i < 3 implies 1 <= #[trigger] letter(b, i) <= 26 by {
            if i == 0 {
            } else if i == 1 {
            } else {
                assert(i == 2);
            }
        }
    }
    if header_ok(b) {
        assert(b[1] == 255 && b[2] == 255 && b[3] == 255 && b[4] == 255 && b[5] == 255 && b[6]
            == 255);
    }
}

/// What an EDID says of the monitor: the letters with A for one, the product code with
/// its low byte first, and the serial number likewise, which a zero stands for none of.
pub proof fn an_edid_says_who_made_it(b: Seq<u8>)
    requires
        is_edid(b),
    ensures
        identity(b).mfg.len() == 3,
        identity(b).mfg[0] == (64 + b[8] / 4 % 32) as char,
        identity(b).mfg[1] == (64 + ((b[8] % 4) * 8 + b[9] / 32)) as char,
        identity(b).mfg[2] == (64 + b[9] % 32) as char,
        identity(b).product % 256 == b[10],
        identity(b).product / 256 == b[11],
        identity(b).serial is None <==> b[12] == 0 && b[13] == 0 && b[14] == 0 && b[15] == 0,
        identity(b).serial matches Some(n) ==> n % 256 == b[12] && n / 256 % 256 == b[13] && n
            / 65536 % 256 == b[14] && n / 16777216 == b[15],
{
    letters_by_their_bits(b);
    low_byte_first(b[12], b[13], b[14], b[15]);
    let s = manufacturer(b)->0;
    assert(s[0] == (64 + letter(b, 0)) as char);
    assert(s[1] == (64 + letter(b, 1)) as char);
    assert(s[2] == (64 + letter(b, 2)) as char);
}

proof fn low_byte_first(p: u8, q: u8, r: u8, s: u8)
    ensures
        ({
            let n = p + 256 * q + 65536 * r + 16777216 * s;
            &&& n % 256 == p
            &&& n / 256 % 256 == q
            &&& n / 65536 % 256 == r
            &&& n / 16777216 == s
            &&& 0 <= n <= 0xFFFF_FFFF
        }),
{
}

proof fn letters_by_their_bits(b: Seq<u8>)
    ensures
        letter(b, 0) == b[8] / 4 % 32,
        letter(b, 1) == (b[8] % 4) * 8 + b[9] / 32,
        letter(b, 2) == b[9] % 32,
{
    five_bits(b[8] as int, b[9] as int);
}

proof fn five_bits(hi: int, lo: int)
    requires
        0 <= hi < 256,
        0 <= lo < 256,
    ensures
        (hi * 256 + lo) / 1024 % 32 == hi / 4 % 32,
        (hi * 256 + lo) / 32 % 32 == (hi % 4) * 8 + lo / 32,
        (hi * 256 + lo) % 32 == lo % 32,
{
    let (a, b, c, d) = (hi / 4, hi % 4, lo / 32, lo % 32);
    let packed = hi * 256 + lo;
    assert(packed == 1024 * a + (256 * b + 32 * c + d));
    assert(packed / 1024 == a);
    assert(packed / 32 == 32 * a + (8 * b + c));
}

/// The name is that of the first of the four descriptors that is tagged as a name, and
/// empty where none is: the bytes behind the tag up to the first line feed, thirteen at
/// most, each that is not printable as a space, and then trimmed.
pub proof fn the_first_name_descriptor_counts(b: Seq<u8>)
    ensures
        name_from(b, 54) == if tagged(b, 54) {
            name_at(b, 54)
        } else if tagged(b, 72) {
            name_at(b, 72)
        } else if tagged(b, 90) {
            name_at(b, 90)
        } else if tagged(b, 108) {
            name_at(b, 108)
        } else {
            Seq::empty()
        },
{
    reveal_with_fuel(name_from, 5);
}

/// Whether a descriptor begins with 00 00 00 FC.
pub open spec fn tagged(b: Seq<u8>, off: int) -> bool {
    b[off] == 0 && b[off + 1] == 0 && b[off + 2] == 0 && b[off + 3] == 252
}

/// What a descriptor's bytes spell.
pub proof fn a_name_ends_at_a_line_feed(b: Seq<u8>, off: int) -> (n: int)
    ensures
        0 <= n <= 13,
        n < 13 ==> b[off + 5 + n] == 10,
        forall|k: int| 0 <= k < n ==> #[trigger] b[off + 5 + k] != 10,
        name_at(b, off) == trimmed(
            Seq::new(
                n as nat,
                |k: int|
                    if 32 <= b[off + 5 + k] <= 126 {
                        b[off + 5 + k] as char
                    } else {
                        ' '
                    },
            ),
        ),
{
    let n = name_end(b, off, 0);
    line_feed_is_first(b, off, 0);
    assert(Seq::new(n as nat, |i: int| shown(b[off + 5 + i])) =~= Seq::new(
        n as nat,
        |k: int|
            if 32 <= b[off + 5 + k] <= 126 {
                b[off + 5 + k] as char
            } else {
                ' '
            },
    ));
    n
}

proof fn line_feed_is_first(b: Seq<u8>, off: int, i: int)
    requires
        0 <= i <= 13,
    ensures
        i <= name_end(b, off, i) <= 13,
        name_end(b, off, i) < 13 ==> b[off + 5 + name_end(b, off, i)] == 10,
        forall|k: int| i <= k < name_end(b, off, i) ==> #[trigger] b[off + 5 + k] != 10,
    decreases 13 - i,
{
    if i < 13 && b[off + 5 + i] != 0x0A {
        line_feed_is_first(b, off, i + 1);
    }
}

/// An identity is spelt as the maker, the product in four hexadecimal digits, and the
/// serial in decimal where there is one.
pub proof fn an_identity_is_spelt_so(mfg: Seq<char>, product: u16, n: u32)
    ensures
        (EdidKey { mfg, product, serial: None }).text() == mfg + ":"@ + hex(product as nat, 4),
        (EdidKey { mfg, product, serial: Some(n) }).text() == mfg + ":"@ + hex(product as nat, 4) + ":"@
            + dec(n as nat),
{
}

} // verus!
