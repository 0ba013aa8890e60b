//! Runtime allowances: devices the daemon accepts for this uptime only.
//!
//! An allowance names one device on one bus, the same identity the config
//! whitelist for that bus already matches on, so the daemon can consult it at
//! the point it consults the config and there is no second acceptance path.
//! The table is memory only and never written to disk, so a restart is a clean
//! slate.
//!
//! Nothing here reads the clock. Matching and sweeping take `now` from the
//! caller. A moment is a count of nanoseconds on the caller's monotonic clock,
//! a span is a count of nanoseconds.

use vstd::prelude::*;

use crate::edid::{EdidId, EdidKey};
use crate::number::{
    is_digit_of,
    all_digits, dec, dec_is_unsigned, dec_reads_back, digit_of, digit_value,
    digits_only, hex, hex_reads_back, pow16, read, unsigned,
};
use crate::sdcard::SdCardDeviceId;
use crate::text::{
    after, before, cat2, cat3, cat5, chars, cut, fields, is, lower, one_field, slice_views, split,
    split_once, text, to_lower,
};
use crate::thunderbolt::ThunderboltDeviceId;
use crate::usb::{usb_text, UsbDeviceId};

verus! {

/// The identity of one allowed device, per bus, exactly as that bus matches.
/// Power, network and lid are absent on purpose: they are events with nothing
/// to identify.
#[derive(Debug)]
pub enum DeviceRef {
    Usb(UsbDeviceId),
    Thunderbolt(ThunderboltDeviceId),
    SdCard(SdCardDeviceId),
    /// PCI selector, for example `0000:01:00.0`.
    Pci(String),
    /// The monitor, never the connector it is plugged into.
    Display(EdidId),
}

/// What a `DeviceRef` says, as plain sequences.
pub enum DeviceKey {
    Usb(Seq<char>, Seq<char>),
    Thunderbolt(Seq<char>),
    SdCard(Seq<char>),
    Pci(Seq<char>),
    Display(EdidKey),
}

impl View for DeviceRef {
    type V = DeviceKey;

    open spec fn view(&self) -> DeviceKey {
        match self {
            DeviceRef::Usb(id) => DeviceKey::Usb(id.vendor_id@, id.product_id@),
            DeviceRef::Thunderbolt(id) => DeviceKey::Thunderbolt(id@),
            DeviceRef::SdCard(id) => DeviceKey::SdCard(id@),
            DeviceRef::Pci(sel) => DeviceKey::Pci(sel@),
            DeviceRef::Display(id) => DeviceKey::Display(id@),
        }
    }
}

impl PartialEq for DeviceRef {
    fn eq(&self, other: &Self) -> (r: bool) {
        match (self, other) {
            (DeviceRef::Usb(a), DeviceRef::Usb(b)) => *a == *b,
            (DeviceRef::Thunderbolt(a), DeviceRef::Thunderbolt(b)) => *a == *b,
            (DeviceRef::SdCard(a), DeviceRef::SdCard(b)) => *a == *b,
            (DeviceRef::Pci(a), DeviceRef::Pci(b)) => *a == *b,
            (DeviceRef::Display(a), DeviceRef::Display(b)) => *a == *b,
            _ => false,
        }
    }
}

impl vstd::std_specs::cmp::PartialEqSpecImpl for DeviceRef {
    open spec fn obeys_eq_spec() -> bool {
        true
    }

    open spec fn eq_spec(&self, other: &Self) -> bool {
        self@ == other@
    }
}

impl Eq for DeviceRef {

}

impl Clone for DeviceRef {
    fn clone(&self) -> (r: Self)
        ensures
            r == *self,
    {
        match self {
            DeviceRef::Usb(id) => DeviceRef::Usb(id.clone()),
            DeviceRef::Thunderbolt(id) => DeviceRef::Thunderbolt(id.clone()),
            DeviceRef::SdCard(id) => DeviceRef::SdCard(id.clone()),
            DeviceRef::Pci(sel) => DeviceRef::Pci(sel.clone()),
            DeviceRef::Display(id) => DeviceRef::Display(id.clone()),
        }
    }
}

impl DeviceKey {
    /// The bus prefix.
    pub open spec fn bus(self) -> Seq<char> {
        match self {
            DeviceKey::Usb(_, _) => "usb"@,
            DeviceKey::Thunderbolt(_) => "thunderbolt"@,
            DeviceKey::SdCard(_) => "sdcard"@,
            DeviceKey::Pci(_) => "pci"@,
            DeviceKey::Display(_) => "display"@,
        }
    }

    /// What follows the bus prefix.
    pub open spec fn identity(self) -> Seq<char> {
        match self {
            DeviceKey::Usb(v, p) => usb_text((v, p)),
            DeviceKey::Thunderbolt(id) => id,
            DeviceKey::SdCard(serial) => serial,
            DeviceKey::Pci(sel) => sel,
            DeviceKey::Display(id) => id.text(),
        }
    }

    /// The selector form, `<bus>:<identity>`.
    pub open spec fn text(self) -> Seq<char> {
        self.bus() + ":"@ + self.identity()
    }

    /// Whether this identity has the shape its bus reports.
    pub open spec fn valid(self) -> bool {
        match self {
            DeviceKey::Usb(v, p) => usb_id(v) && usb_id(p),
            DeviceKey::Thunderbolt(id) => id.len() > 0,
            DeviceKey::SdCard(serial) => serial.len() > 0,
            DeviceKey::Pci(sel) => pci_shape(sel),
            DeviceKey::Display(id) => mfg_shape(id.mfg),
        }
    }
}

/// Up to four hexadecimal digits in either case, at least one.
pub open spec fn usb_digits(s: Seq<char>) -> bool {
    1 <= s.len() <= 4 && all_digits(s, 16)
}

/// A USB id as sysfs reports it: up to four hex digits, lower case.
pub open spec fn usb_id(s: Seq<char>) -> bool {
    usb_digits(s) && lower(s) == s
}

/// `0000:01:00.0`: four hex digits, two, two, then a single function digit.
pub open spec fn pci_shape(s: Seq<char>) -> bool {
    &&& s.len() == 12
    &&& s[4] == ':' && s[7] == ':' && s[10] == '.'
    &&& forall|i: int|
        0 <= i < 12 && i != 4 && i != 7 && i != 10 ==> digit_value(#[trigger] s[i]) < 16
}

/// A capital letter.
pub open spec fn capital(c: char) -> bool {
    65 <= c as u32 <= 90
}

/// Three capital letters.
pub open spec fn mfg_shape(s: Seq<char>) -> bool {
    s.len() == 3 && forall|i: int| 0 <= i < 3 ==> capital(#[trigger] s[i])
}

/// Why a text is not a USB id.
pub open spec fn not_usb(part: Seq<char>, what: Seq<char>) -> Seq<char> {
    "'"@ + part + "' is not a USB "@ + what + " id"@
}

/// What the identity of a display says, or why it says nothing.
pub open spec fn read_display(rest: Seq<char>) -> Result<EdidKey, Seq<char>> {
    let parts = fields(rest, ':');
    let product = unsigned(parts[1], 16, 0xFFFF);
    let serial = unsigned(parts[2], 10, 0xFFFF_FFFF);
    if !mfg_shape(parts[0]) {
        Err("'"@ + parts[0] + "' is not a three letter manufacturer code"@)
    } else if parts.len() < 2 || product is None {
        Err("'"@ + rest + "' has no hex product code"@)
    } else if parts.len() > 2 && serial is None {
        Err("'"@ + parts[2] + "' is not a monitor serial"@)
    } else if parts.len() > 3 {
        Err("'"@ + rest + "' has more fields than a display identity"@)
    } else {
        Ok(
            EdidKey {
                mfg: parts[0],
                product: product->0 as u16,
                serial: if parts.len() > 2 {
                    Some(serial->0 as u32)
                } else {
                    None
                },
            },
        )
    }
}

/// What a selector says, or why it is refused. The pci and display identities
/// contain colons of their own, so the bus prefix is split off first and the
/// rest is read the way that bus reads it.
pub open spec fn read_selector(s: Seq<char>) -> Result<DeviceKey, Seq<char>> {
    let bus = before(s, ':');
    let rest = after(s, ':');
    if !s.contains(':') {
        Err("selector '"@ + s + "' is not <bus>:<identity>"@)
    } else if bus == "usb"@ {
        let v = before(rest, ':');
        let p = after(rest, ':');
        if !rest.contains(':') {
            Err("'"@ + s + "' is not usb:<vendor>:<product>"@)
        } else if !usb_digits(v) {
            Err(not_usb(v, "vendor"@))
        } else if !usb_digits(p) {
            Err(not_usb(p, "product"@))
        } else {
            Ok(DeviceKey::Usb(lower(v), lower(p)))
        }
    } else if bus == "thunderbolt"@ {
        if rest.len() > 0 {
            Ok(DeviceKey::Thunderbolt(rest))
        } else {
            Err("selector '"@ + s + "' has no identity"@)
        }
    } else if bus == "sdcard"@ {
        if rest.len() > 0 {
            Ok(DeviceKey::SdCard(rest))
        } else {
            Err("selector '"@ + s + "' has no identity"@)
        }
    } else if bus == "pci"@ {
        if pci_shape(rest) {
            Ok(DeviceKey::Pci(rest))
        } else {
            Err("'"@ + rest + "' is not a PCI selector like 0000:01:00.0"@)
        }
    } else if bus == "display"@ {
        match read_display(rest) {
            Ok(id) => Ok(DeviceKey::Display(id)),
            Err(e) => Err(e),
        }
    } else if bus == "power"@ || bus == "network"@ || bus == "lid"@ {
        Err(
            bus
                + " violations are events rather than devices, so there is nothing to allow; use disarm for them"@,
        )
    } else {
        Err("unknown bus '"@ + bus + "' in selector '"@ + s + "'"@)
    }
}

/// Whether a result is the one a spec function gives.
pub open spec fn reads_as(r: Result<DeviceRef, String>, want: Result<DeviceKey, Seq<char>>) -> bool {
    match (r, want) {
        (Ok(d), Ok(k)) => d@ == k && (d matches DeviceRef::Display(id) ==> id.name@.len() == 0),
        (Err(e), Err(m)) => e@ == m,
        _ => false,
    }
}

/// `0000:01:00.0`: four hex digits, two, two, then a single function digit.
pub fn is_pci_selector(s: &[char]) -> (r: bool)
    ensures
        r == pci_shape(s@),
{
    if s.len() != 12 || s[4] != ':' || s[7] != ':' || s[10] != '.' {
        return false;
    }
    let mut i: usize = 0;
    while i < 12
        invariant
            i <= 12,
            s@.len() == 12,
            forall|k: int|
                0 <= k < i && k != 4 && k != 7 && k != 10 ==> digit_value(#[trigger] s@[k]) < 16,
        decreases 12 - i,
    {
        if i != 4 && i != 7 && i != 10 && digit_of(s[i]) >= 16 {
            return false;
        }
        i += 1;
    }
    true
}

/// A USB id as sysfs reports it: up to four hex digits, lower case. Selectors
/// typed by a person may be upper case, so normalise rather than refuse.
pub fn usb_hex(part: &[char], what: &str) -> (r: Result<String, String>)
    ensures
        match r {
            Ok(id) => usb_digits(part@) && id@ == lower(part@),
            Err(e) => !usb_digits(part@) && e@ == not_usb(part@, what@),
        },
{
    if part.len() == 0 || part.len() > 4 || !digits_only(part, 16) {
        let part = text(part);
        return Err(cat5("'", part.as_str(), "' is not a USB ", what, " id"));
    }
    Ok(to_lower(part))
}

/// Whether a text is three capital letters.
fn is_mfg(s: &[char]) -> (r: bool)
    ensures
        r == mfg_shape(s@),
{
    if s.len() != 3 {
        return false;
    }
    let mut i: usize = 0;
    while i < 3
        invariant
            i <= 3,
            s@.len() == 3,
            forall|k: int| 0 <= k < i ==> capital(#[trigger] s@[k]),
        decreases 3 - i,
    {
        let u: u32 = s[i] as u32;
        if u < 65 || 90 < u {
            return false;
        }
        i += 1;
    }
    true
}

/// `SAM:772d:811021873`, or `SAM:772d` when the monitor reports serial 0.
/// The name is not part of identity, so a parsed id carries none.
pub fn parse_display(rest: &[char]) -> (r: Result<EdidId, String>)
    ensures
        match (r, read_display(rest@)) {
            (Ok(id), Ok(k)) => id@ == k && id.name@.len() == 0,
            (Err(e), Err(m)) => e@ == m,
            _ => false,
        },
{
    let parts = split(rest, ':');
    assert(slice_views(parts@).len() == parts@.len());
    let mfg = parts[0];
    assert(slice_views(parts@)[0] == mfg@);
    if !is_mfg(mfg) {
        return Err(cat3("'", text(mfg).as_str(), "' is not a three letter manufacturer code"));
    }
    let product: Option<u64> = if parts.len() > 1 {
        assert(slice_views(parts@)[1] == parts@[1]@);
        read(parts[1], 16, 0xFFFF)
    } else {
        None
    };
    let product: u16 = match product {
        Some(p) => p as u16,
        None => {
            return Err(cat3("'", text(rest).as_str(), "' has no hex product code"));
        },
    };
    let serial: Option<u32> = if parts.len() > 2 {
        assert(slice_views(parts@)[2] == parts@[2]@);
        match read(parts[2], 10, 0xFFFF_FFFF) {
            Some(n) => Some(n as u32),
            None => {
                return Err(cat3("'", text(parts[2]).as_str(), "' is not a monitor serial"));
            },
        }
    } else {
        None
    };
    if parts.len() > 3 {
        return Err(
            cat3("'", text(rest).as_str(), "' has more fields than a display identity"),
        );
    }
    Ok(EdidId { mfg: text(mfg), product, serial, name: String::new() })
}

impl DeviceRef {
    /// Bus prefix, matching the keys in `ipc::BUSES` without `_watching`.
    pub fn bus(&self) -> (r: &'static str)
        ensures
            r@ == self@.bus(),
    {
        match self {
            DeviceRef::Usb(_) => "usb",
            DeviceRef::Thunderbolt(_) => "thunderbolt",
            DeviceRef::SdCard(_) => "sdcard",
            DeviceRef::Pci(_) => "pci",
            DeviceRef::Display(_) => "display",
        }
    }

    /// The selector form, `<bus>:<identity>`. Round trips through `parse`.
    pub fn selector(&self) -> (r: String)
        ensures
            r@ == self@.text(),
    {
        let identity = match self {
            DeviceRef::Usb(id) => id.text(),
            DeviceRef::Thunderbolt(id) => id.unique_id.clone(),
            DeviceRef::SdCard(id) => id.serial.clone(),
            DeviceRef::Pci(sel) => sel.clone(),
            DeviceRef::Display(id) => id.selector(),
        };
        cat3(self.bus(), ":", identity.as_str())
    }

    /// Parse a selector.
    pub fn parse(s: &str) -> (r: Result<DeviceRef, String>)
        ensures
            reads_as(r, read_selector(s@)),
    {
        let all = chars(s);
        let (bus, rest) = match split_once(all.as_slice(), ':') {
            Some(pair) => pair,
            None => {
                return Err(cat3("selector '", s, "' is not <bus>:<identity>"));
            },
        };
        if is(bus, "usb") {
            let (v, p) = match split_once(rest, ':') {
                Some(pair) => pair,
                None => {
                    return Err(cat3("'", s, "' is not usb:<vendor>:<product>"));
                },
            };
            let vendor_id = match usb_hex(v, "vendor") {
                Ok(id) => id,
                Err(e) => {
                    return Err(e);
                },
            };
            let product_id = match usb_hex(p, "product") {
                Ok(id) => id,
                Err(e) => {
                    return Err(e);
                },
            };
            return Ok(DeviceRef::Usb(UsbDeviceId { vendor_id, product_id }));
        }
        if is(bus, "thunderbolt") {
            if rest.len() > 0 {
                return Ok(DeviceRef::Thunderbolt(ThunderboltDeviceId { unique_id: text(rest) }));
            }
            return Err(cat3("selector '", s, "' has no identity"));
        }
        if is(bus, "sdcard") {
            if rest.len() > 0 {
                return Ok(DeviceRef::SdCard(SdCardDeviceId { serial: text(rest) }));
            }
            return Err(cat3("selector '", s, "' has no identity"));
        }
        if is(bus, "pci") {
            if is_pci_selector(rest) {
                return Ok(DeviceRef::Pci(text(rest)));
            }
            return Err(cat3("'", text(rest).as_str(), "' is not a PCI selector like 0000:01:00.0"));
        }
        if is(bus, "display") {
            return match parse_display(rest) {
                Ok(id) => Ok(DeviceRef::Display(id)),
                Err(e) => Err(e),
            };
        }
        let bus_text = text(bus);
        if is(bus, "power") || is(bus, "network") || is(bus, "lid") {
            return Err(
                cat2(
                    bus_text.as_str(),
                    " violations are events rather than devices, so there is nothing to allow; use disarm for them",
                ),
            );
        }
        Err(cat5("unknown bus '", bus_text.as_str(), "' in selector '", s, "'"))
    }
}

impl core::str::FromStr for DeviceRef {
    type Err = String;

    fn from_str(s: &str) -> (r: Result<Self, String>)
        ensures
            reads_as(r, read_selector(s@)),
    {
        DeviceRef::parse(s)
    }
}

// ---- what holds of selectors ---------------------------------------------

/// Every identity of the shape its bus reports is read back from the selector
/// that names it.
pub proof fn selectors_round_trip(k: DeviceKey)
    requires
        k.valid(),
    ensures
        read_selector(k.text()) == Ok::<DeviceKey, Seq<char>>(k),
{
    reveal_strlit(":");
    reveal_strlit("usb");
    reveal_strlit("thunderbolt");
    reveal_strlit("sdcard");
    reveal_strlit("pci");
    reveal_strlit("display");
    assert(":"@ =~= seq![':']);
    cut(k.bus(), ':', k.identity());
    match k {
        DeviceKey::Usb(v, p) => {
            digits_hold_no_colon(v);
            cut(v, ':', p);
        },
        DeviceKey::Display(id) => {
            display_round_trips(id);
        },
        _ => {},
    }
    assert("usb"@.len() == 3 && "pci"@.len() == 3 && "usb"@[0] != "pci"@[0]);
    assert("thunderbolt"@.len() == 11 && "sdcard"@.len() == 6 && "display"@.len() == 7);
}

/// A digit is no colon.
proof fn digits_hold_no_colon(s: Seq<char>)
    requires
        all_digits(s, 16),
    ensures
        !s.contains(':'),
{
    if s.contains(':') {
        let i = choose|i: int| 0 <= i < s.len() && s[i] == ':';
        assert(digit_value(s[i]) < 16);
    }
}

/// The parts of a monitor's identity hold no colon.
proof fn display_parts_hold_no_colon(id: EdidKey)
    requires
        mfg_shape(id.mfg),
    ensures
        !id.mfg.contains(':'),
        !hex(id.product as nat, 4).contains(':'),
        unsigned(hex(id.product as nat, 4), 16, 0xFFFF) == Some(id.product as nat),
{
    let h = hex(id.product as nat, 4);
    assert(pow16(4) == 65536) by {
        reveal_with_fuel(pow16, 5);
    }
    hex_reads_back(id.product as nat, 4);
    digits_hold_no_colon(h);
    if id.mfg.contains(':') {
        let i = choose|i: int| 0 <= i < id.mfg.len() && id.mfg[i] == ':';
        assert(capital(id.mfg[i]));
    }
}

/// A decimal number holds no colon.
proof fn dec_holds_no_colon(n: nat)
    ensures
        !dec(n).contains(':'),
{
    dec_reads_back(n);
    let d = dec(n);
    if d.contains(':') {
        let i = choose|i: int| 0 <= i < d.len() && d[i] == ':';
        assert(digit_value(d[i]) < 10);
    }
}

/// The fields of a monitor's identity.
proof fn display_fields(id: EdidKey)
    requires
        mfg_shape(id.mfg),
    ensures
        fields(id.text(), ':') == match id.serial {
            Some(s) => seq![id.mfg, hex(id.product as nat, 4), dec(s as nat)],
            None => seq![id.mfg, hex(id.product as nat, 4)],
        },
{
    reveal_strlit(":");
    assert(":"@ =~= seq![':']);
    display_parts_hold_no_colon(id);
    let h = hex(id.product as nat, 4);
    match id.serial {
        Some(s) => {
            let d = dec(s as nat);
            dec_holds_no_colon(s as nat);
            let tail = h + seq![':'] + d;
            assert(id.text() =~= id.mfg + seq![':'] + tail);
            cut(id.mfg, ':', tail);
            cut(h, ':', d);
            one_field(d, ':');
            assert(fields(id.text(), ':') =~= seq![id.mfg, h, d]);
        },
        None => {
            assert(id.text() =~= id.mfg + seq![':'] + h);
            cut(id.mfg, ':', h);
            one_field(h, ':');
            assert(fields(id.text(), ':') =~= seq![id.mfg, h]);
        },
    }
}

/// A monitor's identity is read back from its text.
proof fn display_round_trips(id: EdidKey)
    requires
        mfg_shape(id.mfg),
    ensures
        read_display(id.text()) == Ok::<EdidKey, Seq<char>>(id),
{
    display_parts_hold_no_colon(id);
    display_fields(id);
    let parts = fields(id.text(), ':');
    assert(parts[0] == id.mfg);
    assert(parts[1] == hex(id.product as nat, 4));
    if let Some(s) = id.serial {
        assert(parts[2] == dec(s as nat));
        dec_is_unsigned(s as nat, 0xFFFF_FFFF);
    }
}

/// A selector that is read at all is read as an identity of the shape its bus
/// reports, so printing it and reading it again changes nothing.
pub proof fn a_read_selector_is_canonical(s: Seq<char>)
    requires
        read_selector(s) is Ok,
    ensures
        read_selector(s)->Ok_0.valid(),
        read_selector(read_selector(s)->Ok_0.text()) == read_selector(s),
{
    let k = read_selector(s)->Ok_0;
    match k {
        DeviceKey::Usb(v, p) => {
            let rest = after(s, ':');
            lower_is_canonical(before(rest, ':'));
            lower_is_canonical(after(rest, ':'));
        },
        _ => {},
    }
    selectors_round_trip(k);
}

/// Making capitals small twice makes them small once, and a digit in either
/// case stays a digit.
proof fn lower_is_canonical(s: Seq<char>)
    requires
        usb_digits(s),
    ensures
        usb_id(lower(s)),
{
    assert(lower(lower(s)) =~= lower(s));
    assert forall|i: int| 0 <= i < lower(s).len() implies digit_value(#[trigger] lower(s)[i])
        < 16 by {
        assert(digit_value(s[i]) < 16);
    }
}

/// A bare `<bus>:` names no device on any bus: every selector carries an identity.
pub proof fn a_bare_bus_names_no_device(bus: Seq<char>)
    requires
        !bus.contains(':'),
    ensures
        read_selector(bus + ":"@) is Err,
{
    reveal_strlit(":");
    let none = Seq::<char>::empty();
    assert(bus + ":"@ =~= bus + seq![':'] + none);
    cut(bus, ':', none);
    assert(!none.contains(':'));
    one_field(none, ':');
    assert(fields(none, ':')[0].len() == 0);
}

/// Selectors on different buses never name the same device, and neither do two
/// different identities of one bus.
pub proof fn selectors_are_unique(a: DeviceKey, b: DeviceKey)
    requires
        a.valid(),
        b.valid(),
        a.text() == b.text(),
    ensures
        a == b,
{
    selectors_round_trip(a);
    selectors_round_trip(b);
}

// ---- the table -----------------------------------------------------------

/// How an allowance came to exist.
#[derive(Debug, Clone, Copy, PartialEq, Eq, Structural)]
pub enum Grant {
    /// Admitted through a pairing window.
    Paired,
    /// Promoted from the last recorded violation.
    Promoted,
}

impl Grant {
    /// The wire form used in status responses.
    pub open spec fn word(self) -> Seq<char> {
        match self {
            Grant::Paired => "paired"@,
            Grant::Promoted => "promoted"@,
        }
    }

    /// The wire form used in status responses.
    pub fn as_str(&self) -> (r: &'static str)
        ensures
            r@ == self.word(),
    {
        match self {
            Grant::Paired => "paired",
            Grant::Promoted => "promoted",
        }
    }
}

/// One allowed device. No expiry by default: a timer running out on a kill
/// switch would power the machine off with the device still plugged in, and the
/// in memory table already bounds an allowance to one uptime.
#[derive(Debug)]
pub struct Allowance {
    pub id: DeviceRef,
    pub expires_at: Option<u128>,
    pub granted_by: Grant,
    pub granted_at: u128,
    /// Friendly name when the daemon knew one when it granted this.
    pub name: Option<String>,
    /// Set once the approaching-expiry warning has been logged.
    pub warned: bool,
}

impl Allowance {
    /// An allowance that runs from `now`, for `ttl` where one is given.
    pub fn new(id: DeviceRef, granted_by: Grant, now: u128, ttl: Option<u128>) -> (r: Allowance)
        requires
            ttl is Some ==> now + ttl->0 <= u128::MAX,
        ensures
            r == (Allowance {
                id,
                expires_at: match ttl {
                    Some(d) => Some((now + d) as u128),
                    None => None,
                },
                granted_by,
                granted_at: now,
                name: None,
                warned: false,
            }),
    {
        let expires_at: Option<u128> = match ttl {
            Some(d) => Some(now + d),
            None => None,
        };
        Allowance { id, expires_at, granted_by, granted_at: now, name: None, warned: false }
    }

    /// The same allowance under a name.
    pub fn with_name(self, name: Option<String>) -> (r: Allowance)
        ensures
            r == (Allowance { name, ..self }),
    {
        Allowance {
            id: self.id,
            expires_at: self.expires_at,
            granted_by: self.granted_by,
            granted_at: self.granted_at,
            name,
            warned: self.warned,
        }
    }

    /// Whether the allowance still stands at `now`.
    pub open spec fn active_at(self, now: u128) -> bool {
        self.expires_at matches Some(e) ==> e > now
    }

    /// How long the allowance has left at `now`, zero when it has run out.
    pub open spec fn left_at(self, now: u128) -> Option<u128> {
        match self.expires_at {
            Some(e) => Some(
                if e > now {
                    (e - now) as u128
                } else {
                    0
                },
            ),
            None => None,
        }
    }

    /// Whether the allowance still stands at `now`.
    pub fn is_active(&self, now: u128) -> (r: bool)
        ensures
            r == self.active_at(now),
    {
        match self.expires_at {
            Some(e) => e > now,
            None => true,
        }
    }

    /// How long ago it was granted.
    pub fn age(&self, now: u128) -> (r: u128)
        ensures
            r == if now > self.granted_at {
                now - self.granted_at
            } else {
                0
            },
    {
        if now > self.granted_at {
            now - self.granted_at
        } else {
            0
        }
    }

    /// How long it has left, when it runs out at all.
    pub fn expires_in(&self, now: u128) -> (r: Option<u128>)
        ensures
            r == self.left_at(now),
    {
        match self.expires_at {
            Some(e) => Some(
                if e > now {
                    e - now
                } else {
                    0
                },
            ),
            None => None,
        }
    }
}

/// The daemon's allowance table: at most one entry per device, oldest grant
/// first.
#[derive(Debug)]
pub struct AllowanceTable {
    entries: Vec<Allowance>,
}

impl View for AllowanceTable {
    type V = Seq<Allowance>;

    closed spec fn view(&self) -> Seq<Allowance> {
        self.entries@
    }
}

/// No device is listed twice.
pub open spec fn one_per_device(entries: Seq<Allowance>) -> bool {
    forall|i: int, j: int|
        0 <= i < j < entries.len() ==> (#[trigger] entries[i]).id@ != (#[trigger] entries[j]).id@
}

/// Where the entry for a device stands, or the length.
pub open spec fn entry_of(entries: Seq<Allowance>, key: DeviceKey, i: int) -> int
    decreases entries.len() - i,
{
    if i >= entries.len() || i < 0 {
        entries.len() as int
    } else if entries[i].id@ == key {
        i
    } else {
        entry_of(entries, key, i + 1)
    }
}

/// The entries without the one for a device.
pub open spec fn without(entries: Seq<Allowance>, key: DeviceKey) -> Seq<Allowance> {
    let at = entry_of(entries, key, 0);
    if at < entries.len() {
        entries.remove(at)
    } else {
        entries
    }
}

/// The entry for a device.
pub open spec fn lookup(entries: Seq<Allowance>, key: DeviceKey) -> Option<Allowance> {
    let at = entry_of(entries, key, 0);
    if at < entries.len() {
        Some(entries[at])
    } else {
        None
    }
}

/// Whether the expiry of an entry is due for its one warning.
pub open spec fn due(a: Allowance, now: u128, ahead: u128) -> bool {
    !a.warned && (a.left_at(now) matches Some(left) && left <= ahead)
}

/// The entries after those that are due have been flagged.
pub open spec fn flagged(entries: Seq<Allowance>, now: u128, ahead: u128) -> Seq<Allowance> {
    entries.map_values(
        |a: Allowance|
            if due(a, now, ahead) {
                Allowance { warned: true, ..a }
            } else {
                a
            },
    )
}

/// What is warned about: the selector of each entry that is due, and how long
/// it has left.
pub open spec fn warnings(entries: Seq<Allowance>, now: u128, ahead: u128) -> Seq<
    (Seq<char>, u128),
>
    decreases entries.len(),
{
    if entries.len() == 0 {
        Seq::empty()
    } else {
        let front = warnings(entries.drop_last(), now, ahead);
        let a = entries.last();
        if due(a, now, ahead) {
            front.push((a.id@.text(), a.left_at(now)->0))
        } else {
            front
        }
    }
}

/// `entry_of` finds the first entry for the device.
proof fn entry_of_is_first(entries: Seq<Allowance>, key: DeviceKey, i: int)
    requires
        0 <= i <= entries.len(),
    ensures
        i <= entry_of(entries, key, i) <= entries.len(),
        entry_of(entries, key, i) < entries.len() ==> entries[entry_of(entries, key, i)].id@
            == key,
        forall|k: int|
            i <= k < entry_of(entries, key, i) ==> (#[trigger] entries[k]).id@ != key,
    decreases entries.len() - i,
{
    if i < entries.len() && entries[i].id@ != key {
        entry_of_is_first(entries, key, i + 1);
    }
}

/// Dropping the entry for a device leaves none for it, and no device twice.
pub proof fn without_leaves_none(entries: Seq<Allowance>, key: DeviceKey)
    requires
        one_per_device(entries),
    ensures
        one_per_device(without(entries, key)),
        lookup(without(entries, key), key) is None,
        forall|i: int|
            0 <= i < without(entries, key).len() ==> (#[trigger] without(entries, key)[i]).id@
                != key,
{
    entry_of_is_first(entries, key, 0);
    let at = entry_of(entries, key, 0);
    let rest = without(entries, key);
    assert forall|i: int| 0 <= i < rest.len() implies (#[trigger] rest[i]).id@ != key by {
        if at < entries.len() {
            if i < at {
                assert(rest[i] == entries[i]);
            } else {
                assert(rest[i] == entries[i + 1]);
            }
        }
    }
    entry_of_is_first(rest, key, 0);
    assert forall|i: int, j: int| 0 <= i < j < rest.len() implies (#[trigger] rest[i]).id@ != (
    #[trigger] rest[j]).id@ by {
        if at < entries.len() {
            let i2 = if i < at {
                i
            } else {
                i + 1
            };
            let j2 = if j < at {
                j
            } else {
                j + 1
            };
            assert(rest[i] == entries[i2] && rest[j] == entries[j2]);
        }
    }
}

/// Adding an allowance replaces the one for its device and touches no other:
/// afterwards the table holds exactly the new one for it.
pub proof fn add_replaces(entries: Seq<Allowance>, a: Allowance, other: DeviceKey)
    requires
        one_per_device(entries),
    ensures
        one_per_device(without(entries, a.id@).push(a)),
        lookup(without(entries, a.id@).push(a), a.id@) == Some(a),
        other != a.id@ ==> lookup(without(entries, a.id@).push(a), other) == lookup(
            entries,
            other,
        ),
{
    let rest = without(entries, a.id@);
    let all = rest.push(a);
    without_leaves_none(entries, a.id@);
    entry_of_is_first(all, a.id@, 0);
    entry_of_is_first(entries, a.id@, 0);
    assert(all[rest.len() as int] == a);
    let at = entry_of(all, a.id@, 0);
    assert(at == rest.len()) by {
        if at < rest.len() {
            assert(all[at] == rest[at]);
        }
    }
    assert forall|i: int, j: int| 0 <= i < j < all.len() implies (#[trigger] all[i]).id@ != (
    #[trigger] all[j]).id@ by {
        assert(all[i] == rest[i]);
        if j < rest.len() {
            assert(all[j] == rest[j]);
        }
    }
    if other != a.id@ {
        entry_of_is_first(all, other, 0);
        entry_of_is_first(entries, other, 0);
        let cut_at = entry_of(entries, a.id@, 0);
        let here = entry_of(entries, other, 0);
        let there = entry_of(all, other, 0);
        if here < entries.len() {
            let moved = if cut_at < entries.len() && here > cut_at {
                here - 1
            } else {
                here
            };
            assert(all[moved] == rest[moved]);
            assert(rest[moved] == entries[here]);
            assert(there <= moved) by {
                if there > moved {
                    assert(all[moved].id@ != other);
                }
            }
            if there < moved {
                assert(all[there] == rest[there]);
                assert(false);
            }
        } else if there < all.len() {
            assert(there != rest.len());
            assert(all[there] == rest[there]);
            let back = if cut_at < entries.len() && there >= cut_at {
                there + 1
            } else {
                there
            };
            assert(rest[there] == entries[back]);
            assert(false);
        }
    }
}

/// An entry is warned about once: after its warning it is not due again, at
/// any moment and for any lead time.
pub proof fn a_warning_is_given_once(
    entries: Seq<Allowance>,
    now: u128,
    ahead: u128,
    later: u128,
    ahead2: u128,
    i: int,
)
    requires
        0 <= i < entries.len(),
        due(entries[i], now, ahead),
    ensures
        flagged(entries, now, ahead)[i].warned,
        !due(flagged(entries, now, ahead)[i], later, ahead2),
{
}

/// Asking again at once warns about nothing.
pub proof fn asking_twice_warns_once(entries: Seq<Allowance>, now: u128, ahead: u128)
    ensures
        warnings(flagged(entries, now, ahead), now, ahead) =~= Seq::<(Seq<char>, u128)>::empty(),
    decreases entries.len(),
{
    if entries.len() > 0 {
        asking_twice_warns_once(entries.drop_last(), now, ahead);
        assert(flagged(entries, now, ahead).drop_last() =~= flagged(
            entries.drop_last(),
            now,
            ahead,
        ));
    }
}

/// Nothing that was swept is active, and everything active is kept.
pub proof fn sweep_loses_nothing_active(entries: Seq<Allowance>, now: u128, a: Allowance)
    requires
        entries.contains(a),
    ensures
        a.active_at(now) ==> entries.filter(|x: Allowance| x.active_at(now)).contains(a),
        !a.active_at(now) ==> entries.filter(|x: Allowance| !x.active_at(now)).contains(a),
{
    broadcast use vstd::seq_lib::group_filter_ensures;

}

impl Default for AllowanceTable {
    fn default() -> (r: AllowanceTable)
        ensures
            r@.len() == 0,
            r.wf(),
    {
        AllowanceTable { entries: Vec::new() }
    }
}

impl AllowanceTable {
    /// No device is listed twice.
    pub open spec fn wf(&self) -> bool {
        one_per_device(self@)
    }

    /// An empty table.
    pub fn new() -> (r: AllowanceTable)
        ensures
            r@.len() == 0,
            r.wf(),
    {
        AllowanceTable { entries: Vec::new() }
    }

    /// Add one, replacing any existing allowance for the same device and
    /// returning what it replaced.
    pub fn add(&mut self, allowance: Allowance) -> (r: Option<Allowance>)
        requires
            old(self).wf(),
        ensures
            final(self)@ == without(old(self)@, allowance.id@).push(allowance),
            r == lookup(old(self)@, allowance.id@),
            final(self).wf(),
    {
        proof {
            add_replaces(self@, allowance, allowance.id@);
        }
        let replaced = self.remove(&allowance.id);
        self.entries.push(allowance);
        replaced
    }

    /// Drop the allowance for one device.
    pub fn remove(&mut self, id: &DeviceRef) -> (r: Option<Allowance>)
        requires
            old(self).wf(),
        ensures
            final(self)@ == without(old(self)@, id@),
            r == lookup(old(self)@, id@),
            final(self).wf(),
    {
        proof {
            without_leaves_none(self@, id@);
        }
        let mut i: usize = 0;
        while i < self.entries.len() && self.entries[i].id != *id
            invariant
                i <= self.entries@.len(),
                *self == *old(self),
                entry_of(self@, id@, 0) == entry_of(self@, id@, i as int),
            decreases self.entries@.len() - i,
        {
            i += 1;
        }
        if i < self.entries.len() {
            Some(self.entries.remove(i))
        } else {
            None
        }
    }

    /// Drop every allowance, returning how many went.
    pub fn clear(&mut self) -> (r: usize)
        ensures
            final(self)@.len() == 0,
            r == old(self)@.len(),
            final(self).wf(),
    {
        let n = self.entries.len();
        self.entries.clear();
        n
    }

    /// Drop expired entries and hand them back so the caller can log them.
    pub fn sweep(&mut self, now: u128) -> (r: Vec<Allowance>)
        requires
            old(self).wf(),
        ensures
            final(self)@ == old(self)@.filter(|a: Allowance| a.active_at(now)),
            r@ == old(self)@.filter(|a: Allowance| !a.active_at(now)),
            final(self).wf(),
    {
        let ghost all = self@;
        let mut old_entries: Vec<Allowance> = Vec::new();
        std::mem::swap(&mut old_entries, &mut self.entries);
        let mut keep: Vec<Allowance> = Vec::new();
        let mut dropped: Vec<Allowance> = Vec::new();
        let ghost live = |a: Allowance| a.active_at(now);
        let ghost dead = |a: Allowance| !a.active_at(now);
        proof {
            reveal(Seq::filter);
            assert(all.take(0) =~= Seq::<Allowance>::empty());
        }
        for a in it: old_entries
            invariant
                it.seq() == all,
                live == (|a: Allowance| a.active_at(now)),
                dead == (|a: Allowance| !a.active_at(now)),
                keep@ == all.take(it.index() as int).filter(live),
                dropped@ == all.take(it.index() as int).filter(dead),
        {
            proof {
                reveal(Seq::filter);
                let next = all.take(it.index() + 1);
                assert(next.drop_last() =~= all.take(it.index() as int));
                assert(next.last() == a);
            }
            if a.is_active(now) {
                keep.push(a);
            } else {
                dropped.push(a);
            }
        }
        assert(all.take(all.len() as int) =~= all);
        self.entries = keep;
        proof {
            filter_keeps_one_per_device(all, live);
        }
        dropped
    }

    /// Every entry, expired ones included.
    pub fn iter(&self) -> (r: &[Allowance])
        ensures
            r@ == self@,
    {
        self.entries.as_slice()
    }

    /// Entries that have not expired at `now`.
    pub fn active(&self, now: u128) -> (r: Vec<&Allowance>)
        ensures
            r@.map_values(|a: &Allowance| *a) == self@.filter(|a: Allowance| a.active_at(now)),
    {
        let mut out: Vec<&Allowance> = Vec::new();
        let ghost live = |a: Allowance| a.active_at(now);
        let mut i: usize = 0;
        proof {
            reveal(Seq::filter);
            assert(self@.take(0) =~= Seq::<Allowance>::empty());
            assert(out@.map_values(|a: &Allowance| *a) =~= Seq::<Allowance>::empty());
        }
        while i < self.entries.len()
            invariant
                i <= self.entries@.len(),
                live == (|a: Allowance| a.active_at(now)),
                out@.map_values(|a: &Allowance| *a) == self@.take(i as int).filter(live),
            decreases self.entries@.len() - i,
        {
            let a = &self.entries[i];
            let ghost so_far = out@;
            proof {
                reveal(Seq::filter);
                assert(self@.take(i + 1).drop_last() =~= self@.take(i as int));
            }
            if a.is_active(now) {
                out.push(a);
                assert(out@.map_values(|a: &Allowance| *a) =~= so_far.map_values(
                    |a: &Allowance| *a,
                ).push(*a));
            }
            i += 1;
        }
        assert(self@.take(i as int) =~= self@);
        out
    }

    /// How many entries there are.
    pub fn len(&self) -> (r: usize)
        ensures
            r == self@.len(),
    {
        self.entries.len()
    }

    /// Whether there are none.
    pub fn is_empty(&self) -> (r: bool)
        ensures
            r == (self@.len() == 0),
    {
        self.entries.len() == 0
    }

    /// Entries whose expiry is within `ahead` and that have not been warned
    /// about yet, flagged as warned so each one warns once.
    pub fn due_to_warn(&mut self, now: u128, ahead: u128) -> (r: Vec<(String, u128)>)
        requires
            old(self).wf(),
        ensures
            final(self)@ == flagged(old(self)@, now, ahead),
            r@.map_values(|w: (String, u128)| (w.0@, w.1)) == warnings(old(self)@, now, ahead),
            final(self).wf(),
    {
        let ghost before_call = self@;
        let mut due_now: Vec<(String, u128)> = Vec::new();
        let mut i: usize = 0;
        let ghost seen = |w: (String, u128)| (w.0@, w.1);
        assert(due_now@.map_values(seen) =~= Seq::<(Seq<char>, u128)>::empty());
        while i < self.entries.len()
            invariant
                i <= self.entries@.len(),
                self.entries@.len() == before_call.len(),
                seen == (|w: (String, u128)| (w.0@, w.1)),
                forall|k: int|
                    0 <= k < i ==> self.entries@[k] == flagged(before_call, now, ahead)[k],
                forall|k: int| i <= k < before_call.len() ==> self.entries@[k] == before_call[k],
                due_now@.map_values(seen) == warnings(before_call.take(i as int), now, ahead),
            decreases self.entries@.len() - i,
        {
            let ghost so_far = due_now@;
            assert(before_call.take(i + 1).drop_last() =~= before_call.take(i as int));
            assert(before_call.take(i + 1).last() == before_call[i as int]);
            if !self.entries[i].warned {
                if let Some(left) = self.entries[i].expires_in(now) {
                    if left <= ahead {
                        let selector = self.entries[i].id.selector();
                        self.entries[i].warned = true;
                        due_now.push((selector, left));
                        assert(due_now@.map_values(seen) =~= so_far.map_values(seen).push(
                            (selector@, left),
                        ));
                    }
                }
            }
            i += 1;
        }
        assert(before_call.take(i as int) =~= before_call);
        assert(self@ =~= flagged(before_call, now, ahead));
        due_now
    }
}

/// Leaving entries out lists no device twice.
proof fn filter_keeps_one_per_device(entries: Seq<Allowance>, keep: spec_fn(Allowance) -> bool)
    requires
        one_per_device(entries),
    ensures
        one_per_device(entries.filter(keep)),
        forall|i: int|
            0 <= i < entries.filter(keep).len() ==> entries.contains(
                #[trigger] entries.filter(keep)[i],
            ),
    decreases entries.len(),
{
    reveal(Seq::filter);
    if entries.len() > 0 {
        let front = entries.drop_last();
        filter_keeps_one_per_device(front, keep);
        let kept = entries.filter(keep);
        let fk = front.filter(keep);
        assert forall|i: int| 0 <= i < kept.len() implies entries.contains(
            #[trigger] kept[i],
        ) by {
            if i < fk.len() {
                assert(front.contains(fk[i]));
                let k = choose|k: int| 0 <= k < front.len() && front[k] == fk[i];
                assert(entries[k] == kept[i]);
            } else {
                assert(kept[i] == entries[entries.len() - 1]);
            }
        }
        assert forall|i: int, j: int| 0 <= i < j < kept.len() implies (#[trigger] kept[i]).id@ != (
        #[trigger] kept[j]).id@ by {
            assert(kept[i] == fk[i]);
            if j >= fk.len() {
                assert(front.contains(fk[i]));
                let k = choose|k: int| 0 <= k < front.len() && front[k] == fk[i];
                assert(entries[k] == kept[i]);
                assert(kept[j] == entries[entries.len() - 1]);
            } else {
                assert(kept[j] == fk[j]);
            }
        }
    }
}

// ---- what holds of allowances --------------------------------------------

/// Two devices are the same exactly where their buses are and what those match by:
/// vendor and product, unique id, serial, selector, or the monitor's maker, product and
/// serial.
pub proof fn a_device_is_what_its_bus_matches(a: DeviceRef, b: DeviceRef)
    ensures
        a@ == b@ <==> match (a, b) {
            (DeviceRef::Usb(x), DeviceRef::Usb(y)) => x.vendor_id@ == y.vendor_id@ && x.product_id@
                == y.product_id@,
            (DeviceRef::Thunderbolt(x), DeviceRef::Thunderbolt(y)) => x.unique_id@ == y.unique_id@,
            (DeviceRef::SdCard(x), DeviceRef::SdCard(y)) => x.serial@ == y.serial@,
            (DeviceRef::Pci(x), DeviceRef::Pci(y)) => x@ == y@,
            (DeviceRef::Display(x), DeviceRef::Display(y)) => x.mfg@ == y.mfg@ && x.product
                == y.product && x.serial == y.serial,
            _ => false,
        },
{
}

/// An allowance stands until its expiry and not at it, and without one for ever. What
/// it has left reaches exactly to the expiry, and is nothing from then on.
pub proof fn an_allowance_runs_out_at_its_expiry(a: Allowance, now: u128)
    ensures
        a.expires_at is None ==> a.active_at(now) && a.left_at(now) is None,
        a.expires_at matches Some(e) ==> {
            &&& a.active_at(now) <==> now < e
            &&& a.left_at(now) matches Some(left) && (now < e ==> now + left == e) && (now >= e
                ==> left == 0)
        },
{
}

/// What has run out stays so.
pub proof fn what_has_run_out_stays_so(a: Allowance, now: u128, later: u128)
    requires
        now <= later,
        !a.active_at(now),
    ensures
        !a.active_at(later),
{
}

/// A warning is due exactly for an allowance that was not warned about and whose expiry
/// is no further off than the lead time.
pub proof fn a_warning_is_due_ahead_of_the_expiry(a: Allowance, now: u128, ahead: u128)
    ensures
        due(a, now, ahead) <==> !a.warned && (a.expires_at matches Some(e) && e <= now + ahead),
{
}

/// A warning is given for exactly the entries that are due, under the selector of the
/// device and with what is left until the expiry; those are flagged, and nothing else
/// of any entry changes.
pub proof fn warnings_are_for_what_is_due(entries: Seq<Allowance>, now: u128, ahead: u128)
    ensures
        forall|w: (Seq<char>, u128)| #[trigger]
            warnings(entries, now, ahead).contains(w) <==> exists|i: int|
                0 <= i < entries.len() && !(#[trigger] entries[i]).warned && (
                entries[i].expires_at matches Some(e) && e <= now + ahead && w.1 == if now < e {
                    e - now
                } else {
                    0
                }) && w.0 == entries[i].id@.text(),
        flagged(entries, now, ahead).len() == entries.len(),
        forall|i: int|
            0 <= i < entries.len() ==> {
                let a = entries[i];
                let b = #[trigger] flagged(entries, now, ahead)[i];
                &&& b.id == a.id && b.expires_at == a.expires_at && b.granted_by == a.granted_by
                &&& b.granted_at == a.granted_at && b.name == a.name
                &&& b.warned <==> a.warned || (a.expires_at matches Some(e) && e <= now + ahead)
            },
    decreases entries.len(),
{
    if entries.len() > 0 {
        let front = entries.drop_last();
        warnings_are_for_what_is_due(front, now, ahead);
        let a = entries.last();
        let f = warnings(front, now, ahead);
        let all = warnings(entries, now, ahead);
        assert forall|w: (Seq<char>, u128)| #[trigger] all.contains(w) <==> exists|i: int|
            0 <= i < entries.len() && !(#[trigger] entries[i]).warned && (
            entries[i].expires_at matches Some(e) && e <= now + ahead && w.1 == if now < e {
                e - now
            } else {
                0
            }) && w.0 == entries[i].id@.text() by {
            if all.contains(w) {
                let k = choose|k: int| 0 <= k < all.len() && all[k] == w;
                if k < f.len() {
                    assert(f[k] == w);
                    assert(f.contains(w));
                    let i = choose|i: int|
                        0 <= i < front.len() && !(#[trigger] front[i]).warned && (
                        front[i].expires_at matches Some(e) && e <= now + ahead && w.1 == if now < e {
                            e - now
                        } else {
                            0
                        }) && w.0 == front[i].id@.text();
                    assert(entries[i] == front[i]);
                } else {
                    assert(!entries[entries.len() - 1].warned);
                }
            }
            if exists|i: int|
                0 <= i < entries.len() && !(#[trigger] entries[i]).warned && (
                entries[i].expires_at matches Some(e) && e <= now + ahead && w.1 == if now < e {
                    e - now
                } else {
                    0
                }) && w.0 == entries[i].id@.text() {
                let i = choose|i: int|
                    0 <= i < entries.len() && !(#[trigger] entries[i]).warned && (
                    entries[i].expires_at matches Some(e) && e <= now + ahead && w.1 == if now < e {
                        e - now
                    } else {
                        0
                    }) && w.0 == entries[i].id@.text();
                if i < front.len() {
                    assert(front[i] == entries[i]);
                    assert(f.contains(w));
                    let k = choose|k: int| 0 <= k < f.len() && f[k] == w;
                    assert(all[k] == w);
                } else {
                    assert(due(a, now, ahead));
                    assert(all[f.len() as int] == w);
                }
            }
        }
    }
}

/// An entry is found under its device, and nothing is under a device without one.
pub proof fn an_entry_is_found_under_its_device(entries: Seq<Allowance>, key: DeviceKey)
    requires
        one_per_device(entries),
    ensures
        forall|i: int|
            0 <= i < entries.len() && (#[trigger] entries[i]).id@ == key ==> lookup(entries, key)
                == Some(entries[i]),
        lookup(entries, key) is None <==> forall|i: int|
            0 <= i < entries.len() ==> (#[trigger] entries[i]).id@ != key,
{
    entry_of_is_first(entries, key, 0);
    let at = entry_of(entries, key, 0);
    assert forall|i: int| 0 <= i < entries.len() && (#[trigger] entries[i]).id@ == key implies lookup(
        entries,
        key,
    ) == Some(entries[i]) by {
        if at < i {
            assert(entries[at].id@ != entries[i].id@);
        }
    }
}

/// Dropping a device leaves every entry for another where it was in the order.
pub proof fn the_others_stay(entries: Seq<Allowance>, key: DeviceKey, a: Allowance)
    requires
        one_per_device(entries),
    ensures
        without(entries, key).contains(a) <==> entries.contains(a) && a.id@ != key,
        without(entries, key) == entries.filter(|x: Allowance| x.id@ != key),
    decreases entries.len(),
{
    reveal(Seq::filter);
    let keep = |x: Allowance| x.id@ != key;
    let rest = without(entries, key);
    entry_of_is_first(entries, key, 0);
    let at = entry_of(entries, key, 0);
    assert(entries.filter(keep) =~= rest) by {
        if at < entries.len() {
            assert(entries =~= entries.take(at) + seq![entries[at]] + entries.skip(at + 1));
            all_pass(entries.take(at), keep);
            assert forall|k: int| at < k < entries.len() implies keep(#[trigger] entries[k]) by {
                assert(entries[at].id@ != entries[k].id@);
            }
            assert forall|k: int| 0 <= k < entries.skip(at + 1).len() implies keep(
                #[trigger] entries.skip(at + 1)[k],
            ) by {
                assert(entries.skip(at + 1)[k] == entries[at + 1 + k]);
            }
            all_pass(entries.skip(at + 1), keep);
            let one = seq![entries[at]];
            assert(one.drop_last() =~= Seq::<Allowance>::empty());
            assert(!keep(one.last()));
            reveal_with_fuel(Seq::filter, 3);
            assert(one.drop_last().filter(keep) =~= Seq::<Allowance>::empty());
            assert(one.filter(keep) == one.drop_last().filter(keep));
            Seq::filter_distributes_over_add(entries.take(at) + one, entries.skip(at + 1), keep);
            Seq::filter_distributes_over_add(entries.take(at), one, keep);
            assert(rest =~= entries.take(at) + entries.skip(at + 1));
        } else {
            all_pass(entries, keep);
        }
    }
    crate::order::a_pick_holds_what_passes(entries, keep, a);
}

proof fn all_pass(s: Seq<Allowance>, keep: spec_fn(Allowance) -> bool)
    requires
        forall|k: int| 0 <= k < s.len() ==> keep(#[trigger] s[k]),
    ensures
        s.filter(keep) == s,
    decreases s.len(),
{
    reveal(Seq::filter);
    if s.len() > 0 {
        assert forall|k: int| 0 <= k < s.drop_last().len() implies keep(#[trigger] s.drop_last()[k]) by {
            assert(s.drop_last()[k] == s[k]);
        }
        all_pass(s.drop_last(), keep);
        assert(s.drop_last().push(s.last()) =~= s);
    }
}

/// Sweeping parts the table by the expiry: what is kept has none or one still to come,
/// what is dropped one that has come, and nothing is in neither or both.
pub proof fn sweeping_parts_by_the_expiry(entries: Seq<Allowance>, now: u128, a: Allowance)
    ensures
        entries.filter(|x: Allowance| x.active_at(now)).contains(a) <==> entries.contains(a) && (
        a.expires_at matches Some(e) ==> now < e),
        entries.filter(|x: Allowance| !x.active_at(now)).contains(a) <==> entries.contains(a) && (
        a.expires_at matches Some(e) && e <= now),
{
    crate::order::a_pick_holds_what_passes(entries, |x: Allowance| x.active_at(now), a);
    crate::order::a_pick_holds_what_passes(entries, |x: Allowance| !x.active_at(now), a);
}

/// Whether a text is one to four hexadecimal digits, by its characters.
pub open spec fn four_digits_at_most(s: Seq<char>) -> bool {
    1 <= s.len() <= 4 && forall|i: int| 0 <= i < s.len() ==> is_digit_of(#[trigger] s[i], 16)
}

/// A USB selector names a vendor and a product of one to four hexadecimal digits each,
/// made small; with anything else in either place it is refused.
pub proof fn a_usb_selector_is_read_so(v: Seq<char>, p: Seq<char>)
    requires
        !v.contains(':'),
    ensures
        four_digits_at_most(v) && four_digits_at_most(p) ==> read_selector(
            "usb:"@ + v + seq![':'] + p,
        ) == Ok::<DeviceKey, Seq<char>>(DeviceKey::Usb(lower(v), lower(p))),
        !(four_digits_at_most(v) && four_digits_at_most(p)) ==> read_selector(
            "usb:"@ + v + seq![':'] + p,
        ) is Err,
{
    reveal_strlit("usb");
    reveal_strlit("usb:");
    let rest = v + seq![':'] + p;
    let all = "usb:"@ + v + seq![':'] + p;
    assert(all =~= "usb"@ + seq![':'] + rest);
    cut("usb"@, ':', rest);
    cut(v, ':', p);
    assert forall|s: Seq<char>| four_digits_at_most(s) <==> #[trigger] usb_digits(s) by {
        assert forall|i: int| 0 <= i < s.len() implies (is_digit_of(#[trigger] s[i], 16) <==> digit_value(
            s[i],
        ) < 16) by {}
    }
    assert(usb_digits(v) == four_digits_at_most(v));
    assert(usb_digits(p) == four_digits_at_most(p));
}

/// A Thunderbolt or SD card selector names what follows the bus, whatever it is, colons
/// too, as long as there is something.
pub proof fn the_rest_is_the_identity(id: Seq<char>)
    ensures
        id.len() > 0 ==> read_selector("thunderbolt:"@ + id) == Ok::<DeviceKey, Seq<char>>(
            DeviceKey::Thunderbolt(id),
        ),
        id.len() > 0 ==> read_selector("sdcard:"@ + id) == Ok::<DeviceKey, Seq<char>>(
            DeviceKey::SdCard(id),
        ),
        id.len() == 0 ==> read_selector("thunderbolt:"@ + id) is Err && read_selector(
            "sdcard:"@ + id,
        ) is Err,
{
    reveal_strlit("thunderbolt");
    reveal_strlit("thunderbolt:");
    reveal_strlit("sdcard");
    reveal_strlit("sdcard:");
    reveal_strlit("usb");
    assert("thunderbolt:"@ + id =~= "thunderbolt"@ + seq![':'] + id);
    assert("sdcard:"@ + id =~= "sdcard"@ + seq![':'] + id);
    cut("thunderbolt"@, ':', id);
    cut("sdcard"@, ':', id);
    assert("thunderbolt"@.len() == 11 && "sdcard"@.len() == 6 && "usb"@.len() == 3);
}

/// A PCI selector is four digits, two, two and one, all hexadecimal, parted by colons
/// and a point.
pub proof fn a_pci_selector_is_read_so(s: Seq<char>)
    ensures
        read_selector("pci:"@ + s) == Ok::<DeviceKey, Seq<char>>(DeviceKey::Pci(s)) <==> {
            &&& s.len() == 12 && s[4] == ':' && s[7] == ':' && s[10] == '.'
            &&& is_digit_of(s[0], 16) && is_digit_of(s[1], 16) && is_digit_of(s[2], 16)
                && is_digit_of(s[3], 16)
            &&& is_digit_of(s[5], 16) && is_digit_of(s[6], 16)
            &&& is_digit_of(s[8], 16) && is_digit_of(s[9], 16)
            &&& is_digit_of(s[11], 16)
        },
        read_selector("pci:"@ + s) is Ok ==> read_selector("pci:"@ + s) == Ok::<
            DeviceKey,
            Seq<char>,
        >(DeviceKey::Pci(s)),
{
    reveal_strlit("pci");
    reveal_strlit("pci:");
    reveal_strlit("usb");
    reveal_strlit("thunderbolt");
    reveal_strlit("sdcard");
    assert("pci:"@ + s =~= "pci"@ + seq![':'] + s);
    cut("pci"@, ':', s);
    assert("thunderbolt"@.len() == 11 && "sdcard"@.len() == 6);
    assert("usb"@[0] == 'u' && "pci"@[0] == 'p');
    if pci_shape(s) {
        assert(digit_value(s[0]) < 16 && digit_value(s[1]) < 16 && digit_value(s[2]) < 16
            && digit_value(s[3]) < 16 && digit_value(s[5]) < 16 && digit_value(s[6]) < 16
            && digit_value(s[8]) < 16 && digit_value(s[9]) < 16 && digit_value(s[11]) < 16);
    }
}

/// A display selector is three capitals and a hexadecimal product, and a decimal serial
/// where there is one; the numbers are read in full, and what does not fit is refused.
pub proof fn a_display_selector_is_read_so(
    mfg: Seq<char>,
    product: Seq<char>,
    serial: Seq<char>,
)
    requires
        mfg.len() == 3,
        forall|i: int| 0 <= i < 3 ==> 65 <= #[trigger] mfg[i] as u32 && mfg[i] as u32 <= 90,
        !product.contains(':'),
        !serial.contains(':'),
    ensures
        ({
            let n = unsigned(product, 16, 65535);
            let m = unsigned(serial, 10, 4294967295);
            let short = read_selector("display:"@ + mfg + seq![':'] + product);
            let long = read_selector("display:"@ + mfg + seq![':'] + product + seq![':'] + serial);
            &&& n is None ==> short is Err && long is Err
            &&& n is Some ==> short == Ok::<DeviceKey, Seq<char>>(
                DeviceKey::Display(EdidKey { mfg, product: n->0 as u16, serial: None }),
            )
            &&& m is None ==> long is Err
            &&& n is Some && m is Some ==> long == Ok::<DeviceKey, Seq<char>>(
                DeviceKey::Display(
                    EdidKey { mfg, product: n->0 as u16, serial: Some(m->0 as u32) },
                ),
            )
        }),
{
    reveal_strlit("display");
    reveal_strlit("display:");
    reveal_strlit("usb");
    reveal_strlit("thunderbolt");
    reveal_strlit("sdcard");
    reveal_strlit("pci");
    let short = mfg + seq![':'] + product;
    let tail = product + seq![':'] + serial;
    let long = mfg + seq![':'] + tail;
    assert("display:"@ + mfg + seq![':'] + product =~= "display"@ + seq![':'] + short);
    assert("display:"@ + mfg + seq![':'] + product + seq![':'] + serial =~= "display"@ + seq![':']
        + long);
    cut("display"@, ':', short);
    cut("display"@, ':', long);
    assert("thunderbolt"@.len() == 11 && "sdcard"@.len() == 6 && "usb"@.len() == 3 && "pci"@.len()
        == 3 && "display"@.len() == 7);
    if mfg.contains(':') {
        let i = choose|i: int| 0 <= i < mfg.len() && mfg[i] == ':';
        assert(65 <= mfg[i] as u32);
    }
    cut(mfg, ':', product);
    cut(mfg, ':', tail);
    cut(product, ':', serial);
    one_field(product, ':');
    one_field(serial, ':');
    assert(fields(short, ':') =~= seq![mfg, product]);
    assert(fields(long, ':') =~= seq![mfg, product, serial]);
    assert forall|i: int| 0 <= i < 3 implies capital(#[trigger] mfg[i]) by {
        assert(65 <= mfg[i] as u32 && mfg[i] as u32 <= 90);
    }
}

/// A monitor's maker in a selector is three capital letters and nothing else.
pub proof fn a_maker_is_three_capitals(s: Seq<char>)
    ensures
        read_selector("display:"@ + s) is Ok ==> {
            &&& s.len() >= 5
            &&& 65 <= s[0] as u32 <= 90 && 65 <= s[1] as u32 <= 90 && 65 <= s[2] as u32 <= 90
            &&& s[3] == ':'
        },
{
    reveal_strlit("display");
    reveal_strlit("display:");
    reveal_strlit("usb");
    reveal_strlit("thunderbolt");
    reveal_strlit("sdcard");
    reveal_strlit("pci");
    assert("display:"@ + s =~= "display"@ + seq![':'] + s);
    cut("display"@, ':', s);
    assert("thunderbolt"@.len() == 11 && "sdcard"@.len() == 6 && "usb"@.len() == 3 && "pci"@.len()
        == 3 && "display"@.len() == 7);
    if read_selector("display:"@ + s) is Ok {
        let parts = fields(s, ':');
        crate::text::first_at_is_first(s, ':', 0);
        let at = crate::text::first_at(s, ':', 0);
        assert(at < s.len()) by {
            if at >= s.len() {
                assert(parts.len() == 1);
            }
        }
        assert(parts[0] == s.take(at));
        assert(at == 3);
        assert(capital(parts[0][0]) && capital(parts[0][1]) && capital(parts[0][2]));
        let tail = s.skip(4);
        if tail.len() == 0 {
            assert(!tail.contains(':'));
            one_field(tail, ':');
            assert(parts[1] == tail);
            assert(unsigned(tail, 16, 0xFFFF) is None);
        }
    }
}

/// Power, network and lid are events, which no selector names; neither does one of any
/// other word than the five buses.
pub proof fn only_five_buses_have_devices(bus: Seq<char>, rest: Seq<char>)
    requires
        !bus.contains(':'),
        bus != "usb"@ && bus != "thunderbolt"@ && bus != "sdcard"@ && bus != "pci"@ && bus
            != "display"@,
    ensures
        read_selector(bus + seq![':'] + rest) is Err,
        read_selector(bus) is Err,
{
    cut(bus, ':', rest);
}

} // verus!
