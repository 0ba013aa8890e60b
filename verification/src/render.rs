//! The allowances out of a status reply, as a table or as config to keep.

use vstd::prelude::*;

use crate::allowances::{read_selector, DeviceKey, DeviceRef};
use crate::ipc::{
    allowance_list, allowances_of, duration_text, format_duration, get_text_or, get_uint_or_zero,
    rejection, reply_error, text_or, uint_or_zero,
};
use crate::json::{
    from_value, json_pretty, json_read, lookup_agrees, model_at, parse_value, pretty_text,
    value_get, Json, JsonModel,
};
use crate::number::{pad_back, padded};
use crate::sdcard::{generate_sdcard_whitelist_toml, whitelist_lines, SdCardDeviceInfo};
use crate::text::{cat2, cat3, cat5, join, joined, views};
use crate::thunderbolt::{
    generate_thunderbolt_whitelist_toml, thunderbolt_lines, ThunderboltDeviceInfo,
};
use crate::usb::{generate_whitelist_toml, usb_lines, UsbDeviceInfo};

verus! {

/// What `--allowances` prints.
#[derive(Debug, Clone, Copy, PartialEq, Eq, Structural)]
pub enum AllowanceOutput {
    /// A human table.
    Table,
    /// The raw array from the status response.
    Json,
    /// Config that makes the current allowances permanent.
    Toml,
    /// The same, as NixOS module settings.
    Nix,
}

// ---- the table -----------------------------------------------------------

/// How many bytes a text takes.
pub open spec fn bytes(s: Seq<char>) -> usize {
    vstd::utf8::encode_utf8(s).len() as usize
}

/// The width of the selector column: the longest selector, at least eight.
pub open spec fn column(list: Seq<Json>) -> usize
    decreases list.len(),
{
    if list.len() == 0 {
        8
    } else {
        let front = column(list.drop_last());
        let here = bytes(text_or(list.last(), "selector"@, ""@));
        if here > front {
            here
        } else {
            front
        }
    }
}

/// One row of the table.
pub open spec fn cells(
    width: usize,
    selector: Seq<char>,
    granted: Seq<char>,
    age: Seq<char>,
    expires: Seq<char>,
    name: Seq<char>,
) -> Seq<char> {
    padded(selector, width as nat) + "  "@ + padded(granted, 8) + "  "@ + padded(age, 9) + "  "@
        + padded(expires, 9) + "  "@ + name + "\n"@
}

/// When an allowance runs out.
pub open spec fn expiry(a: Json) -> Seq<char> {
    match a.uint_at("expires_in_secs"@) {
        Some(secs) => duration_text(secs),
        None => "never"@,
    }
}

/// The row of one allowance.
pub open spec fn row(width: usize, a: Json) -> Seq<char> {
    cells(
        width,
        text_or(a, "selector"@, ""@),
        text_or(a, "granted_by"@, ""@),
        duration_text(uint_or_zero(a, "age_secs"@)),
        expiry(a),
        text_or(a, "name"@, ""@),
    )
}

/// The rows one after the other.
pub open spec fn rows_text(width: usize, list: Seq<Json>) -> Seq<char>
    decreases list.len(),
{
    if list.len() == 0 {
        Seq::empty()
    } else {
        rows_text(width, list.drop_last()) + row(width, list.last())
    }
}

/// The table.
pub open spec fn table_text(list: Seq<Json>) -> Seq<char> {
    if list.len() == 0 {
        "No allowances.\n"@
    } else {
        let width = column(list);
        cells(width, "SELECTOR"@, "GRANTED"@, "AGE"@, "EXPIRES"@, "NAME"@) + rows_text(width, list)
    }
}

fn push_cells(
    out: &mut String,
    width: usize,
    selector: &str,
    granted: &str,
    age: &str,
    expires: &str,
    name: &str,
)
    ensures
        final(out)@ == old(out)@ + cells(width, selector@, granted@, age@, expires@, name@),
{
    let ghost before = out@;
    let mut line = cat5(
        pad_back(selector, width).as_str(),
        "  ",
        pad_back(granted, 8).as_str(),
        "  ",
        pad_back(age, 9).as_str(),
    );
    line.push_str("  ");
    line.push_str(pad_back(expires, 9).as_str());
    line.push_str("  ");
    line.push_str(name);
    line.push_str("\n");
    out.push_str(line.as_str());
}

/// The allowances as a human table.
pub fn allowance_table(list: &[Json]) -> (r: String)
    ensures
        r@ == table_text(list@),
{
    if list.len() == 0 {
        return "No allowances.\n".to_owned();
    }
    let mut width: usize = 8;
    let mut i: usize = 0;
    assert(list@.take(0) =~= Seq::<Json>::empty());
    while i < list.len()
        invariant
            i <= list@.len(),
            width == column(list@.take(i as int)),
        decreases list@.len() - i,
    {
        assert(list@.take(i + 1).drop_last() =~= list@.take(i as int));
        let here = get_text_or(&list[i], "selector", "").len();
        if here > width {
            width = here;
        }
        i += 1;
    }
    assert(list@.take(i as int) =~= list@);
    let mut out = String::new();
    push_cells(&mut out, width, "SELECTOR", "GRANTED", "AGE", "EXPIRES", "NAME");
    let ghost head = cells(width, "SELECTOR"@, "GRANTED"@, "AGE"@, "EXPIRES"@, "NAME"@);
    assert(out@ =~= head + rows_text(width, list@.take(0)));
    let mut j: usize = 0;
    while j < list.len()
        invariant
            j <= list@.len(),
            out@ == head + rows_text(width, list@.take(j as int)),
        decreases list@.len() - j,
    {
        assert(list@.take(j + 1).drop_last() =~= list@.take(j as int));
        let a = &list[j];
        let expires = match a.get_u64("expires_in_secs") {
            Some(secs) => format_duration(secs),
            None => "never".to_owned(),
        };
        let age = format_duration(get_uint_or_zero(a, "age_secs"));
        let ghost before = out@;
        push_cells(
            &mut out,
            width,
            get_text_or(a, "selector", ""),
            get_text_or(a, "granted_by", ""),
            age.as_str(),
            expires.as_str(),
            get_text_or(a, "name", ""),
        );
        assert(out@ =~= head + (rows_text(width, list@.take(j as int)) + row(width, *a)));
        j += 1;
    }
    assert(list@.take(j as int) =~= list@);
    out
}

// ---- by bus --------------------------------------------------------------

/// The allowances split per bus, in the shapes the config emitters take.
#[derive(Debug, PartialEq, Eq)]
pub struct ByBus {
    pub usb: Vec<UsbDeviceInfo>,
    pub thunderbolt: Vec<ThunderboltDeviceInfo>,
    pub sdcard: Vec<SdCardDeviceInfo>,
    pub pci: Vec<String>,
    pub display: Vec<String>,
}

/// A device and the name beside it, where there is one.
pub struct Item {
    pub key: DeviceKey,
    pub name: Option<Seq<char>>,
}

/// The device that an allowance names. `None` where the selector does not
/// parse: it came from a daemon that knows a bus this client does not.
pub open spec fn item_of(a: Json) -> Option<Item> {
    let name = text_or(a, "name"@, ""@);
    match read_selector(text_or(a, "selector"@, ""@)) {
        Ok(key) => Some(
            Item {
                key,
                name: if name.len() > 0 {
                    Some(name)
                } else {
                    None
                },
            },
        ),
        Err(_) => None,
    }
}

/// The devices that the allowances name, in their order.
pub open spec fn items_of(list: Seq<Json>) -> Seq<Item>
    decreases list.len(),
{
    if list.len() == 0 {
        Seq::empty()
    } else {
        let front = items_of(list.drop_last());
        match item_of(list.last()) {
            Some(i) => front.push(i),
            None => front,
        }
    }
}

/// Whether a name is the one expected.
pub open spec fn same_name(a: Option<String>, b: Option<Seq<char>>) -> bool {
    match (a, b) {
        (Some(x), Some(y)) => x@ == y,
        (None, None) => true,
        _ => false,
    }
}

/// The items of one bus.
pub open spec fn usb_items(items: Seq<Item>) -> Seq<Item> {
    items.filter(|i: Item| i.key is Usb)
}

pub open spec fn thunderbolt_items(items: Seq<Item>) -> Seq<Item> {
    items.filter(|i: Item| i.key is Thunderbolt)
}

pub open spec fn sdcard_items(items: Seq<Item>) -> Seq<Item> {
    items.filter(|i: Item| i.key is SdCard)
}

pub open spec fn pci_items(items: Seq<Item>) -> Seq<Item> {
    items.filter(|i: Item| i.key is Pci)
}

pub open spec fn display_items(items: Seq<Item>) -> Seq<Item> {
    items.filter(|i: Item| i.key is Display)
}

/// A USB device as its item says.
pub open spec fn usb_is(d: UsbDeviceInfo, i: Item) -> bool {
    i.key == DeviceKey::Usb(d.vendor_id@, d.product_id@) && same_name(d.product, i.name)
}

/// A Thunderbolt device as its item says.
pub open spec fn thunderbolt_is(d: ThunderboltDeviceInfo, i: Item) -> bool {
    i.key == DeviceKey::Thunderbolt(d.unique_id@) && same_name(d.device_name, i.name)
}

/// An SD card as its item says.
pub open spec fn sdcard_is(d: SdCardDeviceInfo, i: Item) -> bool {
    &&& i.key == DeviceKey::SdCard(d.serial@)
    &&& same_name(d.name, i.name)
    &&& d.card_type is None && d.cid is None && d.manfid is None && d.oemid is None
    &&& d.hwrev is None && d.fwrev is None && d.date is None
}

/// A PCI selector as its item says.
pub open spec fn pci_is(s: String, i: Item) -> bool {
    i.key == DeviceKey::Pci(s@)
}

/// A monitor as its item says.
pub open spec fn display_is(s: String, i: Item) -> bool {
    i.key matches DeviceKey::Display(id) && s@ == id.text()
}

/// Whether a split holds exactly these items, each under its bus in order.
pub open spec fn splits(b: ByBus, items: Seq<Item>) -> bool {
    &&& b.usb@.len() == usb_items(items).len()
    &&& forall|i: int| 0 <= i < b.usb@.len() ==> usb_is(#[trigger] b.usb@[i], usb_items(items)[i])
    &&& b.thunderbolt@.len() == thunderbolt_items(items).len()
    &&& forall|i: int|
        0 <= i < b.thunderbolt@.len() ==> thunderbolt_is(
            #[trigger] b.thunderbolt@[i],
            thunderbolt_items(items)[i],
        )
    &&& b.sdcard@.len() == sdcard_items(items).len()
    &&& forall|i: int|
        0 <= i < b.sdcard@.len() ==> sdcard_is(#[trigger] b.sdcard@[i], sdcard_items(items)[i])
    &&& b.pci@.len() == pci_items(items).len()
    &&& forall|i: int| 0 <= i < b.pci@.len() ==> pci_is(#[trigger] b.pci@[i], pci_items(items)[i])
    &&& b.display@.len() == display_items(items).len()
    &&& forall|i: int|
        0 <= i < b.display@.len() ==> display_is(
            #[trigger] b.display@[i],
            display_items(items)[i],
        )
}

/// One more item lands under its own bus and no other.
proof fn push_splits(items: Seq<Item>, i: Item)
    ensures
        usb_items(items.push(i)) == if i.key is Usb {
            usb_items(items).push(i)
        } else {
            usb_items(items)
        },
        thunderbolt_items(items.push(i)) == if i.key is Thunderbolt {
            thunderbolt_items(items).push(i)
        } else {
            thunderbolt_items(items)
        },
        sdcard_items(items.push(i)) == if i.key is SdCard {
            sdcard_items(items).push(i)
        } else {
            sdcard_items(items)
        },
        pci_items(items.push(i)) == if i.key is Pci {
            pci_items(items).push(i)
        } else {
            pci_items(items)
        },
        display_items(items.push(i)) == if i.key is Display {
            display_items(items).push(i)
        } else {
            display_items(items)
        },
{
    reveal(Seq::filter);
    assert(items.push(i).drop_last() =~= items);
}

/// Split the allowances per bus. An entry whose selector does not parse is
/// skipped.
pub fn by_bus(list: &[Json]) -> (r: ByBus)
    ensures
        splits(r, items_of(list@)),
{
    let mut out = ByBus {
        usb: Vec::new(),
        thunderbolt: Vec::new(),
        sdcard: Vec::new(),
        pci: Vec::new(),
        display: Vec::new(),
    };
    let mut i: usize = 0;
    proof {
        reveal(Seq::filter);
        assert(list@.take(0) =~= Seq::<Json>::empty());
    }
    while i < list.len()
        invariant
            i <= list@.len(),
            splits(out, items_of(list@.take(i as int))),
        decreases list@.len() - i,
    {
        assert(list@.take(i + 1).drop_last() =~= list@.take(i as int));
        let entry = &list[i];
        let ghost sofar = items_of(list@.take(i as int));
        proof {
            if let Some(it) = item_of(*entry) {
                push_splits(sofar, it);
            }
        }
        let name = get_text_or(entry, "name", "");
        let name: Option<String> = if name.is_empty() {
            None
        } else {
            Some(name.to_owned())
        };
        match DeviceRef::parse(get_text_or(entry, "selector", "")) {
            Ok(DeviceRef::Usb(id)) => {
                out.usb.push(
                    UsbDeviceInfo { vendor_id: id.vendor_id, product_id: id.product_id, product: name },
                );
            },
            Ok(DeviceRef::Thunderbolt(id)) => {
                out.thunderbolt.push(
                    ThunderboltDeviceInfo { unique_id: id.unique_id, device_name: name },
                );
            },
            Ok(DeviceRef::SdCard(id)) => {
                out.sdcard.push(
                    SdCardDeviceInfo {
                        serial: id.serial,
                        name,
                        card_type: None,
                        cid: None,
                        manfid: None,
                        oemid: None,
                        hwrev: None,
                        fwrev: None,
                        date: None,
                    },
                );
            },
            Ok(DeviceRef::Pci(selector)) => {
                out.pci.push(selector);
            },
            Ok(DeviceRef::Display(id)) => {
                out.display.push(id.selector());
            },
            Err(_) => {},
        }
        i += 1;
    }
    assert(list@.take(i as int) =~= list@);
    out
}

// ---- config --------------------------------------------------------------

/// Lines made of a list of strings, one after the other.
pub open spec fn wrapped(list: Seq<Seq<char>>, before: Seq<char>, after: Seq<char>) -> Seq<char>
    decreases list.len(),
{
    if list.len() == 0 {
        Seq::empty()
    } else {
        wrapped(list.drop_last(), before, after) + before + list.last() + after
    }
}

fn push_wrapped(out: &mut String, list: &[String], before: &str, after: &str)
    ensures
        final(out)@ == old(out)@ + wrapped(views(list@), before@, after@),
{
    let ghost head = out@;
    let mut i: usize = 0;
    proof {
        assert(views(list@).take(0) =~= Seq::<Seq<char>>::empty());
        assert(head + Seq::<char>::empty() =~= head);
    }
    while i < list.len()
        invariant
            i <= list@.len(),
            out@ == head + wrapped(views(list@).take(i as int), before@, after@),
        decreases list@.len() - i,
    {
        assert(views(list@).take(i + 1).drop_last() =~= views(list@).take(i as int));
        let ghost sofar = wrapped(views(list@).take(i as int), before@, after@);
        out.push_str(before);
        out.push_str(list[i].as_str());
        out.push_str(after);
        assert(out@ =~= head + (sofar + before@ + list@[i as int]@ + after@));
        i += 1;
    }
    assert(views(list@).take(i as int) =~= views(list@));
}

/// A display allowance names a monitor, and the config only knows connector
/// names, so there is nothing to paste. Say so rather than drop it silently.
pub open spec fn note_text(display: Seq<Seq<char>>, comment: Seq<char>) -> Seq<char> {
    if display.len() == 0 {
        Seq::empty()
    } else {
        "\n"@ + comment + "no config form for the allowed monitor(s) "@ + joined(display, ", "@)
            + ": the display bus\n"@ + comment
            + "matches monitors at runtime, and [display] ignore takes connector names.\n"@
    }
}

/// The note on the allowed monitors.
pub fn display_note(bus: &ByBus, comment: &str) -> (r: String)
    ensures
        r@ == note_text(views(bus.display@), comment@),
{
    assert(views(bus.display@).len() == bus.display@.len());
    if bus.display.len() == 0 {
        return String::new();
    }
    let mut out = cat5(
        "\n",
        comment,
        "no config form for the allowed monitor(s) ",
        join(bus.display.as_slice(), ", ").as_str(),
        ": the display bus\n",
    );
    out.push_str(comment);
    out.push_str("matches monitors at runtime, and [display] ignore takes connector names.\n");
    out
}

/// A section, when there is anything in it.
pub open spec fn section_if(there: bool, text: Seq<char>) -> Seq<char> {
    if there {
        text
    } else {
        Seq::empty()
    }
}

/// Config that makes the allowances permanent. A bus with nothing allowed
/// emits nothing: an empty section pasted into a config would erase the
/// whitelist that is already there.
pub open spec fn toml_text(b: ByBus) -> Seq<char> {
    Seq::<char>::empty() + section_if(
        b.usb@.len() > 0,
        "\n[whitelist]\ndevices = [\n"@ + usb_lines(b.usb@) + "]\n"@,
    ) + section_if(
        b.thunderbolt@.len() > 0,
        "\n[thunderbolt_whitelist]\ndevices = [\n"@ + thunderbolt_lines(b.thunderbolt@) + "]\n"@,
    ) + section_if(
        b.sdcard@.len() > 0,
        "\n[sdcard_whitelist]\ndevices = [\n"@ + whitelist_lines(b.sdcard@) + "]\n"@,
    ) + section_if(
        b.pci@.len() > 0,
        "\n[pci]\nignore = [\n"@ + wrapped(views(b.pci@), "    \""@, "\",\n"@) + "]\n"@,
    ) + note_text(views(b.display@), "# "@)
}

fn push_section(out: &mut String, there: bool, text: &str)
    ensures
        final(out)@ == old(out)@ + section_if(there, text@),
{
    if there {
        out.push_str(text);
    } else {
        assert(out@ + Seq::<char>::empty() =~= out@);
    }
}

/// Config that makes the allowances permanent, through the emitters that
/// generate a whitelist from what is connected, so the same device produces the
/// same line.
pub fn allowance_toml(bus: &ByBus) -> (r: String)
    ensures
        r@ == toml_text(*bus),
{
    let mut out = String::new();
    let usb = generate_whitelist_toml(bus.usb.as_slice());
    push_section(&mut out, bus.usb.len() > 0, usb.as_str());
    let thunderbolt = generate_thunderbolt_whitelist_toml(bus.thunderbolt.as_slice());
    push_section(&mut out, bus.thunderbolt.len() > 0, thunderbolt.as_str());
    let sdcard = generate_sdcard_whitelist_toml(bus.sdcard.as_slice());
    push_section(&mut out, bus.sdcard.len() > 0, sdcard.as_str());
    let mut pci = "\n[pci]\nignore = [\n".to_owned();
    push_wrapped(&mut pci, bus.pci.as_slice(), "    \"", "\",\n");
    pci.push_str("]\n");
    push_section(&mut out, bus.pci.len() > 0, pci.as_str());
    out.push_str(display_note(bus, "# ").as_str());
    out
}

/// One item of a Nix list, with the device's name behind it.
pub open spec fn nix_item_text(fields: Seq<char>, name: Option<String>) -> Seq<char> {
    match name {
        Some(n) => "{ "@ + fields + " }  # "@ + n@,
        None => "{ "@ + fields + " }"@,
    }
}

/// One item of a Nix list, with the device's name behind it.
pub fn nix_item(fields: &str, name: &Option<String>) -> (r: String)
    ensures
        r@ == nix_item_text(fields@, *name),
{
    match name {
        Some(n) => {
            let mut out = cat3("{ ", fields, " }  # ");
            out.push_str(n.as_str());
            out
        },
        None => cat3("{ ", fields, " }"),
    }
}

/// The Nix item of a USB device.
pub open spec fn usb_nix(d: UsbDeviceInfo) -> Seq<char> {
    nix_item_text(
        "vendor_id = \""@ + d.vendor_id@ + "\"; product_id = \""@ + d.product_id@
            + "\"; count = 1;"@,
        d.product,
    )
}

/// The Nix item of a Thunderbolt device.
pub open spec fn thunderbolt_nix(d: ThunderboltDeviceInfo) -> Seq<char> {
    nix_item_text("unique_id = \""@ + d.unique_id@ + "\";"@, d.device_name)
}

/// The Nix item of an SD card.
pub open spec fn sdcard_nix(d: SdCardDeviceInfo) -> Seq<char> {
    nix_item_text("serial = \""@ + d.serial@ + "\";"@, d.name)
}

/// The Nix items of the USB devices.
pub open spec fn usb_nix_items(s: Seq<UsbDeviceInfo>) -> Seq<Seq<char>> {
    s.map_values(|d: UsbDeviceInfo| usb_nix(d))
}

pub open spec fn thunderbolt_nix_items(s: Seq<ThunderboltDeviceInfo>) -> Seq<Seq<char>> {
    s.map_values(|d: ThunderboltDeviceInfo| thunderbolt_nix(d))
}

pub open spec fn sdcard_nix_items(s: Seq<SdCardDeviceInfo>) -> Seq<Seq<char>> {
    s.map_values(|d: SdCardDeviceInfo| sdcard_nix(d))
}

/// The Nix items of the PCI selectors.
pub open spec fn pci_nix_items(s: Seq<String>) -> Seq<Seq<char>> {
    s.map_values(|d: String| "\""@ + d@ + "\""@)
}

/// One setting of the NixOS module, when it lists anything.
pub open spec fn nix_setting(path: Seq<char>, items: Seq<Seq<char>>) -> Seq<char> {
    section_if(
        items.len() > 0,
        "services.plugkill.settings."@ + path + " = [\n"@ + wrapped(items, "  "@, "\n"@) + "];\n"@,
    )
}

/// The allowances as NixOS module settings, since the config on NixOS is a
/// read-only store path and the TOML cannot be edited in place.
pub open spec fn nix_text(b: ByBus) -> Seq<char> {
    Seq::<char>::empty() + nix_setting("whitelist.devices"@, usb_nix_items(b.usb@)) + nix_setting(
        "thunderbolt_whitelist.devices"@,
        thunderbolt_nix_items(b.thunderbolt@),
    ) + nix_setting("sdcard_whitelist.devices"@, sdcard_nix_items(b.sdcard@)) + nix_setting(
        "pci.ignore"@,
        pci_nix_items(b.pci@),
    ) + note_text(views(b.display@), "# "@)
}

fn push_setting(out: &mut String, path: &str, items: &[String])
    ensures
        final(out)@ == old(out)@ + nix_setting(path@, views(items@)),
{
    assert(views(items@).len() == items@.len());
    let mut text = cat3("services.plugkill.settings.", path, " = [\n");
    push_wrapped(&mut text, items, "  ", "\n");
    text.push_str("];\n");
    push_section(out, items.len() > 0, text.as_str());
}

fn usb_nix_lines(list: &[UsbDeviceInfo]) -> (r: Vec<String>)
    ensures
        views(r@) == usb_nix_items(list@),
{
    let mut out: Vec<String> = Vec::new();
    let mut i: usize = 0;
    while i < list.len()
        invariant
            i <= list@.len(),
            out@.len() == i,
            forall|k: int| 0 <= k < i ==> (#[trigger] out@[k])@ == usb_nix(list@[k]),
        decreases list@.len() - i,
    {
        let d = &list[i];
        let fields = cat5(
            "vendor_id = \"",
            d.vendor_id.as_str(),
            "\"; product_id = \"",
            d.product_id.as_str(),
            "\"; count = 1;",
        );
        out.push(nix_item(fields.as_str(), &d.product));
        i += 1;
    }
    assert(views(out@) =~= usb_nix_items(list@));
    out
}

fn thunderbolt_nix_lines(list: &[ThunderboltDeviceInfo]) -> (r: Vec<String>)
    ensures
        views(r@) == thunderbolt_nix_items(list@),
{
    let mut out: Vec<String> = Vec::new();
    let mut i: usize = 0;
    while i < list.len()
        invariant
            i <= list@.len(),
            out@.len() == i,
            forall|k: int| 0 <= k < i ==> (#[trigger] out@[k])@ == thunderbolt_nix(list@[k]),
        decreases list@.len() - i,
    {
        let d = &list[i];
        let fields = cat3("unique_id = \"", d.unique_id.as_str(), "\";");
        out.push(nix_item(fields.as_str(), &d.device_name));
        i += 1;
    }
    assert(views(out@) =~= thunderbolt_nix_items(list@));
    out
}

fn sdcard_nix_lines(list: &[SdCardDeviceInfo]) -> (r: Vec<String>)
    ensures
        views(r@) == sdcard_nix_items(list@),
{
    let mut out: Vec<String> = Vec::new();
    let mut i: usize = 0;
    while i < list.len()
        invariant
            i <= list@.len(),
            out@.len() == i,
            forall|k: int| 0 <= k < i ==> (#[trigger] out@[k])@ == sdcard_nix(list@[k]),
        decreases list@.len() - i,
    {
        let d = &list[i];
        let fields = cat3("serial = \"", d.serial.as_str(), "\";");
        out.push(nix_item(fields.as_str(), &d.name));
        i += 1;
    }
    assert(views(out@) =~= sdcard_nix_items(list@));
    out
}

fn pci_nix_lines(list: &[String]) -> (r: Vec<String>)
    ensures
        views(r@) == pci_nix_items(list@),
{
    let mut out: Vec<String> = Vec::new();
    let mut i: usize = 0;
    while i < list.len()
        invariant
            i <= list@.len(),
            out@.len() == i,
            forall|k: int| 0 <= k < i ==> (#[trigger] out@[k])@ == "\""@ + list@[k]@ + "\""@,
        decreases list@.len() - i,
    {
        out.push(cat3("\"", list[i].as_str(), "\""));
        i += 1;
    }
    assert(views(out@) =~= pci_nix_items(list@));
    out
}

/// The allowances as NixOS module settings.
pub fn allowance_nix(bus: &ByBus) -> (r: String)
    ensures
        r@ == nix_text(*bus),
{
    let mut out = String::new();
    push_setting(&mut out, "whitelist.devices", usb_nix_lines(bus.usb.as_slice()).as_slice());
    push_setting(
        &mut out,
        "thunderbolt_whitelist.devices",
        thunderbolt_nix_lines(bus.thunderbolt.as_slice()).as_slice(),
    );
    push_setting(
        &mut out,
        "sdcard_whitelist.devices",
        sdcard_nix_lines(bus.sdcard.as_slice()).as_slice(),
    );
    push_setting(&mut out, "pci.ignore", pci_nix_lines(bus.pci.as_slice()).as_slice());
    out.push_str(display_note(bus, "# ").as_str());
    out
}

// ---- all of it -----------------------------------------------------------

/// Whether a text is the allowances in the shape that was asked for. `pretty`
/// is the array pretty-printed, `None` where it could not be.
pub open spec fn renders(
    out: Seq<char>,
    list: Seq<Json>,
    pretty: Option<Seq<char>>,
    output: AllowanceOutput,
) -> bool {
    match output {
        AllowanceOutput::Json => out == match pretty {
            Some(p) => p + "\n"@,
            None => "[]"@ + "\n"@,
        },
        AllowanceOutput::Table => out == table_text(list),
        AllowanceOutput::Toml => exists|b: ByBus| #[trigger]
            splits(b, items_of(list)) && out == toml_text(b),
        AllowanceOutput::Nix => exists|b: ByBus| #[trigger]
            splits(b, items_of(list)) && out == nix_text(b),
    }
}

/// The allowance array in the shape the caller asked for. `pretty` is the array
/// pretty-printed, `None` where it could not be.
pub fn render_allowances(list: &[Json], pretty: Option<&str>, output: AllowanceOutput) -> (r:
    String)
    ensures
        renders(r@, list@, crate::ipc::seen(pretty), output),
{
    match output {
        AllowanceOutput::Json => match pretty {
            Some(p) => cat2(p, "\n"),
            None => cat2("[]", "\n"),
        },
        AllowanceOutput::Table => allowance_table(list),
        AllowanceOutput::Toml => {
            let bus = by_bus(list);
            allowance_toml(&bus)
        },
        AllowanceOutput::Nix => {
            let bus = by_bus(list);
            allowance_nix(&bus)
        },
    }
}

/// The array pretty-printed, the empty one where there is none.
pub open spec fn pretty_list(m: JsonModel) -> Option<Seq<char>> {
    let list = match model_at(m, "data"@) {
        Some(d) => match model_at(d, "allowances"@) {
            Some(JsonModel::Array(a)) => Some(JsonModel::Array(a)),
            _ => None,
        },
        None => None,
    };
    match list {
        Some(a) => match json_pretty(a) {
            Ok(s) => Some(s),
            Err(_) => None,
        },
        None => None,
    }
}

/// The data of a reply, null where it carries none.
pub open spec fn data_of(reply: Json) -> Json {
    match reply.at("data"@) {
        Some(d) => d,
        None => Json::Null,
    }
}

/// What `--allowances` prints for the line that came back for a status
/// request: the daemon's error where it rejected the request, else the
/// allowances in the shape the caller asked for.
pub fn allowances_output(line: &str, output: AllowanceOutput) -> (r: Result<String, String>)
    ensures
        match json_read(line@) {
            Err(m) => r matches Err(e) && e@ == "invalid JSON response: "@ + m,
            Ok(m) => exists|reply: Json| #[trigger]
                reply.model() == m && match rejection(reply) {
                    Some(why) => r matches Err(e) && e@ == why,
                    None => r matches Ok(s) && renders(
                        s@,
                        allowances_of(data_of(reply)),
                        pretty_list(m),
                        output,
                    ),
                },
        },
{
    let value = match parse_value(line) {
        Ok(v) => v,
        Err(e) => {
            return Err(cat2("invalid JSON response: ", e.as_str()));
        },
    };
    let reply = from_value(&value);
    let ghost m = json_read(line@)->Ok_0;
    assert(reply.model() == m);
    if let Some(e) = reply_error(&reply) {
        return Err(e);
    }
    let null = Json::Null;
    let data = match reply.get("data") {
        Some(d) => d,
        None => &null,
    };
    let list = allowance_list(data);
    let mut pretty: Option<String> = None;
    proof {
        lookup_agrees(reply, "data"@);
        lookup_agrees(*data, "allowances"@);
    }
    let mut is_list = false;
    if let Some(j) = data.get("allowances") {
        if j.as_array().is_some() {
            is_list = true;
        }
    }
    if let Some(d) = value_get(&value, "data") {
        if let Some(a) = value_get(d, "allowances") {
            if is_list {
                if let Ok(p) = pretty_text(a) {
                    pretty = Some(p);
                }
            }
        }
    }
    let shown: Option<&str> = match &pretty {
        Some(p) => Some(p.as_str()),
        None => None,
    };
    assert(crate::ipc::seen(shown) == pretty_list(m));
    Ok(render_allowances(list, shown, output))
}

// ---- what holds of what is printed ---------------------------------------

/// The selector column is as wide as the widest selector, and never narrower than its
/// heading.
pub proof fn the_widest_selector_fits(list: Seq<Json>)
    ensures
        column(list) >= 8,
        forall|i: int|
            0 <= i < list.len() ==> bytes(
                text_or(#[trigger] list[i], "selector"@, ""@),
            ) <= column(list),
        column(list) == 8 || exists|i: int|
            0 <= i < list.len() && bytes(text_or(#[trigger] list[i], "selector"@, ""@)) == column(
                list,
            ),
    decreases list.len(),
{
    if list.len() > 0 {
        let front = list.drop_last();
        the_widest_selector_fits(front);
        assert forall|i: int| 0 <= i < list.len() implies bytes(
            text_or(#[trigger] list[i], "selector"@, ""@),
        ) <= column(list) by {
            if i < front.len() {
                assert(front[i] == list[i]);
            }
        }
        if column(list) != 8 {
            if column(list) == column(front) {
                let i = choose|i: int|
                    0 <= i < front.len() && bytes(
                        text_or(#[trigger] front[i], "selector"@, ""@),
                    ) == column(front);
                assert(list[i] == front[i]);
            } else {
                assert(list[list.len() - 1] == list.last());
            }
        }
    }
}

/// Every allowance whose selector can be read is an item, under the name that it has,
/// and nothing else is.
pub proof fn what_can_be_read_is_an_item(list: Seq<Json>, x: Item)
    ensures
        items_of(list).contains(x) <==> exists|i: int|
            0 <= i < list.len() && item_of(#[trigger] list[i]) == Some(x),
    decreases list.len(),
{
    if list.len() > 0 {
        let front = list.drop_last();
        what_can_be_read_is_an_item(front, x);
        let f = items_of(front);
        let all = items_of(list);
        if all.contains(x) {
            let k = choose|k: int| 0 <= k < all.len() && all[k] == x;
            if k < f.len() {
                assert(f[k] == x);
                assert(f.contains(x));
                let i = choose|i: int| 0 <= i < front.len() && item_of(#[trigger] front[i]) == Some(x);
                assert(list[i] == front[i]);
            } else {
                assert(item_of(list[list.len() - 1]) == Some(x));
            }
        }
        if exists|i: int| 0 <= i < list.len() && item_of(#[trigger] list[i]) == Some(x) {
            let i = choose|i: int| 0 <= i < list.len() && item_of(#[trigger] list[i]) == Some(x);
            if i < front.len() {
                assert(front[i] == list[i]);
                assert(f.contains(x));
                let k = choose|k: int| 0 <= k < f.len() && f[k] == x;
                assert(all[k] == x);
            } else {
                assert(all[f.len() as int] == x);
            }
        }
    }
}

/// An allowance whose selector is read as a device is printed in the section of that
/// device's bus, and each section holds nothing else.
pub proof fn each_device_is_printed_under_its_bus(b: ByBus, list: Seq<Json>, key: DeviceKey)
    requires
        splits(b, items_of(list)),
    ensures
        (exists|i: int|
            0 <= i < list.len() && read_selector(text_or(#[trigger] list[i], "selector"@, ""@)) == Ok::<
                DeviceKey,
                Seq<char>,
            >(key)) <==> match key {
            DeviceKey::Usb(v, p) => exists|k: int|
                0 <= k < b.usb@.len() && (#[trigger] b.usb@[k]).vendor_id@ == v
                    && b.usb@[k].product_id@ == p,
            DeviceKey::Thunderbolt(id) => exists|k: int|
                0 <= k < b.thunderbolt@.len() && (#[trigger] b.thunderbolt@[k]).unique_id@ == id,
            DeviceKey::SdCard(id) => exists|k: int|
                0 <= k < b.sdcard@.len() && (#[trigger] b.sdcard@[k]).serial@ == id,
            DeviceKey::Pci(s) => exists|k: int| 0 <= k < b.pci@.len() && (#[trigger] b.pci@[k])@ == s,
            DeviceKey::Display(id) => exists|k: int|
                0 <= k < display_items(items_of(list)).len() && (#[trigger] display_items(
                    items_of(list),
                )[k]).key == DeviceKey::Display(id) && b.display@[k]@ == id.text(),
        },
{
    let items = items_of(list);
    let part = bus_items(items, key);
    if exists|i: int|
        0 <= i < list.len() && read_selector(text_or(#[trigger] list[i], "selector"@, ""@)) == Ok::<
            DeviceKey,
            Seq<char>,
        >(key) {
        let i = choose|i: int|
            0 <= i < list.len() && read_selector(text_or(#[trigger] list[i], "selector"@, ""@)) == Ok::<
                DeviceKey,
                Seq<char>,
            >(key);
        let x = item_of(list[i])->0;
        assert(item_of(list[i]) == Some(x) && x.key == key);
        what_can_be_read_is_an_item(list, x);
        in_its_part(items, x);
        let k = choose|k: int| 0 <= k < part.len() && part[k] == x;
        assert(part[k].key == key);
        match key {
            DeviceKey::Usb(_, _) => {
                assert(usb_is(b.usb@[k], usb_items(items)[k]));
            },
            DeviceKey::Thunderbolt(_) => {
                assert(thunderbolt_is(b.thunderbolt@[k], thunderbolt_items(items)[k]));
            },
            DeviceKey::SdCard(_) => {
                assert(sdcard_is(b.sdcard@[k], sdcard_items(items)[k]));
            },
            DeviceKey::Pci(_) => {
                assert(pci_is(b.pci@[k], pci_items(items)[k]));
            },
            DeviceKey::Display(_) => {
                assert(display_is(b.display@[k], display_items(items)[k]));
            },
        }
    }
    assert forall|k: int| 0 <= k < part.len() && (#[trigger] part[k]).key == key implies exists|i: int|
        0 <= i < list.len() && read_selector(text_or(#[trigger] list[i], "selector"@, ""@)) == Ok::<
            DeviceKey,
            Seq<char>,
        >(key) by {
        let x = part[k];
        assert(part.contains(x));
        in_its_part(items, x);
        what_can_be_read_is_an_item(list, x);
        let i = choose|i: int| 0 <= i < list.len() && item_of(#[trigger] list[i]) == Some(x);
        assert(read_selector(text_or(list[i], "selector"@, ""@)) == Ok::<DeviceKey, Seq<char>>(key));
    }
    match key {
        DeviceKey::Usb(v, p) => {
            assert forall|k: int|
                0 <= k < b.usb@.len() && (#[trigger] b.usb@[k]).vendor_id@ == v && b.usb@[k].product_id@
                    == p implies part[k].key == key by {
                assert(usb_is(b.usb@[k], usb_items(items)[k]));
            }
        },
        DeviceKey::Thunderbolt(id) => {
            assert forall|k: int|
                0 <= k < b.thunderbolt@.len() && (#[trigger] b.thunderbolt@[k]).unique_id@
                    == id implies part[k].key == key by {
                assert(thunderbolt_is(b.thunderbolt@[k], thunderbolt_items(items)[k]));
            }
        },
        DeviceKey::SdCard(id) => {
            assert forall|k: int|
                0 <= k < b.sdcard@.len() && (#[trigger] b.sdcard@[k]).serial@ == id implies part[k].key
                == key by {
                assert(sdcard_is(b.sdcard@[k], sdcard_items(items)[k]));
            }
        },
        DeviceKey::Pci(s) => {
            assert forall|k: int| 0 <= k < b.pci@.len() && (#[trigger] b.pci@[k])@ == s implies part[k].key
                == key by {
                assert(pci_is(b.pci@[k], pci_items(items)[k]));
            }
        },
        DeviceKey::Display(_) => {},
    }
}

/// The items of the bus that a device is on.
spec fn bus_items(items: Seq<Item>, key: DeviceKey) -> Seq<Item> {
    match key {
        DeviceKey::Usb(_, _) => usb_items(items),
        DeviceKey::Thunderbolt(_) => thunderbolt_items(items),
        DeviceKey::SdCard(_) => sdcard_items(items),
        DeviceKey::Pci(_) => pci_items(items),
        DeviceKey::Display(_) => display_items(items),
    }
}

proof fn in_its_part(items: Seq<Item>, x: Item)
    ensures
        bus_items(items, x.key).contains(x) <==> items.contains(x),
{
    crate::order::a_pick_holds_what_passes(items, |i: Item| i.key is Usb, x);
    crate::order::a_pick_holds_what_passes(items, |i: Item| i.key is Thunderbolt, x);
    crate::order::a_pick_holds_what_passes(items, |i: Item| i.key is SdCard, x);
    crate::order::a_pick_holds_what_passes(items, |i: Item| i.key is Pci, x);
    crate::order::a_pick_holds_what_passes(items, |i: Item| i.key is Display, x);
}

/// A device is printed under the name that the daemon knew, and under none where it
/// knew none or an empty one.
pub proof fn a_name_is_kept_where_there_is_one(a: Json)
    requires
        item_of(a) is Some,
    ensures
        item_of(a)->0.name == match a.at("name"@) {
            Some(Json::Str(n)) => if n@.len() > 0 {
                Some(n@)
            } else {
                None
            },
            _ => None,
        },
{
    reveal_strlit("");
}

/// A block of text has a section for each bus that has devices, and nothing at all where
/// none has.
pub proof fn nothing_is_printed_of_nothing(b: ByBus)
    ensures
        toml_text(b).len() == 0 <==> b.usb@.len() == 0 && b.thunderbolt@.len() == 0 && b.sdcard@.len()
            == 0 && b.pci@.len() == 0 && b.display@.len() == 0,
        nix_text(b).len() == 0 <==> b.usb@.len() == 0 && b.thunderbolt@.len() == 0 && b.sdcard@.len()
            == 0 && b.pci@.len() == 0 && b.display@.len() == 0,
{
    reveal_strlit("\n[whitelist]\ndevices = [\n");
    reveal_strlit("\n[thunderbolt_whitelist]\ndevices = [\n");
    reveal_strlit("\n[sdcard_whitelist]\ndevices = [\n");
    reveal_strlit("\n[pci]\nignore = [\n");
    reveal_strlit("services.plugkill.settings.");
    reveal_strlit("\n");
    assert(views(b.display@).len() == b.display@.len());
    assert(usb_nix_items(b.usb@).len() == b.usb@.len());
    assert(thunderbolt_nix_items(b.thunderbolt@).len() == b.thunderbolt@.len());
    assert(sdcard_nix_items(b.sdcard@).len() == b.sdcard@.len());
    assert(pci_nix_items(b.pci@).len() == b.pci@.len());
}

/// Each item of a list is printed between what goes before and after, in order.
pub proof fn each_item_is_wrapped(
    list: Seq<Seq<char>>,
    x: Seq<char>,
    before: Seq<char>,
    after: Seq<char>,
)
    ensures
        wrapped(Seq::empty(), before, after).len() == 0,
        wrapped(list.push(x), before, after) == wrapped(list, before, after) + before + x + after,
{
    assert(list.push(x).drop_last() =~= list);
}

/// A device is printed for Nix by what its bus matches by, with its name behind it where
/// there is one.
pub proof fn a_device_is_printed_for_nix(u: UsbDeviceInfo, t: ThunderboltDeviceInfo, s: SdCardDeviceInfo)
    ensures
        u.product is None ==> usb_nix(u) == "{ "@ + ("vendor_id = \""@ + u.vendor_id@
            + "\"; product_id = \""@ + u.product_id@ + "\"; count = 1;"@) + " }"@,
        u.product matches Some(n) ==> usb_nix(u) == "{ "@ + ("vendor_id = \""@ + u.vendor_id@
            + "\"; product_id = \""@ + u.product_id@ + "\"; count = 1;"@) + " }  # "@ + n@,
        t.device_name is None ==> thunderbolt_nix(t) == "{ "@ + ("unique_id = \""@ + t.unique_id@
            + "\";"@) + " }"@,
        s.name is None ==> sdcard_nix(s) == "{ "@ + ("serial = \""@ + s.serial@ + "\";"@) + " }"@,
{
}

/// An allowance that never runs out says so, and a row shows what the daemon lists.
pub proof fn a_row_shows_what_is_listed(width: usize, a: Json)
    ensures
        !(a.at("expires_in_secs"@) matches Some(Json::Uint(_))) ==> expiry(a) == "never"@,
        a.at("expires_in_secs"@) matches Some(Json::Uint(n)) ==> expiry(a) == duration_text(n),
        row(width, a) == padded(text_or(a, "selector"@, ""@), width as nat) + "  "@ + padded(
            text_or(a, "granted_by"@, ""@),
            8,
        ) + "  "@ + padded(duration_text(uint_or_zero(a, "age_secs"@)), 9) + "  "@ + padded(
            expiry(a),
            9,
        ) + "  "@ + text_or(a, "name"@, ""@) + "\n"@,
        table_text(Seq::empty()) == "No allowances.\n"@,
{
}

/// A PCI device is printed for Nix between quotes, and each list under its own setting.
pub proof fn each_list_is_printed_under_its_setting(b: ByBus, i: int)
    ensures
        0 <= i < b.pci@.len() ==> pci_nix_items(b.pci@)[i] == "\""@ + b.pci@[i]@ + "\""@,
        0 <= i < b.usb@.len() ==> usb_nix_items(b.usb@)[i] == usb_nix(b.usb@[i]),
        0 <= i < b.thunderbolt@.len() ==> thunderbolt_nix_items(b.thunderbolt@)[i] == thunderbolt_nix(
            b.thunderbolt@[i],
        ),
        0 <= i < b.sdcard@.len() ==> sdcard_nix_items(b.sdcard@)[i] == sdcard_nix(b.sdcard@[i]),
        nix_text(b) == Seq::<char>::empty() + nix_setting("whitelist.devices"@, usb_nix_items(b.usb@))
            + nix_setting("thunderbolt_whitelist.devices"@, thunderbolt_nix_items(b.thunderbolt@))
            + nix_setting("sdcard_whitelist.devices"@, sdcard_nix_items(b.sdcard@)) + nix_setting(
            "pci.ignore"@,
            pci_nix_items(b.pci@),
        ) + note_text(views(b.display@), "# "@),
        nix_setting("pci.ignore"@, pci_nix_items(b.pci@)).len() > 0 ==> nix_setting(
            "pci.ignore"@,
            pci_nix_items(b.pci@),
        ) == "services.plugkill.settings."@ + "pci.ignore"@ + " = [\n"@ + wrapped(
            pci_nix_items(b.pci@),
            "  "@,
            "\n"@,
        ) + "];\n"@,
{
}

/// What is printed in each form: the list as it came, the table, or the sections, and in
/// the first an empty list where there was none.
pub proof fn what_each_form_prints(out: Seq<char>, list: Seq<Json>, pretty: Option<Seq<char>>)
    ensures
        renders(out, list, pretty, AllowanceOutput::Table) ==> out == table_text(list),
        pretty matches Some(p) ==> (renders(out, list, pretty, AllowanceOutput::Json) <==> out == p
            + "\n"@),
        pretty is None ==> (renders(out, list, pretty, AllowanceOutput::Json) <==> out == "[]"@
            + "\n"@),
        renders(out, list, pretty, AllowanceOutput::Toml) ==> exists|b: ByBus| #[trigger]
            splits(b, items_of(list)) && out == toml_text(b),
        renders(out, list, pretty, AllowanceOutput::Nix) ==> exists|b: ByBus| #[trigger]
            splits(b, items_of(list)) && out == nix_text(b),
{
}

} // verus!
