//! USB device identities.

use vstd::prelude::*;

use crate::text::{cat3, cat5};

verus! {

/// A USB device as its bus matches it: vendor and product, as sysfs prints
/// them.
#[derive(Debug, Eq, Hash)]
pub struct UsbDeviceId {
    pub vendor_id: String,
    pub product_id: String,
}

impl View for UsbDeviceId {
    type V = (Seq<char>, Seq<char>);

    open spec fn view(&self) -> (Seq<char>, Seq<char>) {
        (self.vendor_id@, self.product_id@)
    }
}

impl PartialEq for UsbDeviceId {
    fn eq(&self, other: &Self) -> (r: bool) {
        self.vendor_id == other.vendor_id && self.product_id == other.product_id
    }
}

impl vstd::std_specs::cmp::PartialEqSpecImpl for UsbDeviceId {
    open spec fn obeys_eq_spec() -> bool {
        true
    }

    open spec fn eq_spec(&self, other: &Self) -> bool {
        self@ == other@
    }
}

impl Clone for UsbDeviceId {
    fn clone(&self) -> (r: Self)
        ensures
            r == *self,
    {
        UsbDeviceId { vendor_id: self.vendor_id.clone(), product_id: self.product_id.clone() }
    }
}

/// A USB identity as it is printed.
pub open spec fn usb_text(id: (Seq<char>, Seq<char>)) -> Seq<char> {
    id.0 + ":"@ + id.1
}

impl UsbDeviceId {
    /// `<vendor>:<product>`.
    pub fn text(&self) -> (r: String)
        ensures
            r@ == usb_text(self@),
    {
        cat3(self.vendor_id.as_str(), ":", self.product_id.as_str())
    }
}

/// The USB devices on the bus, and how many there are of each.
#[derive(Debug)]
pub struct DeviceSnapshot {
    pub devices: Vec<(UsbDeviceId, u32)>,
}

impl DeviceSnapshot {
    /// Whether no device is listed twice.
    pub open spec fn wf(&self) -> bool {
        forall|i: int, j: int|
            0 <= i < j < self.devices@.len() ==> (#[trigger] self.devices@[i]).0@ != (
            #[trigger] self.devices@[j]).0@
    }
}

/// A USB device with the name it gives itself.
#[derive(Debug, Clone, PartialEq, Eq)]
pub struct UsbDeviceInfo {
    pub vendor_id: String,
    pub product_id: String,
    pub product: Option<String>,
}

/// One whitelist line.
pub open spec fn usb_line(d: UsbDeviceInfo) -> Seq<char> {
    "    { vendor_id = \""@ + d.vendor_id@ + "\", product_id = \""@ + d.product_id@
        + "\", count = 1 },  # "@ + match d.product {
        Some(name) => name@,
        None => "Unknown device"@,
    } + "\n"@
}

/// The whitelist lines one after the other.
pub open spec fn usb_lines(devices: Seq<UsbDeviceInfo>) -> Seq<char>
    decreases devices.len(),
{
    if devices.len() == 0 {
        Seq::empty()
    } else {
        usb_lines(devices.drop_last()) + usb_line(devices.last())
    }
}

/// Generate a ready-to-paste TOML `[whitelist]` block.
pub fn generate_whitelist_toml(devices: &[UsbDeviceInfo]) -> (r: String)
    ensures
        r@ == "\n[whitelist]\ndevices = [\n"@ + usb_lines(devices@) + "]\n"@,
{
    let mut out = "\n[whitelist]\ndevices = [\n".to_owned();
    let ghost head = out@;
    let mut i: usize = 0;
    proof {
        assert(devices@.take(0) =~= Seq::<UsbDeviceInfo>::empty());
        assert(head + Seq::<char>::empty() =~= head);
    }
    while i < devices.len()
        invariant
            i <= devices@.len(),
            out@ == head + usb_lines(devices@.take(i as int)),
        decreases devices@.len() - i,
    {
        let d = &devices[i];
        assert(devices@.take(i + 1).drop_last() =~= devices@.take(i as int));
        let name = match &d.product {
            Some(name) => name.as_str(),
            None => "Unknown device",
        };
        let mut line = cat5(
            "    { vendor_id = \"",
            d.vendor_id.as_str(),
            "\", product_id = \"",
            d.product_id.as_str(),
            "\", count = 1 },  # ",
        );
        line.push_str(name);
        line.push_str("\n");
        assert(line@ == usb_line(*d));
        out.push_str(line.as_str());
        assert(out@ =~= head + (usb_lines(devices@.take(i as int)) + usb_line(*d)));
        i += 1;
    }
    assert(devices@.take(i as int) =~= devices@);
    out.push_str("]\n");
    out
}

/// Each device has a line of its own in the block, with its vendor, its product, a count
/// of one, and its name behind it.
pub proof fn each_device_has_its_line(devices: Seq<UsbDeviceInfo>, d: UsbDeviceInfo)
    ensures
        usb_lines(Seq::empty()).len() == 0,
        usb_lines(devices.push(d)) == usb_lines(devices) + ("    { vendor_id = \""@ + d.vendor_id@
            + "\", product_id = \""@ + d.product_id@ + "\", count = 1 },  # "@ + (
        match d.product {
            Some(name) => name@,
            None => "Unknown device"@,
        }) + "\n"@),
{
    assert(devices.push(d).drop_last() =~= devices);
}

/// A USB device is its vendor and its product.
pub proof fn a_device_is_vendor_and_product(a: UsbDeviceId, b: UsbDeviceId)
    ensures
        a@ == b@ <==> a.vendor_id@ == b.vendor_id@ && a.product_id@ == b.product_id@,
        usb_text(a@) == a.vendor_id@ + ":"@ + a.product_id@,
{
}

} // verus!
