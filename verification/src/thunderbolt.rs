//! Thunderbolt device identities.

use vstd::prelude::*;

use crate::text::cat5;

verus! {

/// A Thunderbolt device as its bus matches it.
#[derive(Debug, Eq, Hash)]
pub struct ThunderboltDeviceId {
    pub unique_id: String,
}

impl View for ThunderboltDeviceId {
    type V = Seq<char>;

    open spec fn view(&self) -> Seq<char> {
        self.unique_id@
    }
}

impl PartialEq for ThunderboltDeviceId {
    fn eq(&self, other: &Self) -> (r: bool) {
        self.unique_id == other.unique_id
    }
}

impl vstd::std_specs::cmp::PartialEqSpecImpl for ThunderboltDeviceId {
    open spec fn obeys_eq_spec() -> bool {
        true
    }

    open spec fn eq_spec(&self, other: &Self) -> bool {
        self@ == other@
    }
}

impl Clone for ThunderboltDeviceId {
    fn clone(&self) -> (r: Self)
        ensures
            r == *self,
    {
        ThunderboltDeviceId { unique_id: self.unique_id.clone() }
    }
}

/// The Thunderbolt devices on the bus, and how many there are of each.
#[derive(Debug)]
pub struct ThunderboltSnapshot {
    pub devices: Vec<(ThunderboltDeviceId, u32)>,
}

impl ThunderboltSnapshot {
    /// Whether no device is listed twice.
    pub open spec fn wf(&self) -> bool {
        forall|i: int, j: int|
            0 <= i < j < self.devices@.len() ==> (#[trigger] self.devices@[i]).0@ != (
            #[trigger] self.devices@[j]).0@
    }
}

/// A Thunderbolt device with the name it gives itself.
#[derive(Debug, Clone, PartialEq, Eq)]
pub struct ThunderboltDeviceInfo {
    pub unique_id: String,
    pub device_name: Option<String>,
}

/// One whitelist line.
pub open spec fn thunderbolt_line(d: ThunderboltDeviceInfo) -> Seq<char> {
    "    { unique_id = \""@ + d.unique_id@ + "\" },  # "@ + match d.device_name {
        Some(name) => name@,
        None => "Unknown device"@,
    } + "\n"@
}

/// The whitelist lines one after the other.
pub open spec fn thunderbolt_lines(devices: Seq<ThunderboltDeviceInfo>) -> Seq<char>
    decreases devices.len(),
{
    if devices.len() == 0 {
        Seq::empty()
    } else {
        thunderbolt_lines(devices.drop_last()) + thunderbolt_line(devices.last())
    }
}

/// Generate a ready-to-paste TOML `[thunderbolt_whitelist]` block.
pub fn generate_thunderbolt_whitelist_toml(devices: &[ThunderboltDeviceInfo]) -> (r: String)
    ensures
        r@ == "\n[thunderbolt_whitelist]\ndevices = [\n"@ + thunderbolt_lines(devices@) + "]\n"@,
{
    let mut out = "\n[thunderbolt_whitelist]\ndevices = [\n".to_owned();
    let ghost head = out@;
    let mut i: usize = 0;
    proof {
        assert(devices@.take(0) =~= Seq::<ThunderboltDeviceInfo>::empty());
        assert(head + Seq::<char>::empty() =~= head);
    }
    while i < devices.len()
        invariant
            i <= devices@.len(),
            out@ == head + thunderbolt_lines(devices@.take(i as int)),
        decreases devices@.len() - i,
    {
        let d = &devices[i];
        assert(devices@.take(i + 1).drop_last() =~= devices@.take(i as int));
        let name = match &d.device_name {
            Some(name) => name.as_str(),
            None => "Unknown device",
        };
        let line = cat5("    { unique_id = \"", d.unique_id.as_str(), "\" },  # ", name, "\n");
        assert(line@ == thunderbolt_line(*d));
        out.push_str(line.as_str());
        assert(out@ =~= head + (thunderbolt_lines(devices@.take(i as int)) + thunderbolt_line(
            *d,
        )));
        i += 1;
    }
    assert(devices@.take(i as int) =~= devices@);
    out.push_str("]\n");
    out
}

/// Each device has a line of its own in the block, with its unique id, and its name
/// behind it.
pub proof fn each_device_has_its_line(devices: Seq<ThunderboltDeviceInfo>, d: ThunderboltDeviceInfo)
    ensures
        thunderbolt_lines(Seq::empty()).len() == 0,
        thunderbolt_lines(devices.push(d)) == thunderbolt_lines(devices) + (
        "    { unique_id = \""@ + d.unique_id@ + "\" },  # "@ + (
        match d.device_name {
            Some(name) => name@,
            None => "Unknown device"@,
        }) + "\n"@),
{
    assert(devices.push(d).drop_last() =~= devices);
}

} // verus!
