//! What the daemon holds between polls.

use vstd::prelude::*;

use crate::lid::LidState;
use crate::network::NetworkSnapshot;
use crate::power::PowerState;
use crate::sdcard::SdCardSnapshot;
use crate::thunderbolt::ThunderboltSnapshot;
use crate::usb::DeviceSnapshot;

verus! {

/// Operating mode of the daemon.
#[derive(Debug, Clone, Copy, PartialEq, Eq, Structural)]
pub enum DaemonMode {
    /// Normal mode: violations trigger the kill sequence.
    Enforce,
    /// Learning/audit mode: violations are logged but the system is not shut down.
    Learn,
}

impl DaemonMode {
    /// The mode in a word.
    pub open spec fn word(self) -> Seq<char> {
        match self {
            DaemonMode::Enforce => "enforce"@,
            DaemonMode::Learn => "learn"@,
        }
    }

    /// The mode in a word.
    pub fn as_str(&self) -> (r: &'static str)
        ensures
            r@ == self.word(),
    {
        match self {
            DaemonMode::Enforce => "enforce",
            DaemonMode::Learn => "learn",
        }
    }
}

/// Device name lookup lists for human-readable violation messages. Each names a
/// device once.
#[derive(Debug)]
pub struct DeviceNames {
    /// USB vendor and product, and the product name.
    pub usb: Vec<((String, String), String)>,
    /// Thunderbolt unique id and device name.
    pub thunderbolt: Vec<(String, String)>,
    /// SD card serial and card name.
    pub sdcard: Vec<(String, String)>,
}

/// Whether no identity is named twice.
pub open spec fn once_each(s: Seq<(String, String)>) -> bool {
    forall|i: int, j: int| 0 <= i < j < s.len() ==> (#[trigger] s[i]).0@ != (#[trigger] s[j]).0@
}

/// A vendor and a product by their characters.
pub open spec fn usb_key(id: (String, String)) -> (Seq<char>, Seq<char>) {
    (id.0@, id.1@)
}

/// Whether no vendor and product is named twice.
pub open spec fn once_each_usb(s: Seq<((String, String), String)>) -> bool {
    forall|i: int, j: int|
        0 <= i < j < s.len() ==> usb_key((#[trigger] s[i]).0) != usb_key((#[trigger] s[j]).0)
}

impl DeviceNames {
    /// Whether every list names a device once.
    pub open spec fn wf(&self) -> bool {
        once_each_usb(self.usb@) && once_each(self.thunderbolt@) && once_each(self.sdcard@)
    }
}

impl Default for DeviceNames {
    fn default() -> (r: DeviceNames)
        ensures
            r.wf(),
            r.usb@.len() == 0,
            r.thunderbolt@.len() == 0,
            r.sdcard@.len() == 0,
    {
        DeviceNames { usb: Vec::new(), thunderbolt: Vec::new(), sdcard: Vec::new() }
    }
}

/// Baseline snapshots for all monitored buses.
#[derive(Debug)]
pub struct Baselines {
    pub usb: Option<DeviceSnapshot>,
    pub thunderbolt: Option<ThunderboltSnapshot>,
    pub sdcard: Option<SdCardSnapshot>,
    pub power: Option<PowerState>,
    pub network: Option<NetworkSnapshot>,
    pub lid: Option<LidState>,
    /// Cached device names from detailed enumeration at baseline capture time.
    pub names: DeviceNames,
}

impl Baselines {
    /// Whether no snapshot lists a device or an interface twice, and no device has
    /// two names.
    pub open spec fn wf(&self) -> bool {
        &&& self.usb matches Some(s) ==> s.wf()
        &&& self.thunderbolt matches Some(s) ==> s.wf()
        &&& self.sdcard matches Some(s) ==> s.wf()
        &&& self.network matches Some(s) ==> s.wf()
        &&& self.names.wf()
    }
}

/// The words for the modes.
pub proof fn a_mode_has_its_word()
    ensures
        DaemonMode::Enforce.word() == "enforce"@,
        DaemonMode::Learn.word() == "learn"@,
{
}

} // verus!
