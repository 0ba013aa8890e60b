//! The daemon's configuration.

pub mod emit;
pub mod file;
pub mod load;
pub mod round;

use vstd::prelude::*;

use crate::decode::told;
use crate::number::{all_digits, digits_only};
use crate::text::{
    cat3, cat4, chars, copies, copy_option, fields, is, same, same_list, slice_views, split, views,
};

verus! {

/// What to do when mains power goes away.
#[derive(Debug, Clone, Copy, PartialEq, Eq, Structural)]
pub enum PowerPolicy {
    /// The first unplug is a violation.
    TriggerOnce,
    /// Running on battery is a violation.
    AcRequired,
    /// Log only.
    Monitor,
}

/// What to do when a network link is lost.
#[derive(Debug, Clone, Copy, PartialEq, Eq, Structural)]
pub enum NetworkPolicy {
    Kill,
    Monitor,
}

/// What to do when the lid closes.
#[derive(Debug, Clone, Copy, PartialEq, Eq, Structural)]
pub enum LidPolicy {
    Kill,
    Monitor,
}

/// What to do when a PCI device comes or goes.
#[derive(Debug, Clone, Copy, PartialEq, Eq, Structural)]
pub enum PciPolicy {
    Kill,
    Monitor,
}

/// What to do when a display comes or goes.
#[derive(Debug, Clone, Copy, PartialEq, Eq, Structural)]
pub enum DisplayPolicy {
    Kill,
    Monitor,
}

/// `[general]`
#[derive(Debug, PartialEq, Eq)]
pub struct GeneralConfig {
    pub sleep_ms: u64,
    pub log_file: String,
    pub dry_run: bool,
    pub watch_usb: bool,
    pub watch_thunderbolt: bool,
    pub watch_sdcard: bool,
    pub watch_power: bool,
    pub watch_network: bool,
    pub watch_lid: bool,
    pub watch_pci: bool,
    pub watch_display: bool,
    pub require_auth: bool,
}

/// One USB device of the whitelist, standing for `count` of it.
#[derive(Debug, PartialEq, Eq)]
pub struct WhitelistEntry {
    pub vendor_id: String,
    pub product_id: String,
    pub count: u32,
}

/// `[whitelist]`
#[derive(Debug, PartialEq, Eq)]
pub struct WhitelistConfig {
    pub devices: Vec<WhitelistEntry>,
}

/// `[destruction]`
#[derive(Debug, PartialEq, Eq)]
pub struct DestructionConfig {
    pub files_to_remove: Vec<String>,
    pub folders_to_remove: Vec<String>,
    pub melt_self: bool,
    pub do_sync: bool,
    pub do_wipe_swap: bool,
    pub swap_device: Option<String>,
}

/// `[commands]`
#[derive(Debug, PartialEq, Eq)]
pub struct CommandsConfig {
    pub kill_commands: Vec<Vec<String>>,
}

/// One Thunderbolt device of the whitelist.
#[derive(Debug, PartialEq, Eq)]
pub struct ThunderboltWhitelistEntry {
    pub unique_id: String,
}

/// `[thunderbolt_whitelist]`
#[derive(Debug, PartialEq, Eq)]
pub struct ThunderboltWhitelistConfig {
    pub devices: Vec<ThunderboltWhitelistEntry>,
}

/// One SD card of the whitelist.
#[derive(Debug, PartialEq, Eq)]
pub struct SdCardWhitelistEntry {
    pub serial: String,
}

/// `[sdcard_whitelist]`
#[derive(Debug, PartialEq, Eq)]
pub struct SdCardWhitelistConfig {
    pub devices: Vec<SdCardWhitelistEntry>,
}

/// `[power]`
#[derive(Debug, PartialEq, Eq)]
pub struct PowerConfig {
    pub policy: PowerPolicy,
    pub grace_secs: u64,
    pub require_locked: bool,
}

/// `[network]`
#[derive(Debug, PartialEq, Eq)]
pub struct NetworkConfig {
    pub policy: NetworkPolicy,
    pub grace_secs: u64,
    pub interfaces: Vec<String>,
}

/// `[lid]`
#[derive(Debug, PartialEq, Eq)]
pub struct LidConfig {
    pub policy: LidPolicy,
    pub grace_secs: u64,
}

/// `[pci]`
#[derive(Debug, PartialEq, Eq)]
pub struct PciConfig {
    pub policy: PciPolicy,
    pub ignore: Vec<String>,
}

/// `[display]`
#[derive(Debug, PartialEq, Eq)]
pub struct DisplayConfig {
    pub policy: DisplayPolicy,
    pub ignore: Vec<String>,
}

/// The whole configuration. Paths are kept as the text they are written as.
#[derive(Debug, PartialEq, Eq)]
pub struct Config {
    pub general: GeneralConfig,
    pub whitelist: WhitelistConfig,
    pub destruction: DestructionConfig,
    pub commands: CommandsConfig,
    pub thunderbolt_whitelist: ThunderboltWhitelistConfig,
    pub sdcard_whitelist: SdCardWhitelistConfig,
    pub power: PowerConfig,
    pub network: NetworkConfig,
    pub lid: LidConfig,
    pub pci: PciConfig,
    pub display: DisplayConfig,
}

impl Config {
    /// Whether this is the configuration of an empty file.
    pub open spec fn is_default(self) -> bool {
        &&& self.general.sleep_ms == 250
        &&& self.general.log_file@ == "/var/log/plugkill/plugkill.log"@
        &&& !self.general.dry_run && !self.general.require_auth
        &&& self.general.watch_usb && self.general.watch_thunderbolt && self.general.watch_sdcard
        &&& !self.general.watch_power && !self.general.watch_network && !self.general.watch_lid
        &&& !self.general.watch_pci && !self.general.watch_display
        &&& self.whitelist.devices@.len() == 0
        &&& self.thunderbolt_whitelist.devices@.len() == 0
        &&& self.sdcard_whitelist.devices@.len() == 0
        &&& self.destruction.files_to_remove@.len() == 0
        &&& self.destruction.folders_to_remove@.len() == 0
        &&& !self.destruction.melt_self && self.destruction.do_sync && !self.destruction.do_wipe_swap
        &&& self.destruction.swap_device is None
        &&& self.commands.kill_commands@.len() == 0
        &&& self.power.policy == PowerPolicy::Monitor
        &&& self.power.grace_secs == 0 && !self.power.require_locked
        &&& self.network.policy == NetworkPolicy::Monitor
        &&& self.network.grace_secs == 0
        &&& self.network.interfaces@.len() == 0
        &&& self.lid.policy == LidPolicy::Monitor
        &&& self.lid.grace_secs == 0
        &&& self.pci.policy == PciPolicy::Monitor
        &&& self.pci.ignore@.len() == 0
        &&& self.display.policy == DisplayPolicy::Monitor
        &&& self.display.ignore@.len() == 0
    }
}

impl Default for Config {
    fn default() -> (r: Config)
        ensures
            r.is_default(),
    {
        Config {
            general: GeneralConfig {
                sleep_ms: 250,
                log_file: "/var/log/plugkill/plugkill.log".to_owned(),
                dry_run: false,
                watch_usb: true,
                watch_thunderbolt: true,
                watch_sdcard: true,
                watch_power: false,
                watch_network: false,
                watch_lid: false,
                watch_pci: false,
                watch_display: false,
                require_auth: false,
            },
            whitelist: WhitelistConfig { devices: Vec::new() },
            destruction: DestructionConfig {
                files_to_remove: Vec::new(),
                folders_to_remove: Vec::new(),
                melt_self: false,
                do_sync: true,
                do_wipe_swap: false,
                swap_device: None,
            },
            commands: CommandsConfig { kill_commands: Vec::new() },
            thunderbolt_whitelist: ThunderboltWhitelistConfig { devices: Vec::new() },
            sdcard_whitelist: SdCardWhitelistConfig { devices: Vec::new() },
            power: PowerConfig { policy: PowerPolicy::Monitor, grace_secs: 0, require_locked: false },
            network: NetworkConfig {
                policy: NetworkPolicy::Monitor,
                grace_secs: 0,
                interfaces: Vec::new(),
            },
            lid: LidConfig { policy: LidPolicy::Monitor, grace_secs: 0 },
            pci: PciConfig { policy: PciPolicy::Monitor, ignore: Vec::new() },
            display: DisplayConfig { policy: DisplayPolicy::Monitor, ignore: Vec::new() },
        }
    }
}

/// The USB entries by what they hold.
pub open spec fn usb_values(s: Seq<WhitelistEntry>) -> Seq<(Seq<char>, Seq<char>, u32)> {
    s.map_values(|e: WhitelistEntry| (e.vendor_id@, e.product_id@, e.count))
}

/// The Thunderbolt entries by what they hold.
pub open spec fn thunderbolt_values(s: Seq<ThunderboltWhitelistEntry>) -> Seq<Seq<char>> {
    s.map_values(|e: ThunderboltWhitelistEntry| e.unique_id@)
}

/// The SD card entries by what they hold.
pub open spec fn card_values(s: Seq<SdCardWhitelistEntry>) -> Seq<Seq<char>> {
    s.map_values(|e: SdCardWhitelistEntry| e.serial@)
}

/// The commands by their words.
pub open spec fn command_values(s: Seq<Vec<String>>) -> Seq<Seq<Seq<char>>> {
    s.map_values(|c: Vec<String>| views(c@))
}

impl GeneralConfig {
    /// Whether two `[general]` sections hold the same values.
    pub open spec fn same(self, o: GeneralConfig) -> bool {
        &&& self.log_file@ == o.log_file@
        &&& self == GeneralConfig { log_file: self.log_file, ..o }
    }
}

impl DestructionConfig {
    /// Whether two `[destruction]` sections hold the same values.
    pub open spec fn same(self, o: DestructionConfig) -> bool {
        &&& views(self.files_to_remove@) == views(o.files_to_remove@)
        &&& views(self.folders_to_remove@) == views(o.folders_to_remove@)
        &&& self.melt_self == o.melt_self
        &&& self.do_sync == o.do_sync
        &&& self.do_wipe_swap == o.do_wipe_swap
        &&& told(self.swap_device) == told(o.swap_device)
    }
}

impl Config {
    /// Whether two configurations hold the same values.
    pub open spec fn same(self, o: Config) -> bool {
        &&& self.general.same(o.general)
        &&& usb_values(self.whitelist.devices@) == usb_values(o.whitelist.devices@)
        &&& self.destruction.same(o.destruction)
        &&& command_values(self.commands.kill_commands@) == command_values(
            o.commands.kill_commands@,
        )
        &&& thunderbolt_values(self.thunderbolt_whitelist.devices@) == thunderbolt_values(
            o.thunderbolt_whitelist.devices@,
        )
        &&& card_values(self.sdcard_whitelist.devices@) == card_values(o.sdcard_whitelist.devices@)
        &&& self.power == o.power
        &&& self.network.policy == o.network.policy
        &&& self.network.grace_secs == o.network.grace_secs
        &&& views(self.network.interfaces@) == views(o.network.interfaces@)
        &&& self.lid == o.lid
        &&& self.pci.policy == o.pci.policy
        &&& views(self.pci.ignore@) == views(o.pci.ignore@)
        &&& self.display.policy == o.display.policy
        &&& views(self.display.ignore@) == views(o.display.ignore@)
    }
}

fn same_usb(a: &[WhitelistEntry], b: &[WhitelistEntry]) -> (r: bool)
    ensures
        r == (usb_values(a@) == usb_values(b@)),
{
    let ghost x = usb_values(a@);
    let ghost y = usb_values(b@);
    if a.len() != b.len() {
        assert(x.len() != y.len());
        return false;
    }
    let mut i: usize = 0;
    while i < a.len()
        invariant
            i <= a@.len(),
            a@.len() == b@.len(),
            x == usb_values(a@),
            y == usb_values(b@),
            forall|k: int| 0 <= k < i ==> x[k] == y[k],
        decreases a@.len() - i,
    {
        assert(x[i as int] == (a@[i as int].vendor_id@, a@[i as int].product_id@, a@[i as int].count));
        assert(y[i as int] == (b@[i as int].vendor_id@, b@[i as int].product_id@, b@[i as int].count));
        if a[i].count != b[i].count || !same(a[i].vendor_id.as_str(), b[i].vendor_id.as_str())
            || !same(a[i].product_id.as_str(), b[i].product_id.as_str()) {
            assert(x[i as int] != y[i as int]);
            return false;
        }
        i += 1;
    }
    assert(x =~= y);
    true
}

fn same_thunderbolt(a: &[ThunderboltWhitelistEntry], b: &[ThunderboltWhitelistEntry]) -> (r: bool)
    ensures
        r == (thunderbolt_values(a@) == thunderbolt_values(b@)),
{
    let ghost x = thunderbolt_values(a@);
    let ghost y = thunderbolt_values(b@);
    if a.len() != b.len() {
        assert(x.len() != y.len());
        return false;
    }
    let mut i: usize = 0;
    while i < a.len()
        invariant
            i <= a@.len(),
            a@.len() == b@.len(),
            x == thunderbolt_values(a@),
            y == thunderbolt_values(b@),
            forall|k: int| 0 <= k < i ==> x[k] == y[k],
        decreases a@.len() - i,
    {
        assert(x[i as int] == a@[i as int].unique_id@);
        assert(y[i as int] == b@[i as int].unique_id@);
        if !same(a[i].unique_id.as_str(), b[i].unique_id.as_str()) {
            return false;
        }
        i += 1;
    }
    assert(x =~= y);
    true
}

fn same_cards(a: &[SdCardWhitelistEntry], b: &[SdCardWhitelistEntry]) -> (r: bool)
    ensures
        r == (card_values(a@) == card_values(b@)),
{
    let ghost x = card_values(a@);
    let ghost y = card_values(b@);
    if a.len() != b.len() {
        assert(x.len() != y.len());
        return false;
    }
    let mut i: usize = 0;
    while i < a.len()
        invariant
            i <= a@.len(),
            a@.len() == b@.len(),
            x == card_values(a@),
            y == card_values(b@),
            forall|k: int| 0 <= k < i ==> x[k] == y[k],
        decreases a@.len() - i,
    {
        assert(x[i as int] == a@[i as int].serial@);
        assert(y[i as int] == b@[i as int].serial@);
        if !same(a[i].serial.as_str(), b[i].serial.as_str()) {
            return false;
        }
        i += 1;
    }
    assert(x =~= y);
    true
}

fn same_commands(a: &[Vec<String>], b: &[Vec<String>]) -> (r: bool)
    ensures
        r == (command_values(a@) == command_values(b@)),
{
    let ghost x = command_values(a@);
    let ghost y = command_values(b@);
    if a.len() != b.len() {
        assert(x.len() != y.len());
        return false;
    }
    let mut i: usize = 0;
    while i < a.len()
        invariant
            i <= a@.len(),
            a@.len() == b@.len(),
            x == command_values(a@),
            y == command_values(b@),
            forall|k: int| 0 <= k < i ==> x[k] == y[k],
        decreases a@.len() - i,
    {
        assert(x[i as int] == views(a@[i as int]@));
        assert(y[i as int] == views(b@[i as int]@));
        if !same_list(a[i].as_slice(), b[i].as_slice()) {
            return false;
        }
        i += 1;
    }
    assert(x =~= y);
    true
}

fn same_told(a: &Option<String>, b: &Option<String>) -> (r: bool)
    ensures
        r == (told(*a) == told(*b)),
{
    match (a, b) {
        (Some(x), Some(y)) => same(x.as_str(), y.as_str()),
        (None, None) => true,
        _ => false,
    }
}

impl Config {
    /// Whether two configurations hold the same values.
    pub fn equals(&self, o: &Config) -> (r: bool)
        ensures
            r == self.same(*o),
    {
        let g = &self.general;
        let h = &o.general;
        let d = &self.destruction;
        let e = &o.destruction;
        let general = g.sleep_ms == h.sleep_ms && same(g.log_file.as_str(), h.log_file.as_str())
            && g.dry_run == h.dry_run && g.watch_usb == h.watch_usb && g.watch_thunderbolt
            == h.watch_thunderbolt && g.watch_sdcard == h.watch_sdcard && g.watch_power
            == h.watch_power && g.watch_network == h.watch_network && g.watch_lid == h.watch_lid
            && g.watch_pci == h.watch_pci && g.watch_display == h.watch_display && g.require_auth
            == h.require_auth;
        let destruction = same_list(d.files_to_remove.as_slice(), e.files_to_remove.as_slice())
            && same_list(d.folders_to_remove.as_slice(), e.folders_to_remove.as_slice())
            && d.melt_self == e.melt_self && d.do_sync == e.do_sync && d.do_wipe_swap
            == e.do_wipe_swap && same_told(&d.swap_device, &e.swap_device);
        let lists = same_usb(self.whitelist.devices.as_slice(), o.whitelist.devices.as_slice())
            && same_commands(
            self.commands.kill_commands.as_slice(),
            o.commands.kill_commands.as_slice(),
        ) && same_thunderbolt(
            self.thunderbolt_whitelist.devices.as_slice(),
            o.thunderbolt_whitelist.devices.as_slice(),
        ) && same_cards(
            self.sdcard_whitelist.devices.as_slice(),
            o.sdcard_whitelist.devices.as_slice(),
        );
        general && destruction && lists && self.power.policy == o.power.policy
            && self.power.grace_secs == o.power.grace_secs && self.power.require_locked
            == o.power.require_locked && self.network.policy == o.network.policy
            && self.network.grace_secs == o.network.grace_secs && same_list(
            self.network.interfaces.as_slice(),
            o.network.interfaces.as_slice(),
        ) && self.lid.policy == o.lid.policy && self.lid.grace_secs == o.lid.grace_secs
            && self.pci.policy == o.pci.policy && same_list(
            self.pci.ignore.as_slice(),
            o.pci.ignore.as_slice(),
        ) && self.display.policy == o.display.policy && same_list(
            self.display.ignore.as_slice(),
            o.display.ignore.as_slice(),
        )
    }

    /// A configuration with the same values.
    pub fn copy(&self) -> (r: Config)
        ensures
            r.same(*self),
    {
        let mut devices: Vec<WhitelistEntry> = Vec::new();
        let mut i: usize = 0;
        while i < self.whitelist.devices.len()
            invariant
                i <= self.whitelist.devices@.len(),
                devices@.len() == i,
                forall|k: int|
                    0 <= k < i ==> usb_values(devices@)[k] == #[trigger] usb_values(
                        self.whitelist.devices@,
                    )[k],
            decreases self.whitelist.devices@.len() - i,
        {
            let e = &self.whitelist.devices[i];
            devices.push(
                WhitelistEntry {
                    vendor_id: e.vendor_id.clone(),
                    product_id: e.product_id.clone(),
                    count: e.count,
                },
            );
            i += 1;
        }
        assert(usb_values(devices@) =~= usb_values(self.whitelist.devices@));
        let mut ids: Vec<ThunderboltWhitelistEntry> = Vec::new();
        i = 0;
        while i < self.thunderbolt_whitelist.devices.len()
            invariant
                i <= self.thunderbolt_whitelist.devices@.len(),
                ids@.len() == i,
                forall|k: int|
                    0 <= k < i ==> thunderbolt_values(ids@)[k] == #[trigger] thunderbolt_values(
                        self.thunderbolt_whitelist.devices@,
                    )[k],
            decreases self.thunderbolt_whitelist.devices@.len() - i,
        {
            ids.push(
                ThunderboltWhitelistEntry {
                    unique_id: self.thunderbolt_whitelist.devices[i].unique_id.clone(),
                },
            );
            i += 1;
        }
        assert(thunderbolt_values(ids@) =~= thunderbolt_values(self.thunderbolt_whitelist.devices@));
        let mut cards: Vec<SdCardWhitelistEntry> = Vec::new();
        i = 0;
        while i < self.sdcard_whitelist.devices.len()
            invariant
                i <= self.sdcard_whitelist.devices@.len(),
                cards@.len() == i,
                forall|k: int|
                    0 <= k < i ==> card_values(cards@)[k] == #[trigger] card_values(
                        self.sdcard_whitelist.devices@,
                    )[k],
            decreases self.sdcard_whitelist.devices@.len() - i,
        {
            cards.push(
                SdCardWhitelistEntry { serial: self.sdcard_whitelist.devices[i].serial.clone() },
            );
            i += 1;
        }
        assert(card_values(cards@) =~= card_values(self.sdcard_whitelist.devices@));
        let mut commands: Vec<Vec<String>> = Vec::new();
        i = 0;
        while i < self.commands.kill_commands.len()
            invariant
                i <= self.commands.kill_commands@.len(),
                commands@.len() == i,
                forall|k: int|
                    0 <= k < i ==> command_values(commands@)[k] == #[trigger] command_values(
                        self.commands.kill_commands@,
                    )[k],
            decreases self.commands.kill_commands@.len() - i,
        {
            commands.push(copies(self.commands.kill_commands[i].as_slice()));
            i += 1;
        }
        assert(command_values(commands@) =~= command_values(self.commands.kill_commands@));
        let g = &self.general;
        let d = &self.destruction;
        Config {
            general: GeneralConfig {
                sleep_ms: g.sleep_ms,
                log_file: g.log_file.clone(),
                dry_run: g.dry_run,
                watch_usb: g.watch_usb,
                watch_thunderbolt: g.watch_thunderbolt,
                watch_sdcard: g.watch_sdcard,
                watch_power: g.watch_power,
                watch_network: g.watch_network,
                watch_lid: g.watch_lid,
                watch_pci: g.watch_pci,
                watch_display: g.watch_display,
                require_auth: g.require_auth,
            },
            whitelist: WhitelistConfig { devices },
            destruction: DestructionConfig {
                files_to_remove: copies(d.files_to_remove.as_slice()),
                folders_to_remove: copies(d.folders_to_remove.as_slice()),
                melt_self: d.melt_self,
                do_sync: d.do_sync,
                do_wipe_swap: d.do_wipe_swap,
                swap_device: copy_option(&d.swap_device),
            },
            commands: CommandsConfig { kill_commands: commands },
            thunderbolt_whitelist: ThunderboltWhitelistConfig { devices: ids },
            sdcard_whitelist: SdCardWhitelistConfig { devices: cards },
            power: PowerConfig {
                policy: self.power.policy,
                grace_secs: self.power.grace_secs,
                require_locked: self.power.require_locked,
            },
            network: NetworkConfig {
                policy: self.network.policy,
                grace_secs: self.network.grace_secs,
                interfaces: copies(self.network.interfaces.as_slice()),
            },
            lid: LidConfig { policy: self.lid.policy, grace_secs: self.lid.grace_secs },
            pci: PciConfig {
                policy: self.pci.policy,
                ignore: copies(self.pci.ignore.as_slice()),
            },
            display: DisplayConfig {
                policy: self.display.policy,
                ignore: copies(self.display.ignore.as_slice()),
            },
        }
    }
}

/// The bounds the loader moves a value into.
pub open spec fn clamp_to(n: u64, low: u64, high: u64) -> u64 {
    if n < low {
        low
    } else if n > high {
        high
    } else {
        n
    }
}

fn clamp_in(n: u64, low: u64, high: u64) -> (r: u64)
    ensures
        r == clamp_to(n, low, high),
{
    if n < low {
        low
    } else if n > high {
        high
    } else {
        n
    }
}

impl Config {
    /// The same configuration with every bounded value moved into its range:
    /// the polling interval to 50 to 10000 ms, the grace periods to at most
    /// 300 s.
    pub open spec fn in_range(self) -> Config {
        Config {
            general: GeneralConfig {
                sleep_ms: clamp_to(self.general.sleep_ms, 50, 10000),
                ..self.general
            },
            power: PowerConfig { grace_secs: clamp_to(self.power.grace_secs, 0, 300), ..self.power },
            network: NetworkConfig {
                grace_secs: clamp_to(self.network.grace_secs, 0, 300),
                ..self.network
            },
            lid: LidConfig { grace_secs: clamp_to(self.lid.grace_secs, 0, 300), ..self.lid },
            ..self
        }
    }

    /// Move every bounded value into its range.
    pub fn clamp(&mut self)
        ensures
            *final(self) == old(self).in_range(),
    {
        self.general.sleep_ms = clamp_in(self.general.sleep_ms, 50, 10000);
        self.power.grace_secs = clamp_in(self.power.grace_secs, 0, 300);
        self.network.grace_secs = clamp_in(self.network.grace_secs, 0, 300);
        self.lid.grace_secs = clamp_in(self.lid.grace_secs, 0, 300);
    }
}

// ---- what a config has to be ---------------------------------------------

/// Whether a path is absolute, with no `..` in it.
pub open spec fn path_ok(path: Seq<char>) -> bool {
    path.len() > 0 && path[0] == '/' && !fields(path, '/').contains(".."@)
}

/// Whether an id is spelled in hex digits.
pub open spec fn hex_ok(id: Seq<char>) -> bool {
    id.len() > 0 && all_digits(id, 16)
}

/// What is wrong with a path.
pub open spec fn path_complaint(what: Seq<char>, path: Seq<char>) -> Option<Seq<char>> {
    if path_ok(path) {
        None
    } else {
        Some(what + ": '"@ + path + "' is not an absolute path without '..'"@)
    }
}

/// What is wrong with the first path, at or after position `i`, that anything is
/// wrong with.
pub open spec fn paths_complaint(what: Seq<char>, paths: Seq<Seq<char>>, i: int) -> Option<
    Seq<char>,
>
    decreases paths.len() - i,
{
    if i >= paths.len() || i < 0 {
        None
    } else if path_complaint(what, paths[i]) is Some {
        path_complaint(what, paths[i])
    } else {
        paths_complaint(what, paths, i + 1)
    }
}

/// What is wrong with a USB entry.
pub open spec fn usb_complaint(e: (Seq<char>, Seq<char>, u32)) -> Option<Seq<char>> {
    if !hex_ok(e.0) {
        Some("whitelist.devices: vendor_id '"@ + e.0 + "' is not hex"@)
    } else if !hex_ok(e.1) {
        Some("whitelist.devices: product_id '"@ + e.1 + "' is not hex"@)
    } else {
        None
    }
}

/// What is wrong with the first USB entry, at or after position `i`, that anything
/// is wrong with.
pub open spec fn usbs_complaint(es: Seq<(Seq<char>, Seq<char>, u32)>, i: int) -> Option<Seq<char>>
    decreases es.len() - i,
{
    if i >= es.len() || i < 0 {
        None
    } else if usb_complaint(es[i]) is Some {
        usb_complaint(es[i])
    } else {
        usbs_complaint(es, i + 1)
    }
}

/// What is wrong with a kill command: its binary is given by its path.
pub open spec fn command_complaint(c: Seq<Seq<char>>) -> Option<Seq<char>> {
    if c.len() == 0 {
        Some("commands.kill_commands: a command names no binary"@)
    } else {
        path_complaint("commands.kill_commands"@, c[0])
    }
}

/// What is wrong with the first kill command, at or after position `i`, that
/// anything is wrong with.
pub open spec fn commands_complaint(cs: Seq<Seq<Seq<char>>>, i: int) -> Option<Seq<char>>
    decreases cs.len() - i,
{
    if i >= cs.len() || i < 0 {
        None
    } else if command_complaint(cs[i]) is Some {
        command_complaint(cs[i])
    } else {
        commands_complaint(cs, i + 1)
    }
}

/// The first of two complaints.
pub open spec fn first_of(a: Option<Seq<char>>, b: Option<Seq<char>>) -> Option<Seq<char>> {
    if a is Some {
        a
    } else {
        b
    }
}

impl Config {
    /// What is wrong with a config, `None` where the daemon starts on it.
    pub open spec fn complaint(self) -> Option<Seq<char>> {
        let log = path_complaint("general.log_file"@, self.general.log_file@);
        let usb = usbs_complaint(usb_values(self.whitelist.devices@), 0);
        let files = paths_complaint(
            "destruction.files_to_remove"@,
            views(self.destruction.files_to_remove@),
            0,
        );
        let folders = paths_complaint(
            "destruction.folders_to_remove"@,
            views(self.destruction.folders_to_remove@),
            0,
        );
        let swap = match self.destruction.swap_device {
            Some(d) => path_complaint("destruction.swap_device"@, d@),
            None => if self.destruction.do_wipe_swap {
                Some("destruction.swap_device is required when do_wipe_swap is set"@)
            } else {
                None
            },
        };
        let commands = commands_complaint(command_values(self.commands.kill_commands@), 0);
        first_of(log, first_of(usb, first_of(files, first_of(folders, first_of(swap, commands)))))
    }
}

fn check_path(what: &str, path: &str) -> (r: Result<(), String>)
    ensures
        match r {
            Ok(_) => path_complaint(what@, path@) is None,
            Err(e) => path_complaint(what@, path@) == Some(e@),
        },
{
    let cs = chars(path);
    let mut good = cs.len() > 0 && cs[0] == '/';
    let parts = split(cs.as_slice(), '/');
    let ghost all = fields(path@, '/');
    assert(slice_views(parts@) == all);
    assert(all.len() == parts@.len());
    let mut up = false;
    let mut i: usize = 0;
    while i < parts.len()
        invariant
            i <= parts@.len(),
            slice_views(parts@) == all,
            all.len() == parts@.len(),
            up == exists|k: int| 0 <= k < i && #[trigger] all[k] == ".."@,
        decreases parts@.len() - i,
    {
        assert(all[i as int] == parts@[i as int]@);
        if is(parts[i], "..") {
            up = true;
        }
        i += 1;
    }
    assert(up == all.contains(".."@));
    if up {
        good = false;
    }
    if good {
        Ok(())
    } else {
        Err(cat4(what, ": '", path, "' is not an absolute path without '..'"))
    }
}

fn check_paths(what: &str, paths: &[String]) -> (r: Result<(), String>)
    ensures
        match r {
            Ok(_) => paths_complaint(what@, views(paths@), 0) is None,
            Err(e) => paths_complaint(what@, views(paths@), 0) == Some(e@),
        },
{
    let ghost all = views(paths@);
    let mut i: usize = 0;
    while i < paths.len()
        invariant
            i <= paths@.len(),
            all == views(paths@),
            paths_complaint(what@, all, 0) == paths_complaint(what@, all, i as int),
        decreases paths@.len() - i,
    {
        assert(all[i as int] == paths@[i as int]@);
        if let Err(e) = check_path(what, paths[i].as_str()) {
            return Err(e);
        }
        i += 1;
    }
    Ok(())
}

fn check_usb(e: &WhitelistEntry) -> (r: Result<(), String>)
    ensures
        match r {
            Ok(_) => usb_complaint((e.vendor_id@, e.product_id@, e.count)) is None,
            Err(m) => usb_complaint((e.vendor_id@, e.product_id@, e.count)) == Some(m@),
        },
{
    let vendor = chars(e.vendor_id.as_str());
    if vendor.len() == 0 || !digits_only(vendor.as_slice(), 16) {
        return Err(
            cat3("whitelist.devices: vendor_id '", e.vendor_id.as_str(), "' is not hex"),
        );
    }
    let product = chars(e.product_id.as_str());
    if product.len() == 0 || !digits_only(product.as_slice(), 16) {
        return Err(
            cat3("whitelist.devices: product_id '", e.product_id.as_str(), "' is not hex"),
        );
    }
    Ok(())
}

impl Config {
    /// Whether the daemon starts on a config, or why it does not: every path is
    /// absolute with no `..` in it, every kill command gives its binary by an
    /// absolute path, every USB id is hex, and wiping swap names the device.
    pub fn check(&self) -> (r: Result<(), String>)
        ensures
            match r {
                Ok(_) => self.complaint() is None,
                Err(e) => self.complaint() == Some(e@),
            },
    {
        if let Err(e) = check_path("general.log_file", self.general.log_file.as_str()) {
            return Err(e);
        }
        let ghost usb = usb_values(self.whitelist.devices@);
        let mut i: usize = 0;
        while i < self.whitelist.devices.len()
            invariant
                i <= self.whitelist.devices@.len(),
                usb == usb_values(self.whitelist.devices@),
                path_complaint("general.log_file"@, self.general.log_file@) is None,
                usbs_complaint(usb, 0) == usbs_complaint(usb, i as int),
            decreases self.whitelist.devices@.len() - i,
        {
            let e = &self.whitelist.devices[i];
            assert(usb[i as int] == (e.vendor_id@, e.product_id@, e.count));
            if let Err(m) = check_usb(e) {
                return Err(m);
            }
            i += 1;
        }
        if let Err(e) = check_paths(
            "destruction.files_to_remove",
            self.destruction.files_to_remove.as_slice(),
        ) {
            return Err(e);
        }
        if let Err(e) = check_paths(
            "destruction.folders_to_remove",
            self.destruction.folders_to_remove.as_slice(),
        ) {
            return Err(e);
        }
        match &self.destruction.swap_device {
            Some(d) => {
                if let Err(e) = check_path("destruction.swap_device", d.as_str()) {
                    return Err(e);
                }
            },
            None => {
                if self.destruction.do_wipe_swap {
                    return Err(
                        "destruction.swap_device is required when do_wipe_swap is set".to_owned(),
                    );
                }
            },
        }
        self.check_commands()
    }

    fn check_commands(&self) -> (r: Result<(), String>)
        ensures
            match r {
                Ok(_) => commands_complaint(command_values(self.commands.kill_commands@), 0) is None,
                Err(e) => commands_complaint(command_values(self.commands.kill_commands@), 0)
                    == Some(e@),
            },
    {
        let ghost all = command_values(self.commands.kill_commands@);
        let mut i: usize = 0;
        while i < self.commands.kill_commands.len()
            invariant
                i <= self.commands.kill_commands@.len(),
                all == command_values(self.commands.kill_commands@),
                commands_complaint(all, 0) == commands_complaint(all, i as int),
            decreases self.commands.kill_commands@.len() - i,
        {
            let c = &self.commands.kill_commands[i];
            assert(all[i as int] == views(c@));
            if c.len() == 0 {
                return Err("commands.kill_commands: a command names no binary".to_owned());
            }
            assert(all[i as int][0] == c@[0]@);
            if let Err(e) = check_path("commands.kill_commands", c[0].as_str()) {
                return Err(e);
            }
            i += 1;
        }
        Ok(())
    }
}

/// Moving values into their ranges makes nothing right and nothing wrong.
pub proof fn clamping_changes_no_verdict(c: Config)
    ensures
        c.in_range().complaint() == c.complaint(),
{
}

/// A value that was moved into its range stays there.
pub proof fn clamping_twice_is_clamping_once(c: Config)
    ensures
        c.in_range().in_range() == c.in_range(),
{
}

/// Times out of range are brought to the nearest end of it, a poll between 50 ms and ten
/// seconds and a grace of five minutes at most; those within stay, and so does every
/// other setting.
pub proof fn times_are_brought_into_range(c: Config)
    ensures
        ({
            let r = c.in_range();
            let ms = c.general.sleep_ms;
            &&& 50 <= r.general.sleep_ms <= 10000
            &&& 50 <= ms <= 10000 ==> r.general.sleep_ms == ms
            &&& ms < 50 ==> r.general.sleep_ms == 50
            &&& ms > 10000 ==> r.general.sleep_ms == 10000
            &&& c.power.grace_secs <= 300 ==> r.power == c.power
            &&& c.power.grace_secs > 300 ==> r.power == (PowerConfig { grace_secs: 300, ..c.power })
            &&& c.network.grace_secs <= 300 ==> r.network == c.network
            &&& c.network.grace_secs > 300 ==> r.network == (NetworkConfig {
                grace_secs: 300,
                ..c.network
            })
            &&& c.lid.grace_secs <= 300 ==> r.lid == c.lid
            &&& c.lid.grace_secs > 300 ==> r.lid == (LidConfig { grace_secs: 300, ..c.lid })
            &&& r.general == (GeneralConfig { sleep_ms: r.general.sleep_ms, ..c.general })
            &&& r.whitelist == c.whitelist && r.destruction == c.destruction && r.commands
                == c.commands
            &&& r.thunderbolt_whitelist == c.thunderbolt_whitelist && r.sdcard_whitelist
                == c.sdcard_whitelist
            &&& r.pci == c.pci && r.display == c.display
        }),
{
}

/// Whether a path is absolute and none of its parts is two dots.
pub open spec fn plain_path(path: Seq<char>) -> bool {
    path.len() > 0 && path[0] == '/' && forall|i: int|
        0 <= i < fields(path, '/').len() ==> #[trigger] fields(path, '/')[i] != seq!['.', '.']
}

/// Whether a text is hexadecimal digits, one or more.
pub open spec fn hex_digits(s: Seq<char>) -> bool {
    s.len() > 0 && forall|i: int| 0 <= i < s.len() ==> crate::number::is_digit_of(#[trigger] s[i], 16)
}

proof fn plain_is_ok(path: Seq<char>)
    ensures
        path_ok(path) <==> plain_path(path),
{
    reveal_strlit("..");
    assert(".."@ =~= seq!['.', '.']);
    let f = fields(path, '/');
    if f.contains(".."@) {
        let i = choose|i: int| 0 <= i < f.len() && f[i] == ".."@;
        assert(fields(path, '/')[i] == seq!['.', '.']);
    }
    if path_ok(path) {
        assert forall|i: int| 0 <= i < fields(path, '/').len() implies #[trigger] fields(path, '/')[i]
            != seq!['.', '.'] by {
            assert(f.contains(f[i]));
        }
    }
}

proof fn hex_is_ok(s: Seq<char>)
    ensures
        hex_ok(s) <==> hex_digits(s),
{
    assert forall|i: int| 0 <= i < s.len() implies (crate::number::is_digit_of(#[trigger] s[i], 16)
        <==> crate::number::digit_value(s[i]) < 16) by {}
}

proof fn all_paths_ok(what: Seq<char>, paths: Seq<Seq<char>>, i: int)
    requires
        0 <= i,
    ensures
        paths_complaint(what, paths, i) is None <==> forall|k: int|
            i <= k < paths.len() ==> plain_path(#[trigger] paths[k]),
    decreases paths.len() - i,
{
    if i < paths.len() {
        all_paths_ok(what, paths, i + 1);
        plain_is_ok(paths[i]);
    }
}

proof fn all_usb_ok(es: Seq<(Seq<char>, Seq<char>, u32)>, i: int)
    requires
        0 <= i,
    ensures
        usbs_complaint(es, i) is None <==> forall|k: int|
            i <= k < es.len() ==> hex_digits((#[trigger] es[k]).0) && hex_digits(es[k].1),
    decreases es.len() - i,
{
    if i < es.len() {
        all_usb_ok(es, i + 1);
        hex_is_ok(es[i].0);
        hex_is_ok(es[i].1);
    }
}

proof fn all_commands_ok(cs: Seq<Seq<Seq<char>>>, i: int)
    requires
        0 <= i,
    ensures
        commands_complaint(cs, i) is None <==> forall|k: int|
            i <= k < cs.len() ==> (#[trigger] cs[k]).len() > 0 && plain_path(cs[k][0]),
    decreases cs.len() - i,
{
    if i < cs.len() {
        all_commands_ok(cs, i + 1);
        if cs[i].len() > 0 {
            plain_is_ok(cs[i][0]);
        }
    }
}

/// A configuration is accepted exactly where the log, every file and folder to remove,
/// the swap device and the binary of every command are absolute paths that never go up,
/// every USB id is hexadecimal, every command names a binary, and swap is wiped only
/// where its device is given.
pub proof fn a_config_is_accepted_exactly_when(c: Config)
    ensures
        c.complaint() is None <==> {
            &&& plain_path(c.general.log_file@)
            &&& forall|i: int|
                0 <= i < c.whitelist.devices@.len() ==> hex_digits(
                    (#[trigger] c.whitelist.devices@[i]).vendor_id@,
                ) && hex_digits(c.whitelist.devices@[i].product_id@)
            &&& forall|i: int|
                0 <= i < c.destruction.files_to_remove@.len() ==> plain_path(
                    (#[trigger] c.destruction.files_to_remove@[i])@,
                )
            &&& forall|i: int|
                0 <= i < c.destruction.folders_to_remove@.len() ==> plain_path(
                    (#[trigger] c.destruction.folders_to_remove@[i])@,
                )
            &&& c.destruction.swap_device matches Some(d) ==> plain_path(d@)
            &&& c.destruction.swap_device is None ==> !c.destruction.do_wipe_swap
            &&& forall|i: int|
                0 <= i < c.commands.kill_commands@.len() ==> (
                #[trigger] c.commands.kill_commands@[i])@.len() > 0 && plain_path(
                    c.commands.kill_commands@[i]@[0]@,
                )
        },
{
    let usb = usb_values(c.whitelist.devices@);
    let files = views(c.destruction.files_to_remove@);
    let folders = views(c.destruction.folders_to_remove@);
    let commands = command_values(c.commands.kill_commands@);
    plain_is_ok(c.general.log_file@);
    if let Some(d) = c.destruction.swap_device {
        plain_is_ok(d@);
    }
    all_usb_ok(usb, 0);
    all_paths_ok("destruction.files_to_remove"@, files, 0);
    all_paths_ok("destruction.folders_to_remove"@, folders, 0);
    all_commands_ok(commands, 0);
    assert forall|i: int| 0 <= i < usb.len() implies #[trigger] usb[i] == (
        c.whitelist.devices@[i].vendor_id@,
        c.whitelist.devices@[i].product_id@,
        c.whitelist.devices@[i].count,
    ) by {}
    assert forall|i: int| 0 <= i < files.len() implies #[trigger] files[i]
        == c.destruction.files_to_remove@[i]@ by {}
    assert forall|i: int| 0 <= i < folders.len() implies #[trigger] folders[i]
        == c.destruction.folders_to_remove@[i]@ by {}
    assert forall|i: int| 0 <= i < commands.len() implies (#[trigger] commands[i]).len()
        == c.commands.kill_commands@[i]@.len() && (commands[i].len() > 0 ==> commands[i][0]
        == c.commands.kill_commands@[i]@[0]@) by {}
    if forall|k: int| 0 <= k < usb.len() ==> hex_digits((#[trigger] usb[k]).0) && hex_digits(usb[k].1) {
        assert forall|i: int| 0 <= i < c.whitelist.devices@.len() implies hex_digits(
            (#[trigger] c.whitelist.devices@[i]).vendor_id@,
        ) && hex_digits(c.whitelist.devices@[i].product_id@) by {
            assert(hex_digits(usb[i].0));
        }
    }
    if forall|k: int| 0 <= k < files.len() ==> plain_path(#[trigger] files[k]) {
        assert forall|i: int| 0 <= i < c.destruction.files_to_remove@.len() implies plain_path(
            (#[trigger] c.destruction.files_to_remove@[i])@,
        ) by {
            assert(plain_path(files[i]));
        }
    }
    if forall|k: int| 0 <= k < folders.len() ==> plain_path(#[trigger] folders[k]) {
        assert forall|i: int| 0 <= i < c.destruction.folders_to_remove@.len() implies plain_path(
            (#[trigger] c.destruction.folders_to_remove@[i])@,
        ) by {
            assert(plain_path(folders[i]));
        }
    }
    if forall|k: int|
        0 <= k < commands.len() ==> (#[trigger] commands[k]).len() > 0 && plain_path(commands[k][0]) {
        assert forall|i: int| 0 <= i < c.commands.kill_commands@.len() implies (
        #[trigger] c.commands.kill_commands@[i])@.len() > 0 && plain_path(
            c.commands.kill_commands@[i]@[0]@,
        ) by {
            assert(commands[i].len() > 0 && plain_path(commands[i][0]));
        }
    }
}

/// What a configuration is where nothing was said: USB, Thunderbolt and SD cards are
/// watched and nothing else, nothing is whitelisted, removed or run, the discs are
/// synced, and every policy only monitors.
pub proof fn what_the_defaults_are(c: Config)
    requires
        c.is_default(),
    ensures
        c.general.sleep_ms == 250 && c.general.log_file@ == "/var/log/plugkill/plugkill.log"@,
        !c.general.dry_run && !c.general.require_auth,
        c.general.watch_usb && c.general.watch_thunderbolt && c.general.watch_sdcard,
        !c.general.watch_power && !c.general.watch_network && !c.general.watch_lid,
        !c.general.watch_pci && !c.general.watch_display,
        c.whitelist.devices@.len() == 0 && c.thunderbolt_whitelist.devices@.len() == 0,
        c.sdcard_whitelist.devices@.len() == 0,
        c.destruction.files_to_remove@.len() == 0 && c.destruction.folders_to_remove@.len() == 0,
        !c.destruction.melt_self && c.destruction.do_sync && !c.destruction.do_wipe_swap,
        c.destruction.swap_device is None && c.commands.kill_commands@.len() == 0,
        c.power.policy is Monitor && c.power.grace_secs == 0 && !c.power.require_locked,
        c.network.policy is Monitor && c.network.grace_secs == 0 && c.network.interfaces@.len() == 0,
        c.lid.policy is Monitor && c.lid.grace_secs == 0,
        c.pci.policy is Monitor && c.pci.ignore@.len() == 0,
        c.display.policy is Monitor && c.display.ignore@.len() == 0,
        c.complaint() is None,
        c.in_range() == c,
{
    a_config_is_accepted_exactly_when(c);
    let path = c.general.log_file@;
    reveal_strlit("/var/log/plugkill/plugkill.log");
    assert(path[0] == '/');
    assert(plain_path(path)) by {
        if !plain_path(path) {
            let i = choose|i: int|
                0 <= i < fields(path, '/').len() && #[trigger] fields(path, '/')[i] == seq!['.', '.'];
            let f = fields(path, '/');
            crate::text::fields_join_again(path, '/');
            two_dots_show(f, i);
            let k = choose|k: int| 0 <= k < path.len() - 1 && path[k] == '.' && #[trigger] path[k + 1] == '.';
        }
    }
}

/// A part that is two dots shows as two dots in a row.
proof fn two_dots_show(f: Seq<Seq<char>>, i: int)
    requires
        0 <= i < f.len(),
        f[i] == seq!['.', '.'],
    ensures
        exists|k: int|
            0 <= k < crate::text::joined(f, seq!['/']).len() - 1 && crate::text::joined(f, seq!['/'])[k]
                == '.' && #[trigger] crate::text::joined(f, seq!['/'])[k + 1] == '.',
    decreases f.len(),
{
    let all = crate::text::joined(f, seq!['/']);
    let front = f.drop_last();
    if f.len() == 1 {
        let at: int = 0;
        assert(all[at] == '.' && all[at + 1] == '.');
    } else {
        let before = crate::text::joined(front, seq!['/']);
        assert(all == before + seq!['/'] + f.last());
        if i == f.len() - 1 {
            let at = before.len() as int + 1;
            assert(all[at] == '.' && all[at + 1] == '.');
        } else {
            assert(front[i] == f[i]);
            two_dots_show(front, i);
            let k = choose|k: int|
                0 <= k < before.len() - 1 && before[k] == '.' && #[trigger] before[k + 1] == '.';
            assert(all[k] == before[k] && all[k + 1] == before[k + 1]);
        }
    }
}

/// Configurations hold the same values exactly where every setting does, lists item by
/// item and texts by their characters.
pub proof fn the_same_means_every_setting(a: Config, b: Config)
    requires
        a.same(b),
    ensures
        a.general.sleep_ms == b.general.sleep_ms && a.general.log_file@ == b.general.log_file@,
        a.general.dry_run == b.general.dry_run && a.general.require_auth == b.general.require_auth,
        a.general.watch_usb == b.general.watch_usb && a.general.watch_thunderbolt
            == b.general.watch_thunderbolt && a.general.watch_sdcard == b.general.watch_sdcard,
        a.general.watch_power == b.general.watch_power && a.general.watch_network
            == b.general.watch_network && a.general.watch_lid == b.general.watch_lid,
        a.general.watch_pci == b.general.watch_pci && a.general.watch_display
            == b.general.watch_display,
        a.destruction.melt_self == b.destruction.melt_self && a.destruction.do_sync
            == b.destruction.do_sync && a.destruction.do_wipe_swap == b.destruction.do_wipe_swap,
        views(a.destruction.files_to_remove@) == views(b.destruction.files_to_remove@),
        views(a.destruction.folders_to_remove@) == views(b.destruction.folders_to_remove@),
        a.destruction.swap_device is Some <==> b.destruction.swap_device is Some,
        a.destruction.swap_device matches Some(s) ==> (b.destruction.swap_device matches Some(t) && s@
            == t@),
        a.power == b.power && a.lid == b.lid,
        a.network.policy == b.network.policy && a.network.grace_secs == b.network.grace_secs,
        views(a.network.interfaces@) == views(b.network.interfaces@),
        a.pci.policy == b.pci.policy && views(a.pci.ignore@) == views(b.pci.ignore@),
        a.display.policy == b.display.policy && views(a.display.ignore@) == views(b.display.ignore@),
        a.whitelist.devices@.len() == b.whitelist.devices@.len(),
        a.thunderbolt_whitelist.devices@.len() == b.thunderbolt_whitelist.devices@.len(),
        a.sdcard_whitelist.devices@.len() == b.sdcard_whitelist.devices@.len(),
        a.commands.kill_commands@.len() == b.commands.kill_commands@.len(),
{
    assert(usb_values(a.whitelist.devices@).len() == a.whitelist.devices@.len());
    assert(usb_values(b.whitelist.devices@).len() == b.whitelist.devices@.len());
    assert(thunderbolt_values(a.thunderbolt_whitelist.devices@).len()
        == a.thunderbolt_whitelist.devices@.len());
    assert(thunderbolt_values(b.thunderbolt_whitelist.devices@).len()
        == b.thunderbolt_whitelist.devices@.len());
    assert(card_values(a.sdcard_whitelist.devices@).len() == a.sdcard_whitelist.devices@.len());
    assert(card_values(b.sdcard_whitelist.devices@).len() == b.sdcard_whitelist.devices@.len());
    assert(command_values(a.commands.kill_commands@).len() == a.commands.kill_commands@.len());
    assert(command_values(b.commands.kill_commands@).len() == b.commands.kill_commands@.len());
}

/// The whitelists and commands of configurations that hold the same values are the same,
/// entry by entry.
pub proof fn the_same_lists_entry_by_entry(a: Config, b: Config, i: int, k: int)
    requires
        a.same(b),
        0 <= i,
        0 <= k,
    ensures
        i < a.whitelist.devices@.len() ==> a.whitelist.devices@[i].vendor_id@
            == b.whitelist.devices@[i].vendor_id@ && a.whitelist.devices@[i].product_id@
            == b.whitelist.devices@[i].product_id@ && a.whitelist.devices@[i].count
            == b.whitelist.devices@[i].count,
        i < a.thunderbolt_whitelist.devices@.len() ==> a.thunderbolt_whitelist.devices@[i].unique_id@
            == b.thunderbolt_whitelist.devices@[i].unique_id@,
        i < a.sdcard_whitelist.devices@.len() ==> a.sdcard_whitelist.devices@[i].serial@
            == b.sdcard_whitelist.devices@[i].serial@,
        i < a.commands.kill_commands@.len() && k < a.commands.kill_commands@[i]@.len()
            ==> a.commands.kill_commands@[i]@[k]@ == b.commands.kill_commands@[i]@[k]@,
{
    the_same_means_every_setting(a, b);
    if i < a.whitelist.devices@.len() {
        assert(usb_values(a.whitelist.devices@)[i] == usb_values(b.whitelist.devices@)[i]);
    }
    if i < a.thunderbolt_whitelist.devices@.len() {
        assert(thunderbolt_values(a.thunderbolt_whitelist.devices@)[i] == thunderbolt_values(
            b.thunderbolt_whitelist.devices@,
        )[i]);
    }
    if i < a.sdcard_whitelist.devices@.len() {
        assert(card_values(a.sdcard_whitelist.devices@)[i] == card_values(
            b.sdcard_whitelist.devices@,
        )[i]);
    }
    if i < a.commands.kill_commands@.len() {
        let (x, y) = (a.commands.kill_commands@[i]@, b.commands.kill_commands@[i]@);
        assert(command_values(a.commands.kill_commands@)[i] == views(x));
        assert(command_values(b.commands.kill_commands@)[i] == views(y));
        assert(views(x).len() == x.len() && views(y).len() == y.len());
        if k < x.len() {
            assert(views(x)[k] == views(y)[k]);
        }
    }
}

/// What is said of a path, a USB id or a command that breaks a rule.
pub proof fn a_complaint_names_what_is_wrong(what: Seq<char>, path: Seq<char>, v: Seq<char>, p: Seq<char>, n: u32)
    ensures
        !plain_path(path) ==> path_complaint(what, path) == Some(
            what + ": '"@ + path + "' is not an absolute path without '..'"@,
        ),
        !hex_digits(v) ==> usb_complaint((v, p, n)) == Some(
            "whitelist.devices: vendor_id '"@ + v + "' is not hex"@,
        ),
        hex_digits(v) && !hex_digits(p) ==> usb_complaint((v, p, n)) == Some(
            "whitelist.devices: product_id '"@ + p + "' is not hex"@,
        ),
        command_complaint(Seq::empty()) == Some(
            "commands.kill_commands: a command names no binary"@,
        ),
{
    plain_is_ok(path);
    hex_is_ok(v);
    hex_is_ok(p);
}

} // verus!
