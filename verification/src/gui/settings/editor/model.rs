//! The editor's rules: what it opens on, what it would emit, and the
//! difference between the two. Nothing here writes a file.

use vstd::prelude::*;

use crate::allowances::{read_selector, DeviceKey, DeviceRef};
use crate::config::emit::{nix_config, numbers_fit, to_nix, SettingModel};
use crate::config::file::{config_file, config_prints, emit_complaint, to_toml};
use crate::config::load::{parse, parsed};
use crate::config::round::{
    a_written_config_loads, show_complaint, the_same_values_make_the_same_nix, to_toml_checked,
};
use crate::config::{
    clamping_twice_is_clamping_once, Config, SdCardWhitelistEntry, ThunderboltWhitelistEntry,
    WhitelistEntry,
};
use crate::document::{reads_as, toml_print};
use crate::number::{dec, decimal};
use crate::text::{
    after, before, cat2, cat3, cat4, cat5, chars, join, joined, lines, lines_of,
    same, slice_views, split_once, text, times, times_grows, times_of_none, trim, trimmed,
    views,
};
use crate::usb::usb_text;

verus! {

/// The editor's sections, top to bottom. Each one carries the switches and
/// fields of its config section; the per-bus watch flags live with their bus
/// rather than all together in General, which is where the config keeps them.
pub const SECTIONS: [&'static str; 9] = [
    "General",
    "USB",
    "Thunderbolt",
    "SD card",
    "Power",
    "Network",
    "Lid",
    "PCI",
    "Display",
];

/// Said above both output panes, and in place of the read-only section, when
/// the running config could not be read. The defaults behind them are not the
/// daemon's, and `[commands]` and `[destruction]` emitted empty would erase
/// what root runs.
pub const UNREAD_PREFIX: &'static str =
    "# placeholder: the running config could not be read; [commands] and\n# [destruction] here are NOT the daemon's.\n\n";

/// Said in place of `readonly_text` when the config could not be read.
pub const UNREAD_READONLY: &'static str =
    "Kill commands and shredding: unknown, the config file could not be read.";

/// The config the window opened on, and the line that says where it came
/// from. A config that cannot be read opens on the defaults and says so,
/// rather than showing an empty config as the truth.
#[derive(Debug, PartialEq, Eq)]
pub struct Loaded {
    pub config: Config,
    pub origin: String,
    /// False when the file could not be read or did not parse, and `config`
    /// is therefore the defaults rather than what root is running. Nothing
    /// may then be stated as the daemon's.
    pub read: bool,
}

/// What came of reading the config file.
#[derive(Debug, PartialEq, Eq)]
pub enum ReadFile {
    /// The file could not be read, and why.
    Unreadable(String),
    /// The file is no config, and why.
    Unparsable(String),
    Parsed(Config),
}

/// The line that says where the config on screen came from.
pub open spec fn origin_line(path: Seq<char>, file: ReadFile) -> Seq<char> {
    if path.len() == 0 {
        "No config file: the daemon has not said which one it loaded, so this starts from the defaults."@
    } else {
        match file {
            ReadFile::Unreadable(e) => "Cannot read "@ + path + ": "@ + e@
                + ". Starting from the defaults."@,
            ReadFile::Unparsable(e) => path + " did not parse: "@ + e@
                + ". Starting from the defaults."@,
            ReadFile::Parsed(_) => "Loaded "@ + path + ", the file the daemon is running."@,
        }
    }
}

impl Loaded {
    /// Whether this is what opening on a file gives: its config where there is one,
    /// and else the defaults.
    pub open spec fn opens(self, path: Seq<char>, file: ReadFile) -> bool {
        &&& self.read == (path.len() > 0 && file is Parsed)
        &&& self.read ==> self.config == file->Parsed_0
        &&& !self.read ==> self.config.is_default()
        &&& self.origin@ == origin_line(path, file)
    }
}

/// Open on what came of reading the file. `file` is not looked at where the daemon
/// named none.
pub fn open(path: &str, file: ReadFile) -> (r: Loaded)
    ensures
        r.opens(path@, file),
{
    if path.is_empty() {
        return Loaded {
            config: Config::default(),
            origin:
                "No config file: the daemon has not said which one it loaded, so this starts from the defaults.".to_owned(),
            read: false,
        };
    }
    match file {
        ReadFile::Unreadable(e) => Loaded {
            config: Config::default(),
            origin: cat5("Cannot read ", path, ": ", e.as_str(), ". Starting from the defaults."),
            read: false,
        },
        ReadFile::Unparsable(e) => Loaded {
            config: Config::default(),
            origin: cat4(path, " did not parse: ", e.as_str(), ". Starting from the defaults."),
            read: false,
        },
        ReadFile::Parsed(config) => Loaded {
            config,
            origin: cat3("Loaded ", path, ", the file the daemon is running."),
            read: true,
        },
    }
}

/// Whether this is what came of reading a file: why it could not be read, or what
/// the loader makes of its text.
pub open spec fn read_from(
    file: ReadFile,
    contents: Result<String, String>,
    words: Seq<char>,
) -> bool {
    match contents {
        Err(e) => file == ReadFile::Unreadable(e),
        Ok(text) => match file {
            ReadFile::Unreadable(_) => false,
            ReadFile::Unparsable(e) => parsed(Err::<Config, String>(e), text@, words),
            ReadFile::Parsed(c) => parsed(Ok::<Config, String>(c), text@, words),
        },
    }
}

/// Open on the file the daemon reported in its status. Never fails: anything that
/// goes wrong becomes the origin line, and the defaults take its place. `contents`
/// is the text of the file, or why it could not be read, and is not looked at where
/// the daemon named no file. `words` say what is wrong with the shape of a text that
/// is TOML but no configuration.
pub fn load(path: &str, contents: Result<String, String>, words: &str) -> (r: Loaded)
    ensures
        exists|file: ReadFile| #[trigger]
            read_from(file, contents, words@) && r.opens(path@, file),
{
    let file = match contents {
        Err(e) => ReadFile::Unreadable(e),
        Ok(text) => match parse(text.as_str(), words) {
            Ok(c) => ReadFile::Parsed(c),
            Err(e) => ReadFile::Unparsable(e),
        },
    };
    assert(read_from(file, contents, words@));
    open(path, file)
}

// ---- tables --------------------------------------------------------------

/// One of the lists the editor shows as a table: the three whitelists, and
/// the three ignore lists that work the same way on screen.
#[derive(Debug, Clone, Copy, PartialEq, Eq, Structural)]
pub enum ListKind {
    Usb,
    Thunderbolt,
    SdCard,
    Pci,
    Network,
    Display,
}

/// The entry of a USB device, `<vendor>:<product>`.
pub open spec fn usb_entry(e: WhitelistEntry) -> Seq<char> {
    usb_text((e.vendor_id@, e.product_id@))
}

/// The label of a USB device. It differs from the entry only where it allows
/// more than one of the device.
pub open spec fn usb_label(e: WhitelistEntry) -> Seq<char> {
    if e.count > 1 {
        usb_entry(e) + "  x"@ + dec(e.count as nat)
    } else {
        usb_entry(e)
    }
}

/// The entries of one table, as they are stored.
pub open spec fn entries_of(c: Config, kind: ListKind) -> Seq<Seq<char>> {
    match kind {
        ListKind::Usb => c.whitelist.devices@.map_values(|e: WhitelistEntry| usb_entry(e)),
        ListKind::Thunderbolt => c.thunderbolt_whitelist.devices@.map_values(
            |e: ThunderboltWhitelistEntry| e.unique_id@,
        ),
        ListKind::SdCard => c.sdcard_whitelist.devices@.map_values(
            |e: SdCardWhitelistEntry| e.serial@,
        ),
        ListKind::Pci => views(c.pci.ignore@),
        ListKind::Network => views(c.network.interfaces@),
        ListKind::Display => views(c.display.ignore@),
    }
}

/// The label of the entry at a position of a table.
pub open spec fn label_of(c: Config, kind: ListKind, i: int) -> Seq<char> {
    if kind is Usb {
        usb_label(c.whitelist.devices@[i])
    } else {
        entries_of(c, kind)[i]
    }
}

fn usb_entry_text(e: &WhitelistEntry) -> (r: String)
    ensures
        r@ == usb_entry(*e),
{
    cat3(e.vendor_id.as_str(), ":", e.product_id.as_str())
}

/// The rows of one table: the entry as it is stored, and the label to show.
pub fn list_entries(config: &Config, kind: ListKind) -> (r: Vec<(String, String)>)
    ensures
        r@.len() == entries_of(*config, kind).len(),
        forall|i: int|
            0 <= i < r@.len() ==> (#[trigger] r@[i]).0@ == entries_of(*config, kind)[i] && r@[i].1@
                == label_of(*config, kind, i),
{
    let mut out: Vec<(String, String)> = Vec::new();
    let n: usize = match kind {
        ListKind::Usb => config.whitelist.devices.len(),
        ListKind::Thunderbolt => config.thunderbolt_whitelist.devices.len(),
        ListKind::SdCard => config.sdcard_whitelist.devices.len(),
        ListKind::Pci => config.pci.ignore.len(),
        ListKind::Network => config.network.interfaces.len(),
        ListKind::Display => config.display.ignore.len(),
    };
    let mut i: usize = 0;
    while i < n
        invariant
            i <= n,
            n == entries_of(*config, kind).len(),
            out@.len() == i,
            forall|k: int|
                0 <= k < i ==> (#[trigger] out@[k]).0@ == entries_of(*config, kind)[k]
                    && out@[k].1@ == label_of(*config, kind, k),
        decreases n - i,
    {
        let pair = match kind {
            ListKind::Usb => {
                let e = &config.whitelist.devices[i];
                let entry = usb_entry_text(e);
                let label = if e.count > 1 {
                    cat3(entry.as_str(), "  x", decimal(e.count as u64).as_str())
                } else {
                    entry.clone()
                };
                (entry, label)
            },
            ListKind::Thunderbolt => {
                let s = &config.thunderbolt_whitelist.devices[i].unique_id;
                (s.clone(), s.clone())
            },
            ListKind::SdCard => {
                let s = &config.sdcard_whitelist.devices[i].serial;
                (s.clone(), s.clone())
            },
            ListKind::Pci => {
                let s = &config.pci.ignore[i];
                (s.clone(), s.clone())
            },
            ListKind::Network => {
                let s = &config.network.interfaces[i];
                (s.clone(), s.clone())
            },
            ListKind::Display => {
                let s = &config.display.ignore[i];
                (s.clone(), s.clone())
            },
        };
        out.push(pair);
        i += 1;
    }
    out
}

/// Whether a table lists an entry.
pub fn is_listed(config: &Config, kind: ListKind, entry: &str) -> (r: bool)
    ensures
        r == entries_of(*config, kind).contains(entry@),
{
    let rows = list_entries(config, kind);
    let mut i: usize = 0;
    while i < rows.len()
        invariant
            i <= rows@.len(),
            rows@.len() == entries_of(*config, kind).len(),
            forall|k: int|
                0 <= k < rows@.len() ==> (#[trigger] rows@[k]).0@ == entries_of(*config, kind)[k],
            forall|k: int| 0 <= k < i ==> entries_of(*config, kind)[k] != entry@,
        decreases rows@.len() - i,
    {
        assert(rows@[i as int].0@ == entries_of(*config, kind)[i as int]);
        if same(rows[i].0.as_str(), entry) {
            return true;
        }
        i += 1;
    }
    false
}

/// The string the config stores an entry under, or why it cannot store it. The
/// USB whitelist matches on two fields, so this one shape has to hold.
pub open spec fn stored(kind: ListKind, typed: Seq<char>) -> Result<Seq<char>, Seq<char>> {
    let t = trimmed(typed);
    if t.len() == 0 {
        Err("Type an entry first."@)
    } else if !(kind is Usb) {
        Ok(t)
    } else {
        match read_selector("usb:"@ + t) {
            Ok(DeviceKey::Usb(v, p)) => Ok(usb_text((v, p))),
            _ => Err("'"@ + t + "' is not a vendor:product pair like 1d6b:0002."@),
        }
    }
}

/// The string the config stores an entry under, or why it cannot store it.
pub fn normalise(kind: ListKind, typed: &str) -> (r: Result<String, String>)
    ensures
        match r {
            Ok(s) => stored(kind, typed@) == Ok::<Seq<char>, Seq<char>>(s@),
            Err(e) => stored(kind, typed@) == Err::<Seq<char>, Seq<char>>(e@),
        },
{
    let all = chars(typed);
    let t = trim(all.as_slice());
    if t.len() == 0 {
        return Err("Type an entry first.".to_owned());
    }
    let t = text(t);
    if kind != ListKind::Usb {
        return Ok(t);
    }
    let selector = cat2("usb:", t.as_str());
    if let Ok(DeviceRef::Usb(id)) = DeviceRef::parse(selector.as_str()) {
        return Ok(id.text());
    }
    Err(cat3("'", t.as_str(), "' is not a vendor:product pair like 1d6b:0002."))
}

/// Whether a config is another with one entry added to a table and nothing
/// else changed.
pub open spec fn added(new: Config, old: Config, kind: ListKind, entry: Seq<char>) -> bool {
    match kind {
        ListKind::Usb => {
            &&& new == (Config { whitelist: new.whitelist, ..old })
            &&& new.whitelist.devices@.len() == old.whitelist.devices@.len() + 1
            &&& new.whitelist.devices@.drop_last() == old.whitelist.devices@
            &&& new.whitelist.devices@.last().vendor_id@ == before(entry, ':')
            &&& new.whitelist.devices@.last().product_id@ == after(entry, ':')
            &&& new.whitelist.devices@.last().count == 1
        },
        ListKind::Thunderbolt => {
            &&& new == (Config { thunderbolt_whitelist: new.thunderbolt_whitelist, ..old })
            &&& new.thunderbolt_whitelist.devices@.len() == old.thunderbolt_whitelist.devices@.len()
                + 1
            &&& new.thunderbolt_whitelist.devices@.drop_last() == old.thunderbolt_whitelist.devices@
            &&& new.thunderbolt_whitelist.devices@.last().unique_id@ == entry
        },
        ListKind::SdCard => {
            &&& new == (Config { sdcard_whitelist: new.sdcard_whitelist, ..old })
            &&& new.sdcard_whitelist.devices@.len() == old.sdcard_whitelist.devices@.len() + 1
            &&& new.sdcard_whitelist.devices@.drop_last() == old.sdcard_whitelist.devices@
            &&& new.sdcard_whitelist.devices@.last().serial@ == entry
        },
        ListKind::Pci => {
            &&& new == (Config { pci: new.pci, ..old })
            &&& new.pci.policy == old.pci.policy
            &&& new.pci.ignore@.len() == old.pci.ignore@.len() + 1
            &&& new.pci.ignore@.drop_last() == old.pci.ignore@
            &&& new.pci.ignore@.last()@ == entry
        },
        ListKind::Network => {
            &&& new == (Config { network: new.network, ..old })
            &&& new.network.policy == old.network.policy
            &&& new.network.grace_secs == old.network.grace_secs
            &&& new.network.interfaces@.len() == old.network.interfaces@.len() + 1
            &&& new.network.interfaces@.drop_last() == old.network.interfaces@
            &&& new.network.interfaces@.last()@ == entry
        },
        ListKind::Display => {
            &&& new == (Config { display: new.display, ..old })
            &&& new.display.policy == old.display.policy
            &&& new.display.ignore@.len() == old.display.ignore@.len() + 1
            &&& new.display.ignore@.drop_last() == old.display.ignore@
            &&& new.display.ignore@.last()@ == entry
        },
    }
}

/// Put an entry at the end of its table.
fn append(config: &mut Config, kind: ListKind, entry: &str)
    requires
        kind is Usb ==> entry@.contains(':'),
    ensures
        added(*final(config), *old(config), kind, entry@),
{
    match kind {
        ListKind::Usb => {
            let all = chars(entry);
            let mut vendor_id = String::new();
            let mut product_id = String::new();
            if let Some((v, p)) = split_once(all.as_slice(), ':') {
                vendor_id = text(v);
                product_id = text(p);
            }
            let ghost was = config.whitelist.devices@;
            config.whitelist.devices.push(WhitelistEntry { vendor_id, product_id, count: 1 });
            assert(config.whitelist.devices@.drop_last() =~= was);
        },
        ListKind::Thunderbolt => {
            let ghost was = config.thunderbolt_whitelist.devices@;
            config.thunderbolt_whitelist.devices.push(
                ThunderboltWhitelistEntry { unique_id: entry.to_owned() },
            );
            assert(config.thunderbolt_whitelist.devices@.drop_last() =~= was);
        },
        ListKind::SdCard => {
            let ghost was = config.sdcard_whitelist.devices@;
            config.sdcard_whitelist.devices.push(SdCardWhitelistEntry { serial: entry.to_owned() });
            assert(config.sdcard_whitelist.devices@.drop_last() =~= was);
        },
        ListKind::Pci => {
            let ghost was = config.pci.ignore@;
            config.pci.ignore.push(entry.to_owned());
            assert(config.pci.ignore@.drop_last() =~= was);
        },
        ListKind::Network => {
            let ghost was = config.network.interfaces@;
            config.network.interfaces.push(entry.to_owned());
            assert(config.network.interfaces@.drop_last() =~= was);
        },
        ListKind::Display => {
            let ghost was = config.display.ignore@;
            config.display.ignore.push(entry.to_owned());
            assert(config.display.ignore@.drop_last() =~= was);
        },
    }
}

/// A USB entry holds a colon.
proof fn usb_entries_hold_a_colon(typed: Seq<char>)
    requires
        stored(ListKind::Usb, typed) is Ok,
    ensures
        stored(ListKind::Usb, typed)->Ok_0.contains(':'),
{
    let k = read_selector("usb:"@ + trimmed(typed))->Ok_0;
    let (v, p) = (k->Usb_0, k->Usb_1);
    reveal_strlit(":");
    assert(usb_text((v, p))[v.len() as int] == ':');
}

/// What adding a typed entry does: it is refused where the config cannot store
/// it or already holds it, and goes to the end of its table otherwise.
pub open spec fn adds(
    r: Result<String, String>,
    new: Config,
    old: Config,
    kind: ListKind,
    typed: Seq<char>,
) -> bool {
    match stored(kind, typed) {
        Err(e) => r matches Err(m) && m@ == e && new == old,
        Ok(entry) => if entries_of(old, kind).contains(entry) {
            r matches Err(m) && m@ == entry + " is already listed."@ && new == old
        } else {
            r matches Ok(s) && s@ == entry && added(new, old, kind, entry)
        },
    }
}

/// Add one entry, typed or handed over by another panel. Only the shapes the
/// config cannot store are refused here; everything else is left to the
/// daemon's own loader, which runs before any output is shown.
pub fn list_add(config: &mut Config, kind: ListKind, typed: &str) -> (r: Result<String, String>)
    ensures
        adds(r, *final(config), *old(config), kind, typed@),
{
    let entry = match normalise(kind, typed) {
        Ok(e) => e,
        Err(e) => {
            return Err(e);
        },
    };
    if is_listed(config, kind, entry.as_str()) {
        return Err(cat2(entry.as_str(), " is already listed."));
    }
    proof {
        if kind is Usb {
            usb_entries_hold_a_colon(typed@);
        }
    }
    append(config, kind, entry.as_str());
    Ok(entry)
}

/// The first USB device of an entry, at or after position `i`.
pub open spec fn usb_at(devices: Seq<WhitelistEntry>, entry: Seq<char>, i: int) -> int
    decreases devices.len() - i,
{
    if i >= devices.len() || i < 0 {
        devices.len() as int
    } else if usb_entry(devices[i]) == entry {
        i
    } else {
        usb_at(devices, entry, i + 1)
    }
}

/// The devices with the count of the first of an entry set.
pub open spec fn recounted(devices: Seq<WhitelistEntry>, entry: Seq<char>, n: u32) -> Seq<
    WhitelistEntry,
> {
    let at = usb_at(devices, entry, 0);
    if at < devices.len() {
        devices.update(at, WhitelistEntry { count: n, ..devices[at] })
    } else {
        devices
    }
}

/// The count of the first device of an entry, zero where there is none.
pub open spec fn count_of(devices: Seq<WhitelistEntry>, entry: Seq<char>) -> u32 {
    let at = usb_at(devices, entry, 0);
    if at < devices.len() {
        devices[at].count
    } else {
        0
    }
}

fn find_usb(devices: &[WhitelistEntry], entry: &str) -> (r: usize)
    ensures
        r == usb_at(devices@, entry@, 0),
        r <= devices@.len(),
{
    let mut i: usize = 0;
    while i < devices.len()
        invariant
            i <= devices@.len(),
            usb_at(devices@, entry@, 0) == usb_at(devices@, entry@, i as int),
        decreases devices@.len() - i,
    {
        if same(usb_entry_text(&devices[i]).as_str(), entry) {
            return i;
        }
        i += 1;
    }
    i
}

/// Whether a config is another with the first device of a USB entry counted
/// `n` times, and nothing else changed.
pub open spec fn counts(new: Config, old: Config, entry: Seq<char>, n: u32) -> bool {
    &&& new == (Config { whitelist: new.whitelist, ..old })
    &&& new.whitelist.devices@ == recounted(old.whitelist.devices@, entry, n)
}

/// Set the count of the first device of an entry.
fn set_count(config: &mut Config, entry: &str, n: u32)
    ensures
        counts(*final(config), *old(config), entry@, n),
{
    let at = find_usb(config.whitelist.devices.as_slice(), entry);
    if at < config.whitelist.devices.len() {
        let ghost was = config.whitelist.devices@;
        config.whitelist.devices[at].count = n;
        assert(config.whitelist.devices@ =~= recounted(was, entry@, n));
    }
}

/// The greater of two counts.
pub open spec fn more_of(a: u32, b: u32) -> u32 {
    if a > b {
        a
    } else {
        b
    }
}

/// Whether a config is another with an entry added where it was not listed.
pub open spec fn ensured(new: Config, old: Config, kind: ListKind, entry: Seq<char>) -> bool {
    if entries_of(old, kind).contains(entry) {
        new == old
    } else {
        added(new, old, kind, entry)
    }
}

/// Whether a config is another with a USB entry raised to cover `n` devices.
pub open spec fn raised(new: Config, old: Config, kind: ListKind, entry: Seq<char>, n: u32) -> bool {
    if kind is Usb {
        counts(new, old, entry, more_of(count_of(old.whitelist.devices@, entry), n))
    } else {
        new == old
    }
}

/// What adding an entry for `n` devices does: the entry is there afterwards,
/// added where it was not, and a USB entry covers at least `n`.
pub open spec fn adds_instances(
    r: Result<String, String>,
    new: Config,
    old: Config,
    kind: ListKind,
    typed: Seq<char>,
    n: u32,
) -> bool {
    match stored(kind, typed) {
        Err(e) => r matches Err(m) && m@ == e && new == old,
        Ok(entry) => r matches Ok(s) && s@ == entry && exists|mid: Config| #[trigger]
            ensured(mid, old, kind, entry) && raised(new, mid, kind, entry, n),
    }
}

proof fn instances_added(
    entry: String,
    new: Config,
    mid: Config,
    old: Config,
    kind: ListKind,
    typed: Seq<char>,
    n: u32,
)
    requires
        stored(kind, typed) == Ok::<Seq<char>, Seq<char>>(entry@),
        ensured(mid, old, kind, entry@),
        raised(new, mid, kind, entry@, n),
    ensures
        adds_instances(Ok(entry), new, old, kind, typed, n),
{
    let e = stored(kind, typed)->Ok_0;
    assert(ensured(mid, old, kind, e) && raised(new, mid, kind, e, n));
}

/// Add one entry that stands for `n` devices of the same model, for a hub
/// expansion. An entry the config already holds is not a failure here, it is
/// raised to cover `n` instances: the daemon allows that many by the summed
/// `count`, so without the raise the second device still kills. `list_add`
/// keeps refusing a duplicate, because a person typing one twice means
/// something else.
pub fn list_add_instances(config: &mut Config, kind: ListKind, typed: &str, n: u32) -> (r: Result<
    String,
    String,
>)
    ensures
        adds_instances(r, *final(config), *old(config), kind, typed@, n),
{
    let entry = match normalise(kind, typed) {
        Ok(e) => e,
        Err(e) => {
            return Err(e);
        },
    };
    proof {
        if kind is Usb {
            usb_entries_hold_a_colon(typed@);
        }
    }
    if !is_listed(config, kind, entry.as_str()) {
        append(config, kind, entry.as_str());
    }
    let ghost mid = *config;
    if kind == ListKind::Usb {
        let at = find_usb(config.whitelist.devices.as_slice(), entry.as_str());
        let now: u32 = if at < config.whitelist.devices.len() {
            config.whitelist.devices[at].count
        } else {
            0
        };
        let most: u32 = if now > n {
            now
        } else {
            n
        };
        set_count(config, entry.as_str(), most);
    }
    proof {
        instances_added(entry, *config, mid, *old(config), kind, typed@, n);
    }
    Ok(entry)
}

/// What covering one more device does: a USB entry that is listed is raised by
/// one, never past `present`; everything else is added as it is typed.
pub open spec fn covers_one(
    r: Result<String, String>,
    new: Config,
    old: Config,
    kind: ListKind,
    typed: Seq<char>,
    present: u32,
) -> bool {
    match stored(kind, typed) {
        Err(e) => r matches Err(m) && m@ == e && new == old,
        Ok(entry) => if kind is Usb && entries_of(old, kind).contains(entry) {
            &&& r matches Ok(s) && s@ == entry
            &&& if count_of(old.whitelist.devices@, entry) < present {
                counts(new, old, entry, (count_of(old.whitelist.devices@, entry) + 1) as u32)
            } else {
                new == old
            }
        } else {
            adds(r, new, old, kind, entry)
        },
    }
}

/// Cover one more device of a model, for a row a panel offered because the
/// whitelist does not reach that device yet. A USB entry the config already
/// holds is raised by one instance rather than refused: the daemon allows
/// devices of a model by the entry's summed `count`, so the second receiver only
/// stops being a violation once the entry says two. `present` is how many the
/// daemon lists, and the raise never passes it, so a click cannot authorise a
/// device nobody has plugged in. Every other list matches one device per entry,
/// where a duplicate is the mistake `list_add` calls it.
pub fn list_cover_one(config: &mut Config, kind: ListKind, typed: &str, present: u32) -> (r: Result<
    String,
    String,
>)
    ensures
        covers_one(r, *final(config), *old(config), kind, typed@, present),
{
    let entry = match normalise(kind, typed) {
        Ok(e) => e,
        Err(e) => {
            return Err(e);
        },
    };
    if kind != ListKind::Usb || !is_listed(config, kind, entry.as_str()) {
        return list_add(config, kind, entry.as_str());
    }
    let at = find_usb(config.whitelist.devices.as_slice(), entry.as_str());
    if at < config.whitelist.devices.len() {
        let now = config.whitelist.devices[at].count;
        if now < present {
            set_count(config, entry.as_str(), now + 1);
        }
    } else {
        proof {
            usb_at_finds(config.whitelist.devices@, entry@);
        }
    }
    Ok(entry)
}

/// A USB entry that is listed is found.
proof fn usb_at_finds(devices: Seq<WhitelistEntry>, entry: Seq<char>)
    requires
        devices.map_values(|e: WhitelistEntry| usb_entry(e)).contains(entry),
    ensures
        usb_at(devices, entry, 0) < devices.len(),
{
    let v = devices.map_values(|e: WhitelistEntry| usb_entry(e));
    let k = choose|k: int| 0 <= k < v.len() && v[k] == entry;
    assert(usb_entry(devices[k]) == entry);
    usb_at_until(devices, entry, 0, k);
}

proof fn usb_at_until(devices: Seq<WhitelistEntry>, entry: Seq<char>, i: int, k: int)
    requires
        0 <= i <= k < devices.len(),
        usb_entry(devices[k]) == entry,
    ensures
        i <= usb_at(devices, entry, i) <= k,
    decreases k - i,
{
    if usb_entry(devices[i]) != entry {
        usb_at_until(devices, entry, i + 1, k);
    }
}

// ---- removing ------------------------------------------------------------

/// Every device but those of a USB entry.
pub open spec fn other_usb(entry: Seq<char>) -> spec_fn(WhitelistEntry) -> bool {
    |e: WhitelistEntry| usb_entry(e) != entry
}

/// Every device but that of a Thunderbolt entry.
pub open spec fn other_thunderbolt(entry: Seq<char>) -> spec_fn(ThunderboltWhitelistEntry) -> bool {
    |e: ThunderboltWhitelistEntry| e.unique_id@ != entry
}

/// Every card but that of an entry.
pub open spec fn other_card(entry: Seq<char>) -> spec_fn(SdCardWhitelistEntry) -> bool {
    |e: SdCardWhitelistEntry| e.serial@ != entry
}

/// Every text but one.
pub open spec fn other_text(entry: Seq<char>) -> spec_fn(String) -> bool {
    |s: String| s@ != entry
}

fn drop_texts(list: &mut Vec<String>, entry: &str)
    ensures
        final(list)@ == old(list)@.filter(other_text(entry@)),
{
    let ghost all = list@;
    let ghost keep = other_text(entry@);
    let mut kept: Vec<String> = Vec::new();
    let mut i: usize = 0;
    proof {
        reveal(Seq::filter);
        assert(all.take(0) =~= Seq::<String>::empty());
    }
    while i < list.len()
        invariant
            i <= all.len(),
            all == list@,
            keep == other_text(entry@),
            kept@ == all.take(i as int).filter(keep),
        decreases all.len() - i,
    {
        proof {
            reveal(Seq::filter);
            assert(all.take(i + 1).drop_last() =~= all.take(i as int));
        }
        if !same(list[i].as_str(), entry) {
            kept.push(list[i].clone());
        }
        i += 1;
    }
    assert(all.take(i as int) =~= all);
    *list = kept;
}

fn drop_usb(config: &mut Config, entry: &str)
    ensures
        *final(config) == (Config { whitelist: final(config).whitelist, ..*old(config) }),
        final(config).whitelist.devices@ == old(config).whitelist.devices@.filter(
            other_usb(entry@),
        ),
{
    let ghost all = config.whitelist.devices@;
    let ghost keep = other_usb(entry@);
    let mut was: Vec<WhitelistEntry> = Vec::new();
    std::mem::swap(&mut was, &mut config.whitelist.devices);
    let mut kept: Vec<WhitelistEntry> = Vec::new();
    proof {
        reveal(Seq::filter);
        assert(all.take(0) =~= Seq::<WhitelistEntry>::empty());
    }
    for e in it: was
        invariant
            it.seq() == all,
            keep == other_usb(entry@),
            kept@ == all.take(it.index() as int).filter(keep),
    {
        proof {
            reveal(Seq::filter);
            assert(all.take(it.index() + 1).drop_last() =~= all.take(it.index() as int));
        }
        if !same(usb_entry_text(&e).as_str(), entry) {
            kept.push(e);
        }
    }
    assert(all.take(all.len() as int) =~= all);
    config.whitelist.devices = kept;
}

fn drop_thunderbolt(config: &mut Config, entry: &str)
    ensures
        *final(config) == (Config {
            thunderbolt_whitelist: final(config).thunderbolt_whitelist,
            ..*old(config)
        }),
        final(config).thunderbolt_whitelist.devices@
            == old(config).thunderbolt_whitelist.devices@.filter(
            other_thunderbolt(entry@),
        ),
{
    let ghost all = config.thunderbolt_whitelist.devices@;
    let ghost keep = other_thunderbolt(entry@);
    let mut was: Vec<ThunderboltWhitelistEntry> = Vec::new();
    std::mem::swap(&mut was, &mut config.thunderbolt_whitelist.devices);
    let mut kept: Vec<ThunderboltWhitelistEntry> = Vec::new();
    proof {
        reveal(Seq::filter);
        assert(all.take(0) =~= Seq::<ThunderboltWhitelistEntry>::empty());
    }
    for e in it: was
        invariant
            it.seq() == all,
            keep == other_thunderbolt(entry@),
            kept@ == all.take(it.index() as int).filter(keep),
    {
        proof {
            reveal(Seq::filter);
            assert(all.take(it.index() + 1).drop_last() =~= all.take(it.index() as int));
        }
        if !same(e.unique_id.as_str(), entry) {
            kept.push(e);
        }
    }
    assert(all.take(all.len() as int) =~= all);
    config.thunderbolt_whitelist.devices = kept;
}

fn drop_card(config: &mut Config, entry: &str)
    ensures
        *final(config) == (Config {
            sdcard_whitelist: final(config).sdcard_whitelist,
            ..*old(config)
        }),
        final(config).sdcard_whitelist.devices@ == old(config).sdcard_whitelist.devices@.filter(
            other_card(entry@),
        ),
{
    let ghost all = config.sdcard_whitelist.devices@;
    let ghost keep = other_card(entry@);
    let mut was: Vec<SdCardWhitelistEntry> = Vec::new();
    std::mem::swap(&mut was, &mut config.sdcard_whitelist.devices);
    let mut kept: Vec<SdCardWhitelistEntry> = Vec::new();
    proof {
        reveal(Seq::filter);
        assert(all.take(0) =~= Seq::<SdCardWhitelistEntry>::empty());
    }
    for e in it: was
        invariant
            it.seq() == all,
            keep == other_card(entry@),
            kept@ == all.take(it.index() as int).filter(keep),
    {
        proof {
            reveal(Seq::filter);
            assert(all.take(it.index() + 1).drop_last() =~= all.take(it.index() as int));
        }
        if !same(e.serial.as_str(), entry) {
            kept.push(e);
        }
    }
    assert(all.take(all.len() as int) =~= all);
    config.sdcard_whitelist.devices = kept;
}

/// Whether a config is another without an entry of a table, and with nothing
/// else changed.
pub open spec fn removed(new: Config, old: Config, kind: ListKind, entry: Seq<char>) -> bool {
    match kind {
        ListKind::Usb => {
            &&& new == (Config { whitelist: new.whitelist, ..old })
            &&& new.whitelist.devices@ == old.whitelist.devices@.filter(
                other_usb(entry),
            )
        },
        ListKind::Thunderbolt => {
            &&& new == (Config { thunderbolt_whitelist: new.thunderbolt_whitelist, ..old })
            &&& new.thunderbolt_whitelist.devices@ == old.thunderbolt_whitelist.devices@.filter(
                other_thunderbolt(entry),
            )
        },
        ListKind::SdCard => {
            &&& new == (Config { sdcard_whitelist: new.sdcard_whitelist, ..old })
            &&& new.sdcard_whitelist.devices@ == old.sdcard_whitelist.devices@.filter(
                other_card(entry),
            )
        },
        ListKind::Pci => {
            &&& new == (Config { pci: new.pci, ..old })
            &&& new.pci.policy == old.pci.policy
            &&& new.pci.ignore@ == old.pci.ignore@.filter(other_text(entry))
        },
        ListKind::Network => {
            &&& new == (Config { network: new.network, ..old })
            &&& new.network.policy == old.network.policy
            &&& new.network.grace_secs == old.network.grace_secs
            &&& new.network.interfaces@ == old.network.interfaces@.filter(other_text(entry))
        },
        ListKind::Display => {
            &&& new == (Config { display: new.display, ..old })
            &&& new.display.policy == old.display.policy
            &&& new.display.ignore@ == old.display.ignore@.filter(other_text(entry))
        },
    }
}

/// Drop one entry, by the string `list_entries` stored it under.
pub fn list_remove(config: &mut Config, kind: ListKind, entry: &str)
    ensures
        removed(*final(config), *old(config), kind, entry@),
{
    match kind {
        ListKind::Usb => drop_usb(config, entry),
        ListKind::Thunderbolt => drop_thunderbolt(config, entry),
        ListKind::SdCard => drop_card(config, entry),
        ListKind::Pci => drop_texts(&mut config.pci.ignore, entry),
        ListKind::Network => drop_texts(&mut config.network.interfaces, entry),
        ListKind::Display => drop_texts(&mut config.display.ignore, entry),
    }
}

// ---- selectors -----------------------------------------------------------

/// Which table an identity belongs in, and the entry to put there. The config
/// has no display whitelist: it ignores connectors by name, which is not what a
/// monitor id says.
pub open spec fn entry_for(k: DeviceKey) -> Option<(ListKind, Seq<char>)> {
    match k {
        DeviceKey::Usb(v, p) => Some((ListKind::Usb, usb_text((v, p)))),
        DeviceKey::Thunderbolt(id) => Some((ListKind::Thunderbolt, id)),
        DeviceKey::SdCard(serial) => Some((ListKind::SdCard, serial)),
        DeviceKey::Pci(sel) => Some((ListKind::Pci, sel)),
        DeviceKey::Display(_) => None,
    }
}

/// Split a `<bus>:<identity>` selector, as the devices and violations panels
/// hand it over, into the table it belongs in and the entry to put there.
pub fn selector_entry(selector: &str) -> (r: Result<(ListKind, String), String>)
    ensures
        match read_selector(selector@) {
            Err(e) => r matches Err(m) && m@ == e,
            Ok(k) => match entry_for(k) {
                Some((kind, entry)) => r matches Ok(pair) && pair.0 == kind && pair.1@ == entry,
                None => r matches Err(m) && m@
                    == "A monitor can only be allowed at runtime. The config ignores connectors by name, such as eDP-1."@,
            },
        },
{
    match DeviceRef::parse(selector) {
        Err(e) => Err(e),
        Ok(DeviceRef::Usb(id)) => Ok((ListKind::Usb, id.text())),
        Ok(DeviceRef::Thunderbolt(id)) => Ok((ListKind::Thunderbolt, id.unique_id)),
        Ok(DeviceRef::SdCard(id)) => Ok((ListKind::SdCard, id.serial)),
        Ok(DeviceRef::Pci(sel)) => Ok((ListKind::Pci, sel)),
        Ok(DeviceRef::Display(_)) => Err(
            "A monitor can only be allowed at runtime. The config ignores connectors by name, such as eDP-1.".to_owned(),
        ),
    }
}

/// The bus of a table, none for the two that name no device: a network
/// interface and a display connector are not identities any listing carries.
pub open spec fn bus_of(kind: ListKind) -> Option<Seq<char>> {
    match kind {
        ListKind::Usb => Some("usb"@),
        ListKind::Thunderbolt => Some("thunderbolt"@),
        ListKind::SdCard => Some("sdcard"@),
        ListKind::Pci => Some("pci"@),
        ListKind::Network => None,
        ListKind::Display => None,
    }
}

/// The `<bus>:<identity>` selector one row of a table stands for, the inverse
/// of `selector_entry`, so a row can be looked up in the devices reply.
///
/// Not parsed back: a pci entry may be a prefix of an address, which is how the
/// daemon matches it and not a selector on its own.
pub fn entry_selector(kind: ListKind, entry: &str) -> (r: Option<String>)
    ensures
        match bus_of(kind) {
            Some(bus) => r matches Some(s) && s@ == bus + ":"@ + entry@,
            None => r is None,
        },
{
    match kind {
        ListKind::Usb => Some(cat3("usb", ":", entry)),
        ListKind::Thunderbolt => Some(cat3("thunderbolt", ":", entry)),
        ListKind::SdCard => Some(cat3("sdcard", ":", entry)),
        ListKind::Pci => Some(cat3("pci", ":", entry)),
        ListKind::Network => None,
        ListKind::Display => None,
    }
}

/// The row of an identity names the selector it came from.
pub proof fn a_row_names_its_selector(k: DeviceKey)
    requires
        entry_for(k) is Some,
    ensures
        match entry_for(k) {
            Some((kind, entry)) => bus_of(kind) matches Some(bus) && bus + ":"@ + entry
                == k.text(),
            None => false,
        },
{
}

/// Identities repeated `n` times.
pub open spec fn repeated(s: Seq<char>, n: nat) -> Seq<Seq<char>> {
    Seq::new(n, |i: int| s)
}

/// The USB whitelist as selectors, one for every device an entry stands for.
pub open spec fn usb_selectors(devices: Seq<WhitelistEntry>) -> Seq<Seq<char>>
    decreases devices.len(),
{
    if devices.len() == 0 {
        Seq::empty()
    } else {
        usb_selectors(devices.drop_last()) + repeated(
            "usb"@ + ":"@ + usb_entry(devices.last()),
            devices.last().count as nat,
        )
    }
}

/// The entries of a table as selectors.
pub open spec fn table_selectors(c: Config, kind: ListKind) -> Seq<Seq<char>> {
    entries_of(c, kind).map_values(|e: Seq<char>| bus_of(kind)->0 + ":"@ + e)
}

fn push_table(out: &mut Vec<String>, config: &Config, kind: ListKind)
    requires
        bus_of(kind) is Some,
    ensures
        views(final(out)@) == views(old(out)@) + table_selectors(*config, kind),
{
    let ghost start = views(out@);
    let rows = list_entries(config, kind);
    let ghost all = table_selectors(*config, kind);
    let mut i: usize = 0;
    assert(views(out@) =~= start + all.take(0));
    while i < rows.len()
        invariant
            i <= rows@.len(),
            bus_of(kind) is Some,
            rows@.len() == entries_of(*config, kind).len(),
            forall|k: int|
                0 <= k < rows@.len() ==> (#[trigger] rows@[k]).0@ == entries_of(*config, kind)[k],
            all == table_selectors(*config, kind),
            views(out@) == start + all.take(i as int),
        decreases rows@.len() - i,
    {
        let ghost sofar = out@;
        assert(rows@[i as int].0@ == entries_of(*config, kind)[i as int]);
        if let Some(s) = entry_selector(kind, rows[i].0.as_str()) {
            out.push(s);
            assert(views(out@) =~= views(sofar).push(s@));
            assert(s@ == all[i as int]);
            assert(views(out@) =~= start + all.take(i + 1));
        }
        i += 1;
    }
    assert(all.take(i as int) =~= all);
}

/// The whitelists and ignore lists as `<bus>:<identity>` selectors, for the
/// devices panel to mark what is already covered. The ids are emitted exactly
/// as the config holds them: the daemon matches them verbatim too, so
/// normalising here would report a dead entry as covering a device.
/// A USB entry stands for `count` devices, so it is repeated that many times:
/// the daemon allows the summed count, so a second device of one model is
/// covered only by an entry that says two.
pub fn selectors(config: &Config) -> (r: Vec<String>)
    ensures
        views(r@) == usb_selectors(config.whitelist.devices@) + table_selectors(
            *config,
            ListKind::Thunderbolt,
        ) + table_selectors(*config, ListKind::SdCard) + table_selectors(*config, ListKind::Pci),
{
    let mut out: Vec<String> = Vec::new();
    let ghost devices = config.whitelist.devices@;
    let mut i: usize = 0;
    proof {
        assert(devices.take(0) =~= Seq::<WhitelistEntry>::empty());
        assert(views(out@) =~= Seq::<Seq<char>>::empty());
    }
    while i < config.whitelist.devices.len()
        invariant
            i <= devices.len(),
            devices == config.whitelist.devices@,
            views(out@) == usb_selectors(devices.take(i as int)),
        decreases devices.len() - i,
    {
        let e = &config.whitelist.devices[i];
        assert(devices.take(i + 1).drop_last() =~= devices.take(i as int));
        let ghost start = views(out@);
        let selector = cat3("usb", ":", usb_entry_text(e).as_str());
        let mut k: u32 = 0;
        assert(views(out@) =~= start + repeated(selector@, 0));
        while k < e.count
            invariant
                k <= e.count,
                views(out@) == start + repeated(selector@, k as nat),
            decreases e.count - k,
        {
            let ghost sofar = out@;
            out.push(selector.clone());
            assert(views(out@) =~= views(sofar).push(selector@));
            assert(views(out@) =~= start + repeated(selector@, (k + 1) as nat));
            k += 1;
        }
        i += 1;
    }
    assert(devices.take(i as int) =~= devices);
    push_table(&mut out, config, ListKind::Thunderbolt);
    push_table(&mut out, config, ListKind::SdCard);
    push_table(&mut out, config, ListKind::Pci);
    out
}

// ---- the difference ------------------------------------------------------

/// One line of the side by side view, marked when the other side has no such
/// line.
#[derive(Debug, PartialEq, Eq)]
pub struct Line {
    pub text: String,
    pub changed: bool,
}

/// Whether the other side has a line like the one at a position that is still
/// unspoken for: it holds the line more often than this side does before it.
pub open spec fn matched(side: Seq<Seq<char>>, other: Seq<Seq<char>>, i: int) -> bool {
    times(side.take(i), side[i]) < times(other, side[i])
}

/// Whether these lines are one side, marked against the other.
pub open spec fn marked(r: Seq<Line>, side: Seq<Seq<char>>, other: Seq<Seq<char>>) -> bool {
    &&& r.len() == side.len()
    &&& forall|i: int|
        0 <= i < r.len() ==> (#[trigger] r[i]).text@ == side[i] && r[i].changed == !matched(
            side,
            other,
            i,
        )
}

fn count_lines(ls: &Vec<&[char]>, n: usize, line: &[char]) -> (r: usize)
    requires
        n <= ls@.len(),
    ensures
        r == times(slice_views(ls@).take(n as int), line@),
{
    let ghost lv = slice_views(ls@);
    let mut c: usize = 0;
    let mut i: usize = 0;
    assert(lv.take(0) =~= Seq::<Seq<char>>::empty());
    while i < n
        invariant
            i <= n,
            n <= ls@.len(),
            lv == slice_views(ls@),
            c <= i,
            c == times(lv.take(i as int), line@),
        decreases n - i,
    {
        assert(lv.take(i + 1).drop_last() =~= lv.take(i as int));
        assert(lv[i as int] == ls@[i as int]@);
        if crate::text::same_chars(ls[i], line) {
            c += 1;
        }
        i += 1;
    }
    c
}

fn mark(side: &Vec<&[char]>, other: &Vec<&[char]>) -> (r: Vec<Line>)
    ensures
        marked(r@, slice_views(side@), slice_views(other@)),
{
    let ghost sv = slice_views(side@);
    let ghost ov = slice_views(other@);
    let mut out: Vec<Line> = Vec::new();
    let mut i: usize = 0;
    while i < side.len()
        invariant
            i <= side@.len(),
            sv == slice_views(side@),
            ov == slice_views(other@),
            out@.len() == i,
            forall|k: int|
                0 <= k < i ==> (#[trigger] out@[k]).text@ == sv[k] && out@[k].changed == !matched(
                    sv,
                    ov,
                    k,
                ),
        decreases side@.len() - i,
    {
        assert(sv[i as int] == side@[i as int]@);
        assert(ov.take(other@.len() as int) =~= ov);
        let here = count_lines(side, i, side[i]);
        let there = count_lines(other, other.len(), side[i]);
        out.push(Line { text: text(side[i]), changed: !(here < there) });
        i += 1;
    }
    out
}

/// A plain line by line comparison: a line is marked unless the other side
/// has one like it still unspoken for. Both sides come out of the same
/// emitter, so only an edit can make a line differ.
pub fn diff(left: &str, right: &str) -> (r: (Vec<Line>, Vec<Line>))
    ensures
        match r {
            (l, e) => marked(l@, lines_of(left@), lines_of(right@)) && marked(
                e@,
                lines_of(right@),
                lines_of(left@),
            ),
        },
{
    let l = chars(left);
    let r = chars(right);
    let ll = lines(l.as_slice());
    let rl = lines(r.as_slice());
    (mark(&ll, &rl), mark(&rl, &ll))
}

/// Two texts with the same lines mark nothing.
pub proof fn the_same_text_marks_nothing(side: Seq<Seq<char>>, i: int)
    requires
        0 <= i < side.len(),
    ensures
        matched(side, side, i),
{
    times_grows(side, side[i], i + 1);
    assert(side.take(i + 1).drop_last() =~= side.take(i));
    assert(side.take(i + 1).last() == side[i]);
}

/// A line that the other side does not hold at all is marked.
pub proof fn a_new_line_is_marked(side: Seq<Seq<char>>, other: Seq<Seq<char>>, i: int)
    requires
        0 <= i < side.len(),
        !other.contains(side[i]),
    ensures
        !matched(side, other, i),
{
    times_of_none(other, side[i]);
}

// ---- the output pane -----------------------------------------------------

/// What the output pane shows. On `error` nothing else is filled: a config the
/// daemon would reject is never offered as output.
#[derive(Debug, PartialEq, Eq)]
pub struct Output {
    pub toml: String,
    pub nix: String,
    pub loaded_lines: Vec<Line>,
    pub emitted_lines: Vec<Line>,
    /// Values the daemon would silently clamp, as "field: was becomes is".
    pub clamped: Vec<String>,
    pub error: Option<String>,
}

/// Whether an output shows an error and nothing else.
pub open spec fn only_error(o: Output, e: Seq<char>) -> bool {
    &&& o.error matches Some(m) && m@ == e
    &&& o.toml@.len() == 0 && o.nix@.len() == 0
    &&& o.loaded_lines@.len() == 0 && o.emitted_lines@.len() == 0 && o.clamped@.len() == 0
}

fn failed(e: String) -> (r: Output)
    ensures
        only_error(r, e@),
{
    Output {
        toml: String::new(),
        nix: String::new(),
        loaded_lines: Vec::new(),
        emitted_lines: Vec::new(),
        clamped: Vec::new(),
        error: Some(e),
    }
}

/// One value that was moved, where it was.
pub open spec fn moved(field: Seq<char>, was: u64, is: u64) -> Seq<Seq<char>> {
    if was != is {
        seq![field + ": "@ + dec(was as nat) + " becomes "@ + dec(is as nat)]
    } else {
        Seq::empty()
    }
}

/// The values the loader moved into range on its way past. Every clamp the
/// daemon does is on one of these four.
pub open spec fn moved_values(old: Config, new: Config) -> Seq<Seq<char>> {
    Seq::<Seq<char>>::empty() + moved(
        "general.sleep_ms"@,
        old.general.sleep_ms,
        new.general.sleep_ms,
    ) + moved("power.grace_secs"@, old.power.grace_secs, new.power.grace_secs) + moved(
        "network.grace_secs"@,
        old.network.grace_secs,
        new.network.grace_secs,
    ) + moved("lid.grace_secs"@, old.lid.grace_secs, new.lid.grace_secs)
}

fn push_moved(out: &mut Vec<String>, field: &str, was: u64, is: u64)
    ensures
        views(final(out)@) == views(old(out)@) + moved(field@, was, is),
{
    let ghost start = out@;
    if was != is {
        let line = cat5(
            field,
            ": ",
            decimal(was).as_str(),
            " becomes ",
            decimal(is).as_str(),
        );
        out.push(line);
        assert(views(out@) =~= views(start) + seq![line@]);
    } else {
        assert(views(out@) =~= views(start) + Seq::<Seq<char>>::empty());
    }
}

/// The values the loader moved into range on its way past.
pub fn clamped(edited: &Config, checked: &Config) -> (r: Vec<String>)
    ensures
        views(r@) == moved_values(*edited, *checked),
{
    let mut out: Vec<String> = Vec::new();
    assert(views(out@) =~= Seq::<Seq<char>>::empty());
    push_moved(&mut out, "general.sleep_ms", edited.general.sleep_ms, checked.general.sleep_ms);
    push_moved(&mut out, "power.grace_secs", edited.power.grace_secs, checked.power.grace_secs);
    push_moved(
        &mut out,
        "network.grace_secs",
        edited.network.grace_secs,
        checked.network.grace_secs,
    );
    push_moved(&mut out, "lid.grace_secs", edited.lid.grace_secs, checked.lid.grace_secs);
    out
}

/// The output pane from one edited config and what came of emitting it as TOML and
/// reading that back with the daemon's loader: the TOML of what came back, and what
/// came back, or why there is none. Both panes are made from what came back. `was`
/// is the TOML of the config the window loaded.
pub fn compose(
    edited: &Config,
    emitted: Result<(String, Config), String>,
    was: &str,
) -> (r: Output)
    ensures
        match emitted {
            Err(e) => only_error(r, e@),
            Ok((toml, checked)) => if !numbers_fit(checked) {
                only_error(r, "failed to emit config as Nix: u64 value was too large"@)
            } else {
                &&& r.error is None
                &&& r.toml == toml
                &&& r.nix@ == nix_config(checked)
                &&& marked(r.loaded_lines@, lines_of(was@), lines_of(toml@))
                &&& marked(r.emitted_lines@, lines_of(toml@), lines_of(was@))
                &&& views(r.clamped@) == moved_values(*edited, checked)
            },
        },
{
    let (toml, checked) = match emitted {
        Ok(pair) => pair,
        Err(e) => {
            return failed(e);
        },
    };
    let nix = match to_nix(&checked) {
        Ok(s) => s,
        Err(e) => {
            return failed(e);
        },
    };
    let (loaded_lines, emitted_lines) = diff(was, toml.as_str());
    let moved = clamped(edited, &checked);
    Output { toml, nix, loaded_lines, emitted_lines, clamped: moved, error: None }
}

/// The TOML of a config, nothing where it cannot be emitted.
pub open spec fn emitted_or_nothing(c: Config) -> Seq<char> {
    if emit_complaint(c) is None {
        toml_print(SettingModel::Table(config_file(c)))->Ok_0
    } else {
        Seq::empty()
    }
}

/// The whole output pane from one in-memory config. The TOML is parsed back with
/// the daemon's loader first, and both panes are emitted from what came back, so
/// what is shown is what the daemon would actually run.
pub fn build(loaded: &Config, edited: &Config) -> (r: Output)
    requires
        config_prints(*loaded),
        config_prints(*edited),
    ensures
        match show_complaint(*edited) {
            Some(e) => only_error(r, e),
            None => {
                let was = emitted_or_nothing(*loaded);
                let run = edited.in_range();
                &&& r.error is None
                &&& r.toml@ == emitted_or_nothing(run)
                &&& reads_as(r.toml@, SettingModel::Table(config_file(run)))
                &&& r.nix@ == nix_config(run)
                &&& marked(r.loaded_lines@, lines_of(was), lines_of(r.toml@))
                &&& marked(r.emitted_lines@, lines_of(r.toml@), lines_of(was))
                &&& views(r.clamped@) == moved_values(*edited, run)
            },
        },
{
    let emitted = to_toml_checked(edited);
    let was = match to_toml(loaded) {
        Ok(t) => t,
        Err(_) => String::new(),
    };
    proof {
        reveal_strlit("");
        assert(was@ =~= emitted_or_nothing(*loaded));
        if emitted is Ok {
            the_same_values_make_the_same_nix(emitted->Ok_0.1, edited.in_range());
        }
    }
    compose(edited, emitted, was.as_str())
}

/// Whatever TOML the pane shows, the daemon takes it for the edited config with its
/// values in range.
pub proof fn what_is_shown_is_what_runs(
    edited: Config,
    shown: Seq<char>,
    r: Result<Config, String>,
    words: Seq<char>,
)
    requires
        show_complaint(edited) is None,
        reads_as(shown, SettingModel::Table(config_file(edited.in_range()))),
        parsed(r, shown, words),
    ensures
        r matches Ok(d) && d.same(edited.in_range()),
{
    a_written_config_loads(edited.in_range(), shown, r, words);
    clamping_twice_is_clamping_once(edited);
}

/// What a pane holds: nothing where there is nothing to show, and the warning in
/// front where the running config could not be read.
pub fn pane_text(shown: &str, read: bool) -> (r: String)
    ensures
        r@ == if shown@.len() == 0 || read {
            shown@
        } else {
            UNREAD_PREFIX@ + shown@
        },
{
    if shown.is_empty() || read {
        shown.to_owned()
    } else {
        cat2(UNREAD_PREFIX, shown)
    }
}

// ---- what root edits -----------------------------------------------------

/// "yes" or "no".
pub open spec fn yes_or_no(v: bool) -> Seq<char> {
    if v {
        "yes"@
    } else {
        "no"@
    }
}

fn yes_no(v: bool) -> (r: &'static str)
    ensures
        r@ == yes_or_no(v),
{
    if v {
        "yes"
    } else {
        "no"
    }
}

/// Paths with commas between them, "none" of none.
pub open spec fn path_list(paths: Seq<Seq<char>>) -> Seq<char> {
    if paths.len() == 0 {
        "none"@
    } else {
        joined(paths, ", "@)
    }
}

fn path_text(paths: &[String]) -> (r: String)
    ensures
        r@ == path_list(views(paths@)),
{
    assert(views(paths@).len() == paths@.len());
    if paths.len() == 0 {
        "none".to_owned()
    } else {
        join(paths, ", ")
    }
}

/// The kill commands, one on a line.
pub open spec fn command_lines(commands: Seq<Vec<String>>) -> Seq<char>
    decreases commands.len(),
{
    if commands.len() == 0 {
        Seq::empty()
    } else {
        command_lines(commands.drop_last()) + ("  "@ + joined(views(commands.last()@), " "@)
            + "\n"@)
    }
}

/// What is said about the kill commands.
pub open spec fn commands_text(commands: Seq<Vec<String>>) -> Seq<char> {
    if commands.len() == 0 {
        "Kill commands: none set, so the daemon uses its built-in poweroff.\n"@
    } else {
        "Kill commands:\n"@ + command_lines(commands)
    }
}

/// What is said about the swap.
pub open spec fn swap_text(device: Option<String>) -> Seq<char> {
    match device {
        Some(s) => " ("@ + s@ + ")"@,
        None => Seq::empty(),
    }
}

/// `[commands]` and `[destruction]` in words.
pub open spec fn readonly(c: Config) -> Seq<char> {
    let d = c.destruction;
    commands_text(c.commands.kill_commands@) + "Files shredded: "@ + path_list(
        views(d.files_to_remove@),
    ) + "\n"@ + "Folders shredded: "@ + path_list(views(d.folders_to_remove@)) + "\n"@
        + "Melt self: "@ + yes_or_no(d.melt_self) + ". Sync first: "@ + yes_or_no(d.do_sync)
        + ". Wipe swap: "@ + yes_or_no(d.do_wipe_swap) + swap_text(d.swap_device)
}

fn commands_words(commands: &Vec<Vec<String>>) -> (r: String)
    ensures
        r@ == commands_text(commands@),
{
    if commands.len() == 0 {
        return "Kill commands: none set, so the daemon uses its built-in poweroff.\n".to_owned();
    }
    let mut out = "Kill commands:\n".to_owned();
    let ghost head = out@;
    let mut i: usize = 0;
    proof {
        assert(commands@.take(0) =~= Seq::<Vec<String>>::empty());
        assert(head + Seq::<char>::empty() =~= head);
    }
    while i < commands.len()
        invariant
            i <= commands@.len(),
            out@ == head + command_lines(commands@.take(i as int)),
        decreases commands@.len() - i,
    {
        assert(commands@.take(i + 1).drop_last() =~= commands@.take(i as int));
        let line = cat3("  ", join(commands[i].as_slice(), " ").as_str(), "\n");
        let ghost sofar = command_lines(commands@.take(i as int));
        out.push_str(line.as_str());
        assert(out@ =~= head + (sofar + line@));
        i += 1;
    }
    assert(commands@.take(i as int) =~= commands@);
    out
}

/// `[commands]` and `[destruction]` as text, for the read-only section. They
/// come from the loaded config, because nothing on screen can change them.
pub fn readonly_text(config: &Config) -> (r: String)
    ensures
        r@ == readonly(*config),
{
    let d = &config.destruction;
    let mut out = commands_words(&config.commands.kill_commands);
    out.push_str("Files shredded: ");
    out.push_str(path_text(d.files_to_remove.as_slice()).as_str());
    out.push_str("\n");
    out.push_str("Folders shredded: ");
    out.push_str(path_text(d.folders_to_remove.as_slice()).as_str());
    out.push_str("\n");
    out.push_str("Melt self: ");
    out.push_str(yes_no(d.melt_self));
    out.push_str(". Sync first: ");
    out.push_str(yes_no(d.do_sync));
    out.push_str(". Wipe swap: ");
    out.push_str(yes_no(d.do_wipe_swap));
    match &d.swap_device {
        Some(s) => {
            let swap = cat3(" (", s.as_str(), ")");
            out.push_str(swap.as_str());
        },
        None => {
            assert(out@ + Seq::<char>::empty() =~= out@);
        },
    }
    out
}

/// What the read-only section says: nothing is stated as the daemon's where its
/// config could not be read.
pub fn readonly_section(loaded: &Loaded) -> (r: String)
    ensures
        r@ == if loaded.read {
            readonly(loaded.config)
        } else {
            UNREAD_READONLY@
        },
{
    if loaded.read {
        readonly_text(&loaded.config)
    } else {
        UNREAD_READONLY.to_owned()
    }
}

// ---- what holds of the tables --------------------------------------------

/// An entry that was added is listed, behind those that were listed before.
pub proof fn an_added_entry_is_listed(new: Config, old: Config, kind: ListKind, entry: Seq<char>)
    requires
        added(new, old, kind, entry),
        kind is Usb ==> entry.contains(':'),
    ensures
        entries_of(new, kind) == entries_of(old, kind).push(entry),
{
    match kind {
        ListKind::Usb => {
            crate::text::rejoin(entry, ':');
            reveal_strlit(":");
            assert(":"@ =~= seq![':']);
            let d = new.whitelist.devices@;
            assert(usb_entry(d.last()) =~= entry);
            assert(d =~= d.drop_last().push(d.last()));
        },
        ListKind::Thunderbolt => {
            let d = new.thunderbolt_whitelist.devices@;
            assert(d =~= d.drop_last().push(d.last()));
        },
        ListKind::SdCard => {
            let d = new.sdcard_whitelist.devices@;
            assert(d =~= d.drop_last().push(d.last()));
        },
        ListKind::Pci => {
            let d = new.pci.ignore@;
            assert(d =~= d.drop_last().push(d.last()));
        },
        ListKind::Network => {
            let d = new.network.interfaces@;
            assert(d =~= d.drop_last().push(d.last()));
        },
        ListKind::Display => {
            let d = new.display.ignore@;
            assert(d =~= d.drop_last().push(d.last()));
        },
    }
    assert(entries_of(new, kind) =~= entries_of(old, kind).push(entry));
}

/// Filtering a list for what is all there leaves it.
proof fn filter_of_all<T>(s: Seq<T>, p: spec_fn(T) -> bool)
    requires
        forall|i: int| 0 <= i < s.len() ==> p(#[trigger] s[i]),
    ensures
        s.filter(p) == s,
    decreases s.len(),
{
    reveal(Seq::filter);
    if s.len() > 0 {
        filter_of_all(s.drop_last(), p);
        assert(s.drop_last().push(s.last()) =~= s);
    } else {
        assert(s.filter(p) =~= s);
    }
}

/// Filtering a list whose last item alone does not belong leaves the rest.
proof fn filter_of_all_but_last<T>(s: Seq<T>, p: spec_fn(T) -> bool)
    requires
        s.len() > 0,
        !p(s.last()),
        forall|i: int| 0 <= i < s.len() - 1 ==> p(#[trigger] s[i]),
    ensures
        s.filter(p) == s.drop_last(),
{
    reveal(Seq::filter);
    assert forall|i: int| 0 <= i < s.drop_last().len() implies p(#[trigger] s.drop_last()[i]) by {
        assert(s.drop_last()[i] == s[i]);
    }
    filter_of_all(s.drop_last(), p);
}

/// Removing an entry that was just added gives back every table as it was.
pub proof fn removing_undoes_adding(
    start: Config,
    mid: Config,
    end: Config,
    kind: ListKind,
    entry: Seq<char>,
    other: ListKind,
)
    requires
        !entries_of(start, kind).contains(entry),
        added(mid, start, kind, entry),
        removed(end, mid, kind, entry),
        kind is Usb ==> entry.contains(':'),
    ensures
        entries_of(end, other) == entries_of(start, other),
        end.general == start.general,
        end.power == start.power,
        end.lid == start.lid,
        end.commands == start.commands,
        end.destruction == start.destruction,
{
    an_added_entry_is_listed(mid, start, kind, entry);
    let e0 = entries_of(start, kind);
    let e1 = entries_of(mid, kind);
    assert(e1.last() == entry);
    assert forall|i: int| 0 <= i < e0.len() implies e1[i] == e0[i] && e0[i] != entry by {
        assert(e0.contains(e0[i]));
    }
    match kind {
        ListKind::Usb => {
            let d = mid.whitelist.devices@;
            let p = other_usb(entry);
            assert(e1[d.len() - 1] == usb_entry(d.last()));
            assert forall|i: int| 0 <= i < d.len() - 1 implies p(#[trigger] d[i]) by {
                assert(e1[i] == usb_entry(d[i]));
                assert(e1[i] == e0[i]);
            }
            filter_of_all_but_last(d, p);
            assert(end.whitelist.devices@ == d.filter(p));
            assert(end.whitelist.devices@ == start.whitelist.devices@);
        },
        ListKind::Thunderbolt => {
            let d = mid.thunderbolt_whitelist.devices@;
            let p = other_thunderbolt(entry);
            assert forall|i: int| 0 <= i < d.len() - 1 implies p(#[trigger] d[i]) by {
                assert(e1[i] == d[i].unique_id@);
                assert(e1[i] == e0[i]);
            }
            filter_of_all_but_last(d, p);
            assert(end.thunderbolt_whitelist.devices@ == d.filter(p));
            assert(end.thunderbolt_whitelist.devices@ == start.thunderbolt_whitelist.devices@);
        },
        ListKind::SdCard => {
            let d = mid.sdcard_whitelist.devices@;
            let p = other_card(entry);
            assert forall|i: int| 0 <= i < d.len() - 1 implies p(#[trigger] d[i]) by {
                assert(e1[i] == d[i].serial@);
                assert(e1[i] == e0[i]);
            }
            filter_of_all_but_last(d, p);
            assert(end.sdcard_whitelist.devices@ == d.filter(p));
            assert(end.sdcard_whitelist.devices@ == start.sdcard_whitelist.devices@);
        },
        ListKind::Pci => {
            let d = mid.pci.ignore@;
            let p = other_text(entry);
            assert forall|i: int| 0 <= i < d.len() - 1 implies p(#[trigger] d[i]) by {
                assert(e1[i] == d[i]@);
                assert(e1[i] == e0[i]);
            }
            filter_of_all_but_last(d, p);
            assert(end.pci.ignore@ == d.filter(p));
            assert(end.pci.ignore@ == start.pci.ignore@);
        },
        ListKind::Network => {
            let d = mid.network.interfaces@;
            let p = other_text(entry);
            assert forall|i: int| 0 <= i < d.len() - 1 implies p(#[trigger] d[i]) by {
                assert(e1[i] == d[i]@);
                assert(e1[i] == e0[i]);
            }
            filter_of_all_but_last(d, p);
            assert(end.network.interfaces@ == d.filter(p));
            assert(end.network.interfaces@ == start.network.interfaces@);
        },
        ListKind::Display => {
            let d = mid.display.ignore@;
            let p = other_text(entry);
            assert forall|i: int| 0 <= i < d.len() - 1 implies p(#[trigger] d[i]) by {
                assert(e1[i] == d[i]@);
                assert(e1[i] == e0[i]);
            }
            filter_of_all_but_last(d, p);
            assert(end.display.ignore@ == d.filter(p));
            assert(end.display.ignore@ == start.display.ignore@);
        },
    }
    assert(entries_of(end, other) =~= entries_of(start, other));
}

/// However often a row is clicked, an entry never comes to cover more devices
/// than are plugged in, unless it did before.
pub proof fn a_click_never_overcounts(
    r: Result<String, String>,
    new: Config,
    old: Config,
    typed: Seq<char>,
    present: u32,
)
    requires
        covers_one(r, new, old, ListKind::Usb, typed, present),
        r is Ok,
        present >= 1,
    ensures
        count_of(new.whitelist.devices@, r->Ok_0@) <= more_of(
            count_of(old.whitelist.devices@, r->Ok_0@),
            present,
        ),
{
    let entry = stored(ListKind::Usb, typed)->Ok_0;
    let od = old.whitelist.devices@;
    let nd = new.whitelist.devices@;
    if entries_of(old, ListKind::Usb).contains(entry) {
        usb_at_finds(od, entry);
        usb_at_bounds(od, entry, 0);
        let at = usb_at(od, entry, 0);
        if count_of(od, entry) < present {
            same_entries(od, nd, entry, 0);
        }
    } else {
        usb_at_bounds(od, r->Ok_0@, 0);
        usb_at_bounds(nd, r->Ok_0@, 0);
        let f = usb_at(nd, r->Ok_0@, 0);
        if f < nd.len() {
            if f < od.len() {
                assert(nd.drop_last()[f] == nd[f]);
                usb_at_until(od, r->Ok_0@, 0, f);
                let g = usb_at(od, r->Ok_0@, 0);
                assert(nd.drop_last()[g] == nd[g]);
                if g < f {
                    usb_at_until(nd, r->Ok_0@, 0, g);
                }
            }
        }
    }
}

proof fn usb_at_bounds(devices: Seq<WhitelistEntry>, entry: Seq<char>, i: int)
    requires
        0 <= i <= devices.len(),
    ensures
        i <= usb_at(devices, entry, i) <= devices.len(),
        usb_at(devices, entry, i) < devices.len() ==> usb_entry(devices[usb_at(devices, entry, i)])
            == entry,
    decreases devices.len() - i,
{
    if i < devices.len() && usb_entry(devices[i]) != entry {
        usb_at_bounds(devices, entry, i + 1);
    }
}

/// Changing counts moves no entry.
proof fn same_entries(a: Seq<WhitelistEntry>, b: Seq<WhitelistEntry>, entry: Seq<char>, i: int)
    requires
        0 <= i,
        a.len() == b.len(),
        forall|k: int| 0 <= k < a.len() ==> usb_entry(#[trigger] a[k]) == usb_entry(b[k]),
    ensures
        usb_at(a, entry, i) == usb_at(b, entry, i),
    decreases a.len() - i,
{
    if i < a.len() {
        assert(usb_entry(a[i]) == usb_entry(b[i]));
        same_entries(a, b, entry, i + 1);
    }
}

// ---- what holds of the lists ---------------------------------------------

/// A typed entry is kept without the white space round it, and nothing is kept of a
/// blank one. For USB it is a vendor and a product of up to four hexadecimal digits,
/// made small, and anything else is refused.
pub proof fn an_entry_is_kept_as_typed(kind: ListKind, typed: Seq<char>)
    ensures
        trimmed(typed).len() == 0 ==> stored(kind, typed) is Err,
        trimmed(typed).len() > 0 && !(kind is Usb) ==> stored(kind, typed) == Ok::<
            Seq<char>,
            Seq<char>,
        >(trimmed(typed)),
{
}

/// A vendor and a product are kept in small letters, with a colon between them.
pub proof fn a_pair_is_kept_in_small_letters(typed: Seq<char>, v: Seq<char>, p: Seq<char>)
    requires
        trimmed(typed) == v + seq![':'] + p,
        !v.contains(':'),
    ensures
        crate::allowances::four_digits_at_most(v) && crate::allowances::four_digits_at_most(p)
            ==> stored(ListKind::Usb, typed) == Ok::<Seq<char>, Seq<char>>(
            crate::text::lower(v) + seq![':'] + crate::text::lower(p),
        ),
        !(crate::allowances::four_digits_at_most(v) && crate::allowances::four_digits_at_most(p))
            ==> stored(ListKind::Usb, typed) is Err,
{
    crate::allowances::a_usb_selector_is_read_so(v, p);
    assert("usb:"@ + trimmed(typed) =~= "usb:"@ + v + seq![':'] + p);
    reveal_strlit(":");
    assert(":"@ =~= seq![':']);
}

/// Adding puts an entry that is not listed at the end of its list, and refuses one that
/// is, with nothing changed.
pub proof fn an_entry_is_added_once(
    r: Result<String, String>,
    new: Config,
    old: Config,
    kind: ListKind,
    typed: Seq<char>,
)
    requires
        adds(r, new, old, kind, typed),
    ensures
        r is Ok ==> stored(kind, typed) == Ok::<Seq<char>, Seq<char>>(r->Ok_0@) && !entries_of(
            old,
            kind,
        ).contains(r->Ok_0@) && entries_of(new, kind) == entries_of(old, kind).push(r->Ok_0@),
        r is Err ==> new == old,
        stored(kind, typed) matches Ok(entry) ==> (r is Err <==> entries_of(old, kind).contains(entry)),
{
    if let Ok(s) = r {
        if kind is Usb {
            usb_entries_hold_a_colon(typed);
        }
        an_added_entry_is_listed(new, old, kind, s@);
    }
}

/// Removing takes an entry out of its list, however often it stood there, and leaves
/// every other entry.
pub proof fn an_entry_is_removed_altogether(
    new: Config,
    old: Config,
    kind: ListKind,
    entry: Seq<char>,
    x: Seq<char>,
)
    requires
        removed(new, old, kind, entry),
    ensures
        entries_of(new, kind).contains(x) <==> entries_of(old, kind).contains(x) && x != entry,
{
    match kind {
        ListKind::Usb => {
            let key = |e: WhitelistEntry| usb_entry(e);
            kept_by_key(old.whitelist.devices@, other_usb(entry), key, x, entry);
        },
        ListKind::Thunderbolt => {
            let key = |e: ThunderboltWhitelistEntry| e.unique_id@;
            kept_by_key(
                old.thunderbolt_whitelist.devices@,
                other_thunderbolt(entry),
                key,
                x,
                entry,
            );
        },
        ListKind::SdCard => {
            let key = |e: SdCardWhitelistEntry| e.serial@;
            kept_by_key(old.sdcard_whitelist.devices@, other_card(entry), key, x, entry);
        },
        ListKind::Pci => {
            let key = |s: String| s@;
            kept_by_key(old.pci.ignore@, other_text(entry), key, x, entry);
            assert(views(new.pci.ignore@) =~= new.pci.ignore@.map_values(key));
            assert(views(old.pci.ignore@) =~= old.pci.ignore@.map_values(key));
        },
        ListKind::Network => {
            let key = |s: String| s@;
            kept_by_key(old.network.interfaces@, other_text(entry), key, x, entry);
            assert(views(new.network.interfaces@) =~= new.network.interfaces@.map_values(key));
            assert(views(old.network.interfaces@) =~= old.network.interfaces@.map_values(key));
        },
        ListKind::Display => {
            let key = |s: String| s@;
            kept_by_key(old.display.ignore@, other_text(entry), key, x, entry);
            assert(views(new.display.ignore@) =~= new.display.ignore@.map_values(key));
            assert(views(old.display.ignore@) =~= old.display.ignore@.map_values(key));
        },
    }
}

proof fn kept_by_key<T>(
    s: Seq<T>,
    keep: spec_fn(T) -> bool,
    key: spec_fn(T) -> Seq<char>,
    x: Seq<char>,
    entry: Seq<char>,
)
    requires
        forall|t: T| #[trigger] keep(t) <==> key(t) != entry,
    ensures
        s.filter(keep).map_values(key).contains(x) <==> s.map_values(key).contains(x) && x != entry,
{
    let kept = s.filter(keep);
    let a = s.map_values(key);
    let b = kept.map_values(key);
    if b.contains(x) {
        let k = choose|k: int| 0 <= k < b.len() && b[k] == x;
        crate::order::a_pick_holds_what_passes(s, keep, kept[k]);
        assert(kept.contains(kept[k]));
        let j = choose|j: int| 0 <= j < s.len() && s[j] == kept[k];
        assert(a[j] == x);
        assert(keep(kept[k]));
    }
    if a.contains(x) && x != entry {
        let j = choose|j: int| 0 <= j < a.len() && a[j] == x;
        assert(keep(s[j]));
        crate::order::a_pick_holds_what_passes(s, keep, s[j]);
        assert(s.contains(s[j]));
        let k = choose|k: int| 0 <= k < kept.len() && kept[k] == s[j];
        assert(b[k] == x);
    }
}

/// Setting a count sets that of the first entry of its device, and no other.
pub proof fn a_count_is_set_alone(
    devices: Seq<WhitelistEntry>,
    entry: Seq<char>,
    n: u32,
    other: Seq<char>,
)
    ensures
        devices.map_values(|e: WhitelistEntry| usb_entry(e)).contains(entry) ==> count_of(
            recounted(devices, entry, n),
            entry,
        ) == n,
        !devices.map_values(|e: WhitelistEntry| usb_entry(e)).contains(entry) ==> recounted(
            devices,
            entry,
            n,
        ) == devices && count_of(devices, entry) == 0,
        other != entry ==> count_of(recounted(devices, entry, n), other) == count_of(devices, other),
        recounted(devices, entry, n).len() == devices.len(),
{
    let at = usb_at(devices, entry, 0);
    let after_it = recounted(devices, entry, n);
    usb_at_bounds(devices, entry, 0);
    usb_at_bounds(devices, other, 0);
    same_entries(devices, after_it, entry, 0);
    same_entries(devices, after_it, other, 0);
    let v = devices.map_values(|e: WhitelistEntry| usb_entry(e));
    if v.contains(entry) {
        usb_at_finds(devices, entry);
    } else if at < devices.len() {
        assert(v[at] == entry);
    }
}

/// Adding several of one device lists it, and raises its count to that number where it
/// was lower, never lowering it.
pub proof fn several_are_added_at_once(
    r: Result<String, String>,
    new: Config,
    old: Config,
    typed: Seq<char>,
    n: u32,
)
    requires
        adds_instances(r, new, old, ListKind::Usb, typed, n),
        stored(ListKind::Usb, typed) is Ok,
    ensures
        ({
            let entry = stored(ListKind::Usb, typed)->Ok_0;
            let was = entries_of(old, ListKind::Usb).contains(entry);
            let before = if was {
                count_of(old.whitelist.devices@, entry)
            } else {
                1
            };
            &&& r is Ok
            &&& count_of(new.whitelist.devices@, entry) == if before > n {
                before
            } else {
                n
            }
        }),
{
    let entry = stored(ListKind::Usb, typed)->Ok_0;
    usb_entries_hold_a_colon(typed);
    let mid = choose|mid: Config| #[trigger]
        ensured(mid, old, ListKind::Usb, entry) && raised(new, mid, ListKind::Usb, entry, n);
    let od = old.whitelist.devices@;
    let md = mid.whitelist.devices@;
    let key = |e: WhitelistEntry| usb_entry(e);
    if !entries_of(old, ListKind::Usb).contains(entry) {
        an_added_entry_is_listed(mid, old, ListKind::Usb, entry);
        let e0 = entries_of(old, ListKind::Usb);
        let e1 = entries_of(mid, ListKind::Usb);
        assert(e1[e0.len() as int] == entry);
        assert(md.len() == od.len() + 1);
        assert(usb_entry(md[od.len() as int]) == e1[od.len() as int]);
        usb_at_bounds(md, entry, 0);
        usb_at_until(md, entry, 0, od.len() as int);
        let at = usb_at(md, entry, 0);
        if at < od.len() {
            assert(e1[at] == e0[at]);
            assert(e1[at] == usb_entry(md[at]));
            assert(e0.contains(entry));
        }
        assert(count_of(md, entry) == 1);
        assert(md.map_values(key)[od.len() as int] == entry);
    }
    a_count_is_set_alone(md, entry, more_of(count_of(md, entry), n), entry);
    assert(md.map_values(key).contains(entry));
}

/// A click on one more of a listed device raises its count by one, as long as fewer are
/// listed than are there, and otherwise changes nothing.
pub proof fn one_more_is_covered(
    r: Result<String, String>,
    new: Config,
    old: Config,
    typed: Seq<char>,
    present: u32,
)
    requires
        covers_one(r, new, old, ListKind::Usb, typed, present),
        stored(ListKind::Usb, typed) matches Ok(entry) && entries_of(old, ListKind::Usb).contains(
            entry,
        ),
    ensures
        ({
            let entry = stored(ListKind::Usb, typed)->Ok_0;
            let was = count_of(old.whitelist.devices@, entry);
            &&& r is Ok
            &&& was < present ==> count_of(new.whitelist.devices@, entry) == was + 1
            &&& was >= present ==> new == old
        }),
{
    let entry = stored(ListKind::Usb, typed)->Ok_0;
    let od = old.whitelist.devices@;
    a_count_is_set_alone(od, entry, (count_of(od, entry) + 1) as u32, entry);
}

/// A USB device stands among the selectors as often as its entries count.
pub proof fn a_count_is_a_number_of_selectors(
    devices: Seq<WhitelistEntry>,
    e: WhitelistEntry,
    s: Seq<char>,
)
    ensures
        times(usb_selectors(Seq::empty()), s) == 0,
        times(usb_selectors(devices.push(e)), s) == times(usb_selectors(devices), s) + (if s == "usb:"@
            + e.vendor_id@ + ":"@ + e.product_id@ {
            e.count as int
        } else {
            0
        }),
{
    let all = devices.push(e);
    assert(all.drop_last() =~= devices);
    reveal_strlit("usb");
    reveal_strlit("usb:");
    reveal_strlit(":");
    let sel = "usb"@ + ":"@ + usb_entry(e);
    assert(sel =~= "usb:"@ + e.vendor_id@ + ":"@ + e.product_id@);
    times_of_both(usb_selectors(devices), repeated(sel, e.count as nat), s);
    times_of_one(sel, e.count as nat, s);
}

proof fn times_of_both(a: Seq<Seq<char>>, b: Seq<Seq<char>>, s: Seq<char>)
    ensures
        times(a + b, s) == times(a, s) + times(b, s),
    decreases b.len(),
{
    if b.len() == 0 {
        assert(a + b =~= a);
    } else {
        times_of_both(a, b.drop_last(), s);
        assert((a + b).drop_last() =~= a + b.drop_last());
        assert((a + b).last() == b.last());
    }
}

proof fn times_of_one(x: Seq<char>, n: nat, s: Seq<char>)
    ensures
        times(repeated(x, n), s) == if x == s {
            n
        } else {
            0
        },
    decreases n,
{
    if n > 0 {
        times_of_one(x, (n - 1) as nat, s);
        assert(repeated(x, n).drop_last() =~= repeated(x, (n - 1) as nat));
        assert(repeated(x, n).last() == x);
    }
}

/// A line is marked as changed exactly where it stands more often, up to and with
/// itself, than in the whole of the other text.
pub proof fn a_line_is_marked_past_its_match(side: Seq<Seq<char>>, other: Seq<Seq<char>>, i: int)
    requires
        0 <= i < side.len(),
    ensures
        !matched(side, other, i) <==> times(side.take(i + 1), side[i]) > times(other, side[i]),
{
    assert(side.take(i + 1).drop_last() =~= side.take(i));
    assert(side.take(i + 1).last() == side[i]);
}

/// A value that was moved is named, once, with what it was and what it became, and
/// nothing else is.
pub proof fn what_moved_is_named(old: Config, new: Config)
    ensures
        moved_values(old, new).len() == (if old.general.sleep_ms != new.general.sleep_ms {
            1int
        } else {
            0
        }) + (if old.power.grace_secs != new.power.grace_secs {
            1int
        } else {
            0
        }) + (if old.network.grace_secs != new.network.grace_secs {
            1int
        } else {
            0
        }) + (if old.lid.grace_secs != new.lid.grace_secs {
            1int
        } else {
            0
        }),
        old.general.sleep_ms != new.general.sleep_ms ==> moved_values(old, new)[0]
            == "general.sleep_ms: "@ + dec(old.general.sleep_ms as nat) + " becomes "@ + dec(
            new.general.sleep_ms as nat,
        ),
        old.lid.grace_secs != new.lid.grace_secs ==> moved_values(old, new).last()
            == "lid.grace_secs: "@ + dec(old.lid.grace_secs as nat) + " becomes "@ + dec(
            new.lid.grace_secs as nat,
        ),
{
    reveal_strlit("general.sleep_ms");
    reveal_strlit("lid.grace_secs");
    reveal_strlit(": ");
    reveal_strlit("general.sleep_ms: ");
    reveal_strlit("lid.grace_secs: ");
    assert("general.sleep_ms"@ + ": "@ =~= "general.sleep_ms: "@);
    assert("lid.grace_secs"@ + ": "@ =~= "lid.grace_secs: "@);
}

/// The editor opens on the file that was read, and on the defaults where none was named,
/// or it could not be read or understood.
pub proof fn the_editor_opens_on_what_was_read(l: Loaded, path: Seq<char>, file: ReadFile)
    requires
        l.opens(path, file),
    ensures
        path.len() > 0 ==> (file matches ReadFile::Parsed(c) ==> l.read && l.config == c),
        path.len() == 0 || !(file is Parsed) ==> !l.read && l.config.is_default(),
{
}

/// A device goes to the list of its bus, under what the bus matches by; a monitor goes
/// to none.
pub proof fn a_device_has_its_list(v: Seq<char>, p: Seq<char>, id: Seq<char>)
    ensures
        entry_for(DeviceKey::Usb(v, p)) == Some((ListKind::Usb, v + ":"@ + p)),
        entry_for(DeviceKey::Thunderbolt(id)) == Some((ListKind::Thunderbolt, id)),
        entry_for(DeviceKey::SdCard(id)) == Some((ListKind::SdCard, id)),
        entry_for(DeviceKey::Pci(id)) == Some((ListKind::Pci, id)),
{
}

/// Each list shows the entries of its own part of the configuration, in order.
pub proof fn each_list_shows_its_own(c: Config, i: int)
    ensures
        0 <= i < c.whitelist.devices@.len() ==> entries_of(c, ListKind::Usb)[i]
            == c.whitelist.devices@[i].vendor_id@ + ":"@ + c.whitelist.devices@[i].product_id@,
        0 <= i < c.thunderbolt_whitelist.devices@.len() ==> entries_of(c, ListKind::Thunderbolt)[i]
            == c.thunderbolt_whitelist.devices@[i].unique_id@,
        0 <= i < c.sdcard_whitelist.devices@.len() ==> entries_of(c, ListKind::SdCard)[i]
            == c.sdcard_whitelist.devices@[i].serial@,
        0 <= i < c.pci.ignore@.len() ==> entries_of(c, ListKind::Pci)[i] == c.pci.ignore@[i]@,
        0 <= i < c.network.interfaces@.len() ==> entries_of(c, ListKind::Network)[i]
            == c.network.interfaces@[i]@,
        0 <= i < c.display.ignore@.len() ==> entries_of(c, ListKind::Display)[i]
            == c.display.ignore@[i]@,
        entries_of(c, ListKind::Usb).len() == c.whitelist.devices@.len(),
        entries_of(c, ListKind::Thunderbolt).len() == c.thunderbolt_whitelist.devices@.len(),
        entries_of(c, ListKind::SdCard).len() == c.sdcard_whitelist.devices@.len(),
        entries_of(c, ListKind::Pci).len() == c.pci.ignore@.len(),
        entries_of(c, ListKind::Network).len() == c.network.interfaces@.len(),
        entries_of(c, ListKind::Display).len() == c.display.ignore@.len(),
{
}

/// A file that could not be read says why, and one that could is what the loader makes
/// of it.
pub proof fn a_file_is_what_the_loader_makes_of_it(
    file: ReadFile,
    contents: Result<String, String>,
    words: Seq<char>,
)
    requires
        read_from(file, contents, words),
    ensures
        file is Unreadable <==> contents is Err,
        contents matches Err(e) ==> file == ReadFile::Unreadable(e),
        file matches ReadFile::Parsed(c) ==> (contents matches Ok(t) && parsed(
            Ok::<Config, String>(c),
            t@,
            words,
        )),
{
}

/// An entry is labelled as it is listed, and a USB device of which more than one is
/// listed with how many.
pub proof fn an_entry_is_labelled_as_listed(c: Config, i: int)
    requires
        0 <= i < c.whitelist.devices@.len(),
    ensures
        c.whitelist.devices@[i].count <= 1 ==> label_of(c, ListKind::Usb, i) == entries_of(
            c,
            ListKind::Usb,
        )[i],
        c.whitelist.devices@[i].count > 1 ==> label_of(c, ListKind::Usb, i) == entries_of(
            c,
            ListKind::Usb,
        )[i] + "  x"@ + dec(c.whitelist.devices@[i].count as nat),
        label_of(c, ListKind::Pci, i) == entries_of(c, ListKind::Pci)[i],
{
}

/// A table lists its entries as selectors of its bus.
pub proof fn a_table_lists_selectors(c: Config, i: int)
    ensures
        0 <= i < c.thunderbolt_whitelist.devices@.len() ==> table_selectors(
            c,
            ListKind::Thunderbolt,
        )[i] == "thunderbolt"@ + ":"@ + c.thunderbolt_whitelist.devices@[i].unique_id@,
        0 <= i < c.sdcard_whitelist.devices@.len() ==> table_selectors(c, ListKind::SdCard)[i]
            == "sdcard"@ + ":"@ + c.sdcard_whitelist.devices@[i].serial@,
        0 <= i < c.pci.ignore@.len() ==> table_selectors(c, ListKind::Pci)[i] == "pci"@ + ":"@
            + c.pci.ignore@[i]@,
{
}

/// A text that is held against another is shown line by line, with the lines marked that
/// the other has no match for; one that is held against itself has none marked.
pub proof fn a_text_is_shown_line_by_line(r: Seq<Line>, side: Seq<Seq<char>>, other: Seq<Seq<char>>, i: int)
    requires
        marked(r, side, other),
        0 <= i < r.len(),
    ensures
        r.len() == side.len(),
        r[i].text@ == side[i],
        r[i].changed <==> times(side.take(i + 1), side[i]) > times(other, side[i]),
        side == other ==> !r[i].changed,
{
    a_line_is_marked_past_its_match(side, other, i);
    if side == other {
        the_same_text_marks_nothing(side, i);
    }
}

/// A configuration that cannot be shown is shown as its error alone.
pub proof fn an_error_is_shown_alone(o: Output, e: Seq<char>)
    requires
        only_error(o, e),
    ensures
        o.error matches Some(m) && m@ == e,
        o.toml@.len() == 0 && o.nix@.len() == 0 && o.loaded_lines@.len() == 0
            && o.emitted_lines@.len() == 0 && o.clamped@.len() == 0,
{
}

/// Adding several changes nothing but the list it adds to: another list than that of USB
/// devices takes the entry once, where it does not have it.
pub proof fn several_are_added_to_one_list(
    r: Result<String, String>,
    new: Config,
    old: Config,
    kind: ListKind,
    typed: Seq<char>,
    n: u32,
)
    requires
        adds_instances(r, new, old, kind, typed, n),
    ensures
        stored(kind, typed) is Err ==> r is Err && new == old,
        stored(kind, typed) is Ok ==> r is Ok,
        new.general == old.general && new.power == old.power && new.lid == old.lid,
        new.commands == old.commands && new.destruction == old.destruction,
        !(kind is Usb) ==> new.whitelist == old.whitelist,
        !(kind is Usb) ==> (stored(kind, typed) matches Ok(entry) ==> entries_of(new, kind)
            == if entries_of(old, kind).contains(entry) {
            entries_of(old, kind)
        } else {
            entries_of(old, kind).push(entry)
        }),
{
    if let Ok(entry) = stored(kind, typed) {
        let mid = choose|mid: Config| #[trigger]
            ensured(mid, old, kind, entry) && raised(new, mid, kind, entry, n);
        if !(kind is Usb) && !entries_of(old, kind).contains(entry) {
            an_added_entry_is_listed(mid, old, kind, entry);
        }
    }
}

/// What cannot be edited is told: yes or no, and the paths, or that there are none.
pub proof fn what_cannot_be_edited_is_told(paths: Seq<Seq<char>>, commands: Seq<Vec<String>>)
    ensures
        yes_or_no(true) == "yes"@ && yes_or_no(false) == "no"@,
        path_list(Seq::empty()) == "none"@,
        paths.len() > 0 ==> path_list(paths) == joined(paths, ", "@),
        commands_text(Seq::empty())
            == "Kill commands: none set, so the daemon uses its built-in poweroff.\n"@,
        commands.len() > 0 ==> commands_text(commands) == "Kill commands:\n"@ + command_lines(commands),
{
}

} // verus!
