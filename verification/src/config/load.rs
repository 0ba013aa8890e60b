//! The loader: a configuration out of its file. A key that the file leaves out takes
//! its default; a key that nobody knows, or a value of the wrong kind, makes the
//! section it stands in unreadable.

use vstd::prelude::*;

use super::{
    Config, CommandsConfig, DestructionConfig, DisplayConfig, DisplayPolicy,
    GeneralConfig, LidConfig, LidPolicy, NetworkConfig, NetworkPolicy, PciConfig, PciPolicy,
    PowerConfig, PowerPolicy, SdCardWhitelistConfig, SdCardWhitelistEntry,
    ThunderboltWhitelistConfig, ThunderboltWhitelistEntry, WhitelistConfig, WhitelistEntry,
};
use crate::decode::{
    all_texts, find, flag_or, held, is_section, is_table, number_or, read_flag_or,
    read_if_any, read_items, read_number_or, read_text_or, read_texts, section_of, table_of,
    text_if_any, text_or, text_values, texts_in, told, within,
};
use crate::document::{read, toml_read};
use crate::json::Json;
use crate::text::{same, views};

verus! {

// ---- policies ------------------------------------------------------------

/// Whether a policy kills. It only watches where it is missing.
pub open spec fn kills_in(j: Option<Json>) -> Option<bool> {
    match j {
        None => Some(false),
        Some(v) => if v.text() == Some("kill"@) {
            Some(true)
        } else if v.text() == Some("monitor"@) {
            Some(false)
        } else {
            None
        },
    }
}

/// A power policy. It only watches where it is missing.
pub open spec fn power_in(j: Option<Json>) -> Option<PowerPolicy> {
    match j {
        None => Some(PowerPolicy::Monitor),
        Some(v) => if v.text() == Some("trigger-once"@) {
            Some(PowerPolicy::TriggerOnce)
        } else if v.text() == Some("ac-required"@) {
            Some(PowerPolicy::AcRequired)
        } else if v.text() == Some("monitor"@) {
            Some(PowerPolicy::Monitor)
        } else {
            None
        },
    }
}

fn read_kills(j: Option<&Json>) -> (r: Option<bool>)
    ensures
        r == kills_in(held(j)),
{
    match j {
        None => Some(false),
        Some(v) => match v.as_str() {
            Some(s) => if same(s, "kill") {
                Some(true)
            } else if same(s, "monitor") {
                Some(false)
            } else {
                None
            },
            None => None,
        },
    }
}

fn read_power_policy(j: Option<&Json>) -> (r: Option<PowerPolicy>)
    ensures
        r == power_in(held(j)),
{
    match j {
        None => Some(PowerPolicy::Monitor),
        Some(v) => match v.as_str() {
            Some(s) => if same(s, "trigger-once") {
                Some(PowerPolicy::TriggerOnce)
            } else if same(s, "ac-required") {
                Some(PowerPolicy::AcRequired)
            } else if same(s, "monitor") {
                Some(PowerPolicy::Monitor)
            } else {
                None
            },
            None => None,
        },
    }
}

// ---- sections ------------------------------------------------------------

/// The keys of `[general]`.
pub const GENERAL: [&'static str; 12] = [
    "sleep_ms",
    "log_file",
    "dry_run",
    "watch_usb",
    "watch_thunderbolt",
    "watch_sdcard",
    "watch_power",
    "watch_network",
    "watch_lid",
    "watch_pci",
    "watch_display",
    "require_auth",
];

/// Whether `[general]` can be read.
pub open spec fn general_reads(j: Option<Json>) -> bool {
    &&& section_of(j, GENERAL@)
    &&& number_or(within(j, "sleep_ms"@), 250) is Some
    &&& text_or(within(j, "log_file"@), "/var/log/plugkill/plugkill.log"@) is Some
    &&& flag_or(within(j, "dry_run"@), false) is Some
    &&& flag_or(within(j, "watch_usb"@), true) is Some
    &&& flag_or(within(j, "watch_thunderbolt"@), true) is Some
    &&& flag_or(within(j, "watch_sdcard"@), true) is Some
    &&& flag_or(within(j, "watch_power"@), false) is Some
    &&& flag_or(within(j, "watch_network"@), false) is Some
    &&& flag_or(within(j, "watch_lid"@), false) is Some
    &&& flag_or(within(j, "watch_pci"@), false) is Some
    &&& flag_or(within(j, "watch_display"@), false) is Some
    &&& flag_or(within(j, "require_auth"@), false) is Some
}

/// Whether these are the values of `[general]`.
pub open spec fn general_is(g: GeneralConfig, j: Option<Json>) -> bool {
    &&& number_or(within(j, "sleep_ms"@), 250) == Some(g.sleep_ms)
    &&& text_or(within(j, "log_file"@), "/var/log/plugkill/plugkill.log"@) == Some(g.log_file@)
    &&& flag_or(within(j, "dry_run"@), false) == Some(g.dry_run)
    &&& flag_or(within(j, "watch_usb"@), true) == Some(g.watch_usb)
    &&& flag_or(within(j, "watch_thunderbolt"@), true) == Some(g.watch_thunderbolt)
    &&& flag_or(within(j, "watch_sdcard"@), true) == Some(g.watch_sdcard)
    &&& flag_or(within(j, "watch_power"@), false) == Some(g.watch_power)
    &&& flag_or(within(j, "watch_network"@), false) == Some(g.watch_network)
    &&& flag_or(within(j, "watch_lid"@), false) == Some(g.watch_lid)
    &&& flag_or(within(j, "watch_pci"@), false) == Some(g.watch_pci)
    &&& flag_or(within(j, "watch_display"@), false) == Some(g.watch_display)
    &&& flag_or(within(j, "require_auth"@), false) == Some(g.require_auth)
}

fn read_general(j: Option<&Json>) -> (r: Option<GeneralConfig>)
    ensures
        match r {
            Some(g) => general_reads(held(j)) && general_is(g, held(j)),
            None => !general_reads(held(j)),
        },
{
    if !is_section(j, GENERAL.as_slice()) {
        return None;
    }
    let (sleep_ms, log_file, dry_run, require_auth) = match (
        read_number_or(find(j, "sleep_ms"), 250),
        read_text_or(find(j, "log_file"), "/var/log/plugkill/plugkill.log"),
        read_flag_or(find(j, "dry_run"), false),
        read_flag_or(find(j, "require_auth"), false),
    ) {
        (Some(a), Some(b), Some(c), Some(d)) => (a, b, c, d),
        _ => {
            return None;
        },
    };
    let (watch_usb, watch_thunderbolt, watch_sdcard, watch_power) = match (
        read_flag_or(find(j, "watch_usb"), true),
        read_flag_or(find(j, "watch_thunderbolt"), true),
        read_flag_or(find(j, "watch_sdcard"), true),
        read_flag_or(find(j, "watch_power"), false),
    ) {
        (Some(a), Some(b), Some(c), Some(d)) => (a, b, c, d),
        _ => {
            return None;
        },
    };
    let (watch_network, watch_lid, watch_pci, watch_display) = match (
        read_flag_or(find(j, "watch_network"), false),
        read_flag_or(find(j, "watch_lid"), false),
        read_flag_or(find(j, "watch_pci"), false),
        read_flag_or(find(j, "watch_display"), false),
    ) {
        (Some(a), Some(b), Some(c), Some(d)) => (a, b, c, d),
        _ => {
            return None;
        },
    };
    Some(
        GeneralConfig {
            sleep_ms,
            log_file,
            dry_run,
            watch_usb,
            watch_thunderbolt,
            watch_sdcard,
            watch_power,
            watch_network,
            watch_lid,
            watch_pci,
            watch_display,
            require_auth,
        },
    )
}

/// The keys of `[destruction]`.
pub const DESTRUCTION: [&'static str; 6] = [
    "files_to_remove",
    "folders_to_remove",
    "melt_self",
    "do_sync",
    "do_wipe_swap",
    "swap_device",
];

/// Whether `[destruction]` can be read.
pub open spec fn destruction_reads(j: Option<Json>) -> bool {
    &&& section_of(j, DESTRUCTION@)
    &&& texts_in(within(j, "files_to_remove"@)) is Some
    &&& texts_in(within(j, "folders_to_remove"@)) is Some
    &&& flag_or(within(j, "melt_self"@), false) is Some
    &&& flag_or(within(j, "do_sync"@), true) is Some
    &&& flag_or(within(j, "do_wipe_swap"@), false) is Some
    &&& text_if_any(within(j, "swap_device"@)) is Some
}

/// Whether these are the values of `[destruction]`.
pub open spec fn destruction_is(d: DestructionConfig, j: Option<Json>) -> bool {
    &&& texts_in(within(j, "files_to_remove"@)) == Some(views(d.files_to_remove@))
    &&& texts_in(within(j, "folders_to_remove"@)) == Some(views(d.folders_to_remove@))
    &&& flag_or(within(j, "melt_self"@), false) == Some(d.melt_self)
    &&& flag_or(within(j, "do_sync"@), true) == Some(d.do_sync)
    &&& flag_or(within(j, "do_wipe_swap"@), false) == Some(d.do_wipe_swap)
    &&& text_if_any(within(j, "swap_device"@)) == Some(told(d.swap_device))
}

fn read_destruction(j: Option<&Json>) -> (r: Option<DestructionConfig>)
    ensures
        match r {
            Some(d) => destruction_reads(held(j)) && destruction_is(d, held(j)),
            None => !destruction_reads(held(j)),
        },
{
    if !is_section(j, DESTRUCTION.as_slice()) {
        return None;
    }
    match (
        read_texts(find(j, "files_to_remove")),
        read_texts(find(j, "folders_to_remove")),
        read_flag_or(find(j, "melt_self"), false),
        read_flag_or(find(j, "do_sync"), true),
        read_flag_or(find(j, "do_wipe_swap"), false),
        read_if_any(find(j, "swap_device")),
    ) {
        (
            Some(files_to_remove),
            Some(folders_to_remove),
            Some(melt_self),
            Some(do_sync),
            Some(do_wipe_swap),
            Some(swap_device),
        ) => Some(
            DestructionConfig {
                files_to_remove,
                folders_to_remove,
                melt_self,
                do_sync,
                do_wipe_swap,
                swap_device,
            },
        ),
        _ => None,
    }
}

/// The keys of `[power]`, `[network]`, `[lid]`, and of `[pci]` and `[display]`.
pub const POWER: [&'static str; 3] = ["policy", "grace_secs", "require_locked"];

pub const NETWORK: [&'static str; 3] = ["policy", "grace_secs", "interfaces"];

pub const LID: [&'static str; 2] = ["policy", "grace_secs"];

pub const IGNORING: [&'static str; 2] = ["policy", "ignore"];

/// Whether `[power]` can be read.
pub open spec fn power_reads(j: Option<Json>) -> bool {
    &&& section_of(j, POWER@)
    &&& power_in(within(j, "policy"@)) is Some
    &&& number_or(within(j, "grace_secs"@), 0) is Some
    &&& flag_or(within(j, "require_locked"@), false) is Some
}

/// Whether these are the values of `[power]`.
pub open spec fn power_is(p: PowerConfig, j: Option<Json>) -> bool {
    &&& power_in(within(j, "policy"@)) == Some(p.policy)
    &&& number_or(within(j, "grace_secs"@), 0) == Some(p.grace_secs)
    &&& flag_or(within(j, "require_locked"@), false) == Some(p.require_locked)
}

fn read_power(j: Option<&Json>) -> (r: Option<PowerConfig>)
    ensures
        match r {
            Some(p) => power_reads(held(j)) && power_is(p, held(j)),
            None => !power_reads(held(j)),
        },
{
    if !is_section(j, POWER.as_slice()) {
        return None;
    }
    match (
        read_power_policy(find(j, "policy")),
        read_number_or(find(j, "grace_secs"), 0),
        read_flag_or(find(j, "require_locked"), false),
    ) {
        (Some(policy), Some(grace_secs), Some(require_locked)) => Some(
            PowerConfig { policy, grace_secs, require_locked },
        ),
        _ => None,
    }
}

/// Whether `[network]` can be read.
pub open spec fn network_reads(j: Option<Json>) -> bool {
    &&& section_of(j, NETWORK@)
    &&& kills_in(within(j, "policy"@)) is Some
    &&& number_or(within(j, "grace_secs"@), 0) is Some
    &&& texts_in(within(j, "interfaces"@)) is Some
}

/// Whether these are the values of `[network]`.
pub open spec fn network_is(n: NetworkConfig, j: Option<Json>) -> bool {
    &&& kills_in(within(j, "policy"@)) == Some(n.policy is Kill)
    &&& number_or(within(j, "grace_secs"@), 0) == Some(n.grace_secs)
    &&& texts_in(within(j, "interfaces"@)) == Some(views(n.interfaces@))
}

fn read_network(j: Option<&Json>) -> (r: Option<NetworkConfig>)
    ensures
        match r {
            Some(n) => network_reads(held(j)) && network_is(n, held(j)),
            None => !network_reads(held(j)),
        },
{
    if !is_section(j, NETWORK.as_slice()) {
        return None;
    }
    match (
        read_kills(find(j, "policy")),
        read_number_or(find(j, "grace_secs"), 0),
        read_texts(find(j, "interfaces")),
    ) {
        (Some(kills), Some(grace_secs), Some(interfaces)) => Some(
            NetworkConfig {
                policy: if kills {
                    NetworkPolicy::Kill
                } else {
                    NetworkPolicy::Monitor
                },
                grace_secs,
                interfaces,
            },
        ),
        _ => None,
    }
}

/// Whether `[lid]` can be read.
pub open spec fn lid_reads(j: Option<Json>) -> bool {
    &&& section_of(j, LID@)
    &&& kills_in(within(j, "policy"@)) is Some
    &&& number_or(within(j, "grace_secs"@), 0) is Some
}

/// Whether these are the values of `[lid]`.
pub open spec fn lid_is(l: LidConfig, j: Option<Json>) -> bool {
    &&& kills_in(within(j, "policy"@)) == Some(l.policy is Kill)
    &&& number_or(within(j, "grace_secs"@), 0) == Some(l.grace_secs)
}

fn read_lid(j: Option<&Json>) -> (r: Option<LidConfig>)
    ensures
        match r {
            Some(l) => lid_reads(held(j)) && lid_is(l, held(j)),
            None => !lid_reads(held(j)),
        },
{
    if !is_section(j, LID.as_slice()) {
        return None;
    }
    match (read_kills(find(j, "policy")), read_number_or(find(j, "grace_secs"), 0)) {
        (Some(kills), Some(grace_secs)) => Some(
            LidConfig {
                policy: if kills {
                    LidPolicy::Kill
                } else {
                    LidPolicy::Monitor
                },
                grace_secs,
            },
        ),
        _ => None,
    }
}

/// Whether `[pci]` or `[display]` can be read.
pub open spec fn ignoring_reads(j: Option<Json>) -> bool {
    &&& section_of(j, IGNORING@)
    &&& kills_in(within(j, "policy"@)) is Some
    &&& texts_in(within(j, "ignore"@)) is Some
}

/// Whether these are the values of `[pci]` or `[display]`.
pub open spec fn ignoring_is(kills: bool, ignore: Seq<Seq<char>>, j: Option<Json>) -> bool {
    &&& kills_in(within(j, "policy"@)) == Some(kills)
    &&& texts_in(within(j, "ignore"@)) == Some(ignore)
}

fn read_ignoring(j: Option<&Json>) -> (r: Option<(bool, Vec<String>)>)
    ensures
        match r {
            Some(p) => ignoring_reads(held(j)) && ignoring_is(p.0, views(p.1@), held(j)),
            None => !ignoring_reads(held(j)),
        },
{
    if !is_section(j, IGNORING.as_slice()) {
        return None;
    }
    match (read_kills(find(j, "policy")), read_texts(find(j, "ignore"))) {
        (Some(kills), Some(ignore)) => Some((kills, ignore)),
        _ => None,
    }
}

// ---- lists ---------------------------------------------------------------

/// The key of a whitelist section.
pub const DEVICES: [&'static str; 1] = ["devices"];

/// The keys of the entries.
pub const USB: [&'static str; 3] = ["vendor_id", "product_id", "count"];

pub const THUNDERBOLT: [&'static str; 1] = ["unique_id"];

pub const CARD: [&'static str; 1] = ["serial"];

/// The key of `[commands]`.
pub const COMMANDS: [&'static str; 1] = ["kill_commands"];

/// The items of a list, none where it is missing.
pub open spec fn list_in(j: Option<Json>) -> Option<Seq<Json>> {
    match j {
        None => Some(Seq::empty()),
        Some(v) => v.items(),
    }
}

/// How many devices an entry stands for, one where it does not say.
pub open spec fn count_in(j: Option<Json>) -> Option<u32> {
    match j {
        None => Some(1),
        Some(v) => match v.uint() {
            Some(n) => if n <= u32::MAX {
                Some(n as u32)
            } else {
                None
            },
            None => None,
        },
    }
}

/// Whether a value is a USB entry.
pub open spec fn usb_reads(j: Json) -> bool {
    &&& table_of(j, USB@)
    &&& j.text_at("vendor_id"@) is Some
    &&& j.text_at("product_id"@) is Some
    &&& count_in(j.at("count"@)) is Some
}

/// Whether this is the USB entry a value holds.
pub open spec fn usb_is(e: WhitelistEntry, j: Json) -> bool {
    &&& j.text_at("vendor_id"@) == Some(e.vendor_id@)
    &&& j.text_at("product_id"@) == Some(e.product_id@)
    &&& count_in(j.at("count"@)) == Some(e.count)
}

fn read_count(j: Option<&Json>) -> (r: Option<u32>)
    ensures
        r == count_in(held(j)),
{
    match j {
        None => Some(1),
        Some(v) => match v.as_u64() {
            Some(n) => if n <= u32::MAX as u64 {
                Some(n as u32)
            } else {
                None
            },
            None => None,
        },
    }
}

fn read_usb_entry(j: &Json) -> (r: Option<WhitelistEntry>)
    ensures
        match r {
            Some(e) => usb_reads(*j) && usb_is(e, *j),
            None => !usb_reads(*j),
        },
{
    if !is_table(j, USB.as_slice()) {
        return None;
    }
    match (j.get_str("vendor_id"), j.get_str("product_id"), read_count(j.get("count"))) {
        (Some(v), Some(p), Some(count)) => Some(
            WhitelistEntry { vendor_id: v.to_owned(), product_id: p.to_owned(), count },
        ),
        _ => None,
    }
}

/// Whether every one of these is a USB entry.
pub open spec fn all_usb(v: Seq<Json>) -> bool {
    forall|i: int| 0 <= i < v.len() ==> usb_reads(#[trigger] v[i])
}

/// Whether these are the entries that values hold.
pub open spec fn usb_are(es: Seq<WhitelistEntry>, v: Seq<Json>) -> bool {
    &&& es.len() == v.len()
    &&& forall|i: int| 0 <= i < es.len() ==> usb_is(#[trigger] es[i], v[i])
}

fn read_usb(v: &[Json]) -> (r: Option<Vec<WhitelistEntry>>)
    ensures
        match r {
            Some(es) => all_usb(v@) && usb_are(es@, v@),
            None => !all_usb(v@),
        },
{
    let mut out: Vec<WhitelistEntry> = Vec::new();
    let mut i: usize = 0;
    while i < v.len()
        invariant
            i <= v@.len(),
            out@.len() == i,
            forall|k: int| 0 <= k < i ==> usb_reads(#[trigger] v@[k]) && usb_is(out@[k], v@[k]),
        decreases v@.len() - i,
    {
        match read_usb_entry(&v[i]) {
            Some(e) => {
                out.push(e);
            },
            None => {
                assert(!all_usb(v@));
                return None;
            },
        }
        i += 1;
    }
    assert forall|k: int| 0 <= k < out@.len() implies usb_is(#[trigger] out@[k], v@[k]) by {
        assert(usb_reads(v@[k]));
    }
    Some(out)
}

/// Whether a value is a Thunderbolt entry.
pub open spec fn thunderbolt_reads(j: Json) -> bool {
    table_of(j, THUNDERBOLT@) && j.text_at("unique_id"@) is Some
}

/// Whether this is the Thunderbolt entry a value holds.
pub open spec fn thunderbolt_is(e: ThunderboltWhitelistEntry, j: Json) -> bool {
    j.text_at("unique_id"@) == Some(e.unique_id@)
}

fn read_thunderbolt_entry(j: &Json) -> (r: Option<ThunderboltWhitelistEntry>)
    ensures
        match r {
            Some(e) => thunderbolt_reads(*j) && thunderbolt_is(e, *j),
            None => !thunderbolt_reads(*j),
        },
{
    if !is_table(j, THUNDERBOLT.as_slice()) {
        return None;
    }
    match j.get_str("unique_id") {
        Some(s) => Some(ThunderboltWhitelistEntry { unique_id: s.to_owned() }),
        None => None,
    }
}

/// Whether every one of these is a Thunderbolt entry.
pub open spec fn all_thunderbolt(v: Seq<Json>) -> bool {
    forall|i: int| 0 <= i < v.len() ==> thunderbolt_reads(#[trigger] v[i])
}

/// Whether these are the entries that values hold.
pub open spec fn thunderbolt_are(es: Seq<ThunderboltWhitelistEntry>, v: Seq<Json>) -> bool {
    &&& es.len() == v.len()
    &&& forall|i: int| 0 <= i < es.len() ==> thunderbolt_is(#[trigger] es[i], v[i])
}

fn read_thunderbolt(v: &[Json]) -> (r: Option<Vec<ThunderboltWhitelistEntry>>)
    ensures
        match r {
            Some(es) => all_thunderbolt(v@) && thunderbolt_are(es@, v@),
            None => !all_thunderbolt(v@),
        },
{
    let mut out: Vec<ThunderboltWhitelistEntry> = Vec::new();
    let mut i: usize = 0;
    while i < v.len()
        invariant
            i <= v@.len(),
            out@.len() == i,
            forall|k: int|
                0 <= k < i ==> thunderbolt_reads(#[trigger] v@[k])
                    && thunderbolt_is(out@[k], v@[k]),
        decreases v@.len() - i,
    {
        match read_thunderbolt_entry(&v[i]) {
            Some(e) => {
                out.push(e);
            },
            None => {
                assert(!all_thunderbolt(v@));
                return None;
            },
        }
        i += 1;
    }
    assert forall|k: int| 0 <= k < out@.len() implies thunderbolt_is(#[trigger] out@[k], v@[k]) by {
        assert(thunderbolt_reads(v@[k]));
    }
    Some(out)
}

/// Whether a value is an SD card entry.
pub open spec fn card_reads(j: Json) -> bool {
    table_of(j, CARD@) && j.text_at("serial"@) is Some
}

/// Whether this is the SD card entry a value holds.
pub open spec fn card_is(e: SdCardWhitelistEntry, j: Json) -> bool {
    j.text_at("serial"@) == Some(e.serial@)
}

fn read_card_entry(j: &Json) -> (r: Option<SdCardWhitelistEntry>)
    ensures
        match r {
            Some(e) => card_reads(*j) && card_is(e, *j),
            None => !card_reads(*j),
        },
{
    if !is_table(j, CARD.as_slice()) {
        return None;
    }
    match j.get_str("serial") {
        Some(s) => Some(SdCardWhitelistEntry { serial: s.to_owned() }),
        None => None,
    }
}

/// Whether every one of these is an SD card entry.
pub open spec fn all_cards(v: Seq<Json>) -> bool {
    forall|i: int| 0 <= i < v.len() ==> card_reads(#[trigger] v[i])
}

/// Whether these are the entries that values hold.
pub open spec fn cards_are(es: Seq<SdCardWhitelistEntry>, v: Seq<Json>) -> bool {
    &&& es.len() == v.len()
    &&& forall|i: int| 0 <= i < es.len() ==> card_is(#[trigger] es[i], v[i])
}

fn read_cards(v: &[Json]) -> (r: Option<Vec<SdCardWhitelistEntry>>)
    ensures
        match r {
            Some(es) => all_cards(v@) && cards_are(es@, v@),
            None => !all_cards(v@),
        },
{
    let mut out: Vec<SdCardWhitelistEntry> = Vec::new();
    let mut i: usize = 0;
    while i < v.len()
        invariant
            i <= v@.len(),
            out@.len() == i,
            forall|k: int| 0 <= k < i ==> card_reads(#[trigger] v@[k]) && card_is(out@[k], v@[k]),
        decreases v@.len() - i,
    {
        match read_card_entry(&v[i]) {
            Some(e) => {
                out.push(e);
            },
            None => {
                assert(!all_cards(v@));
                return None;
            },
        }
        i += 1;
    }
    assert forall|k: int| 0 <= k < out@.len() implies card_is(#[trigger] out@[k], v@[k]) by {
        assert(card_reads(v@[k]));
    }
    Some(out)
}

/// Whether a value is a command: a list of words.
pub open spec fn command_reads(j: Json) -> bool {
    j.items() matches Some(v) && all_texts(v)
}

/// Whether these are the words of a command.
pub open spec fn command_is(c: Vec<String>, j: Json) -> bool {
    j.items() matches Some(v) && views(c@) == text_values(v)
}

fn read_command(j: &Json) -> (r: Option<Vec<String>>)
    ensures
        match r {
            Some(c) => command_reads(*j) && command_is(c, *j),
            None => !command_reads(*j),
        },
{
    match j.as_array() {
        Some(v) => read_items(v),
        None => None,
    }
}

/// Whether every one of these is a command.
pub open spec fn all_commands(v: Seq<Json>) -> bool {
    forall|i: int| 0 <= i < v.len() ==> command_reads(#[trigger] v[i])
}

/// Whether these are the entries that values hold.
pub open spec fn commands_are(es: Seq<Vec<String>>, v: Seq<Json>) -> bool {
    &&& es.len() == v.len()
    &&& forall|i: int| 0 <= i < es.len() ==> command_is(#[trigger] es[i], v[i])
}

fn read_commands(v: &[Json]) -> (r: Option<Vec<Vec<String>>>)
    ensures
        match r {
            Some(es) => all_commands(v@) && commands_are(es@, v@),
            None => !all_commands(v@),
        },
{
    let mut out: Vec<Vec<String>> = Vec::new();
    let mut i: usize = 0;
    while i < v.len()
        invariant
            i <= v@.len(),
            out@.len() == i,
            forall|k: int|
                0 <= k < i ==> command_reads(#[trigger] v@[k]) && command_is(out@[k], v@[k]),
        decreases v@.len() - i,
    {
        match read_command(&v[i]) {
            Some(e) => {
                out.push(e);
            },
            None => {
                assert(!all_commands(v@));
                return None;
            },
        }
        i += 1;
    }
    assert forall|k: int| 0 <= k < out@.len() implies command_is(#[trigger] out@[k], v@[k]) by {
        assert(command_reads(v@[k]));
    }
    Some(out)
}

fn listed_in<'a>(j: Option<&'a Json>, none: &'a [Json]) -> (r: Option<&'a [Json]>)
    requires
        none@.len() == 0,
    ensures
        match r {
            Some(v) => list_in(held(j)) == Some(v@),
            None => list_in(held(j)) is None,
        },
{
    match j {
        None => {
            assert(none@ =~= Seq::<Json>::empty());
            Some(none)
        },
        Some(v) => v.as_array(),
    }
}

/// Whether `[whitelist]` can be read.
pub open spec fn whitelist_reads(j: Option<Json>) -> bool {
    section_of(j, DEVICES@) && (list_in(within(j, "devices"@)) matches Some(v) && all_usb(v))
}

/// Whether these are the entries of `[whitelist]`.
pub open spec fn whitelist_is(es: Seq<WhitelistEntry>, j: Option<Json>) -> bool {
    list_in(within(j, "devices"@)) matches Some(v) && usb_are(es, v)
}

/// Whether `[thunderbolt_whitelist]` can be read.
pub open spec fn thunderbolts_read(j: Option<Json>) -> bool {
    section_of(j, DEVICES@) && (list_in(within(j, "devices"@)) matches Some(v) && all_thunderbolt(
        v,
    ))
}

/// Whether these are the entries of `[thunderbolt_whitelist]`.
pub open spec fn thunderbolts_are(es: Seq<ThunderboltWhitelistEntry>, j: Option<Json>) -> bool {
    list_in(within(j, "devices"@)) matches Some(v) && thunderbolt_are(es, v)
}

/// Whether `[sdcard_whitelist]` can be read.
pub open spec fn sdcards_read(j: Option<Json>) -> bool {
    section_of(j, DEVICES@) && (list_in(within(j, "devices"@)) matches Some(v) && all_cards(v))
}

/// Whether these are the entries of `[sdcard_whitelist]`.
pub open spec fn sdcards_are(es: Seq<SdCardWhitelistEntry>, j: Option<Json>) -> bool {
    list_in(within(j, "devices"@)) matches Some(v) && cards_are(es, v)
}

/// Whether `[commands]` can be read.
pub open spec fn commands_read(j: Option<Json>) -> bool {
    section_of(j, COMMANDS@) && (list_in(within(j, "kill_commands"@)) matches Some(v)
        && all_commands(v))
}

/// Whether these are the commands of `[commands]`.
pub open spec fn commands_of(cs: Seq<Vec<String>>, j: Option<Json>) -> bool {
    list_in(within(j, "kill_commands"@)) matches Some(v) && commands_are(cs, v)
}

fn read_whitelist(j: Option<&Json>) -> (r: Option<Vec<WhitelistEntry>>)
    ensures
        match r {
            Some(es) => whitelist_reads(held(j)) && whitelist_is(es@, held(j)),
            None => !whitelist_reads(held(j)),
        },
{
    if !is_section(j, DEVICES.as_slice()) {
        return None;
    }
    let none: Vec<Json> = Vec::new();
    match listed_in(find(j, "devices"), none.as_slice()) {
        Some(v) => read_usb(v),
        None => None,
    }
}

fn read_thunderbolts(j: Option<&Json>) -> (r: Option<Vec<ThunderboltWhitelistEntry>>)
    ensures
        match r {
            Some(es) => thunderbolts_read(held(j)) && thunderbolts_are(es@, held(j)),
            None => !thunderbolts_read(held(j)),
        },
{
    if !is_section(j, DEVICES.as_slice()) {
        return None;
    }
    let none: Vec<Json> = Vec::new();
    match listed_in(find(j, "devices"), none.as_slice()) {
        Some(v) => read_thunderbolt(v),
        None => None,
    }
}

fn read_sdcards(j: Option<&Json>) -> (r: Option<Vec<SdCardWhitelistEntry>>)
    ensures
        match r {
            Some(es) => sdcards_read(held(j)) && sdcards_are(es@, held(j)),
            None => !sdcards_read(held(j)),
        },
{
    if !is_section(j, DEVICES.as_slice()) {
        return None;
    }
    let none: Vec<Json> = Vec::new();
    match listed_in(find(j, "devices"), none.as_slice()) {
        Some(v) => read_cards(v),
        None => None,
    }
}

fn read_kill_commands(j: Option<&Json>) -> (r: Option<Vec<Vec<String>>>)
    ensures
        match r {
            Some(cs) => commands_read(held(j)) && commands_of(cs@, held(j)),
            None => !commands_read(held(j)),
        },
{
    if !is_section(j, COMMANDS.as_slice()) {
        return None;
    }
    let none: Vec<Json> = Vec::new();
    match listed_in(find(j, "kill_commands"), none.as_slice()) {
        Some(v) => read_commands(v),
        None => None,
    }
}

// ---- the whole file ------------------------------------------------------

/// The sections.
pub const SECTIONS: [&'static str; 11] = [
    "general",
    "whitelist",
    "destruction",
    "commands",
    "thunderbolt_whitelist",
    "sdcard_whitelist",
    "power",
    "network",
    "lid",
    "pci",
    "display",
];

/// Whether a file has the shape of a configuration: known sections, each of which can
/// be read.
pub open spec fn in_shape(j: Json) -> bool {
    &&& table_of(j, SECTIONS@)
    &&& general_reads(j.at("general"@))
    &&& whitelist_reads(j.at("whitelist"@))
    &&& destruction_reads(j.at("destruction"@))
    &&& commands_read(j.at("commands"@))
    &&& thunderbolts_read(j.at("thunderbolt_whitelist"@))
    &&& sdcards_read(j.at("sdcard_whitelist"@))
    &&& power_reads(j.at("power"@))
    &&& network_reads(j.at("network"@))
    &&& lid_reads(j.at("lid"@))
    &&& ignoring_reads(j.at("pci"@))
    &&& ignoring_reads(j.at("display"@))
}

/// Whether this is the configuration a file holds.
pub open spec fn config_is(c: Config, j: Json) -> bool {
    &&& general_is(c.general, j.at("general"@))
    &&& whitelist_is(c.whitelist.devices@, j.at("whitelist"@))
    &&& destruction_is(c.destruction, j.at("destruction"@))
    &&& commands_of(c.commands.kill_commands@, j.at("commands"@))
    &&& thunderbolts_are(c.thunderbolt_whitelist.devices@, j.at("thunderbolt_whitelist"@))
    &&& sdcards_are(c.sdcard_whitelist.devices@, j.at("sdcard_whitelist"@))
    &&& power_is(c.power, j.at("power"@))
    &&& network_is(c.network, j.at("network"@))
    &&& lid_is(c.lid, j.at("lid"@))
    &&& ignoring_is(c.pci.policy is Kill, views(c.pci.ignore@), j.at("pci"@))
    &&& ignoring_is(c.display.policy is Kill, views(c.display.ignore@), j.at("display"@))
}

/// The configuration a file holds, `None` where it has another shape.
pub fn read_config(j: &Json) -> (r: Option<Config>)
    ensures
        match r {
            Some(c) => in_shape(*j) && config_is(c, *j),
            None => !in_shape(*j),
        },
{
    if !is_table(j, SECTIONS.as_slice()) {
        return None;
    }
    let general = match read_general(j.get("general")) {
        Some(g) => g,
        None => {
            return None;
        },
    };
    let whitelist = match read_whitelist(j.get("whitelist")) {
        Some(w) => w,
        None => {
            return None;
        },
    };
    let destruction = match read_destruction(j.get("destruction")) {
        Some(d) => d,
        None => {
            return None;
        },
    };
    let commands = match read_kill_commands(j.get("commands")) {
        Some(c) => c,
        None => {
            return None;
        },
    };
    let thunderbolt = match read_thunderbolts(j.get("thunderbolt_whitelist")) {
        Some(t) => t,
        None => {
            return None;
        },
    };
    let sdcard = match read_sdcards(j.get("sdcard_whitelist")) {
        Some(s) => s,
        None => {
            return None;
        },
    };
    let power = match read_power(j.get("power")) {
        Some(p) => p,
        None => {
            return None;
        },
    };
    let network = match read_network(j.get("network")) {
        Some(n) => n,
        None => {
            return None;
        },
    };
    let lid = match read_lid(j.get("lid")) {
        Some(l) => l,
        None => {
            return None;
        },
    };
    let pci = match read_ignoring(j.get("pci")) {
        Some(p) => p,
        None => {
            return None;
        },
    };
    let display = match read_ignoring(j.get("display")) {
        Some(d) => d,
        None => {
            return None;
        },
    };
    Some(
        Config {
            general,
            whitelist: WhitelistConfig { devices: whitelist },
            destruction,
            commands: CommandsConfig { kill_commands: commands },
            thunderbolt_whitelist: ThunderboltWhitelistConfig { devices: thunderbolt },
            sdcard_whitelist: SdCardWhitelistConfig { devices: sdcard },
            power,
            network,
            lid,
            pci: PciConfig {
                policy: if pci.0 {
                    PciPolicy::Kill
                } else {
                    PciPolicy::Monitor
                },
                ignore: pci.1,
            },
            display: DisplayConfig {
                policy: if display.0 {
                    DisplayPolicy::Kill
                } else {
                    DisplayPolicy::Monitor
                },
                ignore: display.1,
            },
        },
    )
}

/// Whether a file was taken for what it is: refused for its shape, in the words given
/// for that, or for what is wrong with the configuration it holds, and otherwise
/// loaded with every value in its range.
pub open spec fn loaded(r: Result<Config, String>, j: Json, words: Seq<char>) -> bool {
    if in_shape(j) {
        exists|c: Config| #[trigger] config_is(c, j) && settled(r, c)
    } else {
        r matches Err(m) && m@ == words
    }
}

/// Whether a configuration was moved into range and held to the rules.
pub open spec fn settled(r: Result<Config, String>, c: Config) -> bool {
    match c.in_range().complaint() {
        Some(e) => r matches Err(m) && m@ == e,
        None => r matches Ok(d) && d == c.in_range(),
    }
}

/// Load a configuration out of the value its file holds. `words` say what is wrong
/// with its shape.
pub fn load(j: &Json, words: &str) -> (r: Result<Config, String>)
    ensures
        loaded(r, *j, words@),
{
    let mut config = match read_config(j) {
        Some(c) => c,
        None => {
            return Err(words.to_owned());
        },
    };
    let ghost c = config;
    assert(config_is(c, *j));
    config.clamp();
    match config.check() {
        Ok(_) => Ok(config),
        Err(e) => Err(e),
    }
}

/// Whether a text was parsed for what it holds.
pub open spec fn parsed(r: Result<Config, String>, text: Seq<char>, words: Seq<char>) -> bool {
    match toml_read(text) {
        Err(e) => r matches Err(m) && m@ == e,
        Ok(m) => exists|j: Json| #[trigger] j.model() == m && loaded(r, j, words),
    }
}

/// Parse a configuration file, move every value into its range and hold it to the
/// rules. Where the text is TOML of another shape, the refusal is `words`: what a
/// reader that knows the keys and their lines says of it.
pub fn parse(text: &str, words: &str) -> (r: Result<Config, String>)
    ensures
        parsed(r, text@, words@),
{
    match read(text) {
        Ok(j) => {
            let r = load(&j, words);
            assert(j.model() == toml_read(text@)->Ok_0);
            r
        },
        Err(e) => Err(e),
    }
}

/// The key of a section, where both are there.
pub open spec fn set_to(j: Json, section: Seq<char>, key: Seq<char>) -> Option<Json> {
    match j.at(section) {
        Some(s) => s.at(key),
        None => None,
    }
}

/// A setting is what its key says: a number, a text or a truth value under the key in the
/// section is the value of the setting, and one without a key has its default.
pub proof fn a_general_setting_is_what_its_key_says(c: Config, j: Json)
    requires
        config_is(c, j),
    ensures
        set_to(j, "general"@, "sleep_ms"@) == Some(Json::Uint(c.general.sleep_ms)) || (set_to(
            j,
            "general"@,
            "sleep_ms"@,
        ) is None && c.general.sleep_ms == 250),
        (set_to(j, "general"@, "log_file"@) matches Some(Json::Str(s)) && s@ == c.general.log_file@)
            || (set_to(j, "general"@, "log_file"@) is None && c.general.log_file@
            == "/var/log/plugkill/plugkill.log"@),
        truth_or(set_to(j, "general"@, "dry_run"@), c.general.dry_run, false),
        truth_or(set_to(j, "general"@, "require_auth"@), c.general.require_auth, false),
        truth_or(set_to(j, "general"@, "watch_usb"@), c.general.watch_usb, true),
        truth_or(set_to(j, "general"@, "watch_thunderbolt"@), c.general.watch_thunderbolt, true),
        truth_or(set_to(j, "general"@, "watch_sdcard"@), c.general.watch_sdcard, true),
        truth_or(set_to(j, "general"@, "watch_power"@), c.general.watch_power, false),
        truth_or(set_to(j, "general"@, "watch_network"@), c.general.watch_network, false),
        truth_or(set_to(j, "general"@, "watch_lid"@), c.general.watch_lid, false),
        truth_or(set_to(j, "general"@, "watch_pci"@), c.general.watch_pci, false),
        truth_or(set_to(j, "general"@, "watch_display"@), c.general.watch_display, false),
{
}

/// Whether a key holds a truth value, or is left out and the value is the default.
pub open spec fn truth_or(j: Option<Json>, value: bool, default: bool) -> bool {
    j == Some(Json::Bool(value)) || (j is None && value == default)
}

/// Whether a key holds a number, or is left out and the number is nought.
pub open spec fn number_or_nought(j: Option<Json>, value: u64) -> bool {
    j == Some(Json::Uint(value)) || (j is None && value == 0)
}

/// Whether a key says to kill, or to monitor, which it does too where it is left out.
pub open spec fn kills_or_monitors(j: Option<Json>, kills: bool) -> bool {
    ||| kills && (j matches Some(Json::Str(s)) && s@ == "kill"@)
    ||| !kills && (j is None || (j matches Some(Json::Str(s)) && s@ == "monitor"@))
}

/// Whether a key lists texts, or is left out and there are none.
pub open spec fn lists(j: Option<Json>, texts: Seq<String>) -> bool {
    match j {
        None => texts.len() == 0,
        Some(Json::Array(v)) => v@.len() == texts.len() && forall|i: int|
            0 <= i < texts.len() ==> (v@[i] matches Json::Str(s) && s@ == (#[trigger] texts[i])@),
        _ => false,
    }
}

proof fn texts_are_listed(j: Option<Json>, texts: Seq<String>)
    requires
        texts_in(j) == Some(views(texts)),
    ensures
        lists(j, texts),
{
    if let Some(v) = j {
        crate::decode::texts_are_read_one_by_one(v);
        assert forall|i: int| 0 <= i < texts.len() implies (v matches Json::Array(a) && (
        a@[i] matches Json::Str(s) && s@ == (#[trigger] texts[i])@)) by {
            assert(views(texts)[i] == texts[i]@);
        }
        assert(views(texts).len() == texts.len());
    } else {
        assert(views(texts).len() == texts.len());
    }
}

/// The policies, graces and lists of the buses, and what is destroyed, are what their
/// keys say, and monitoring, nothing and none where the keys are left out.
pub proof fn a_bus_setting_is_what_its_key_says(c: Config, j: Json)
    requires
        config_is(c, j),
    ensures
        match c.power.policy {
            PowerPolicy::Monitor => set_to(j, "power"@, "policy"@) is None || (set_to(
                j,
                "power"@,
                "policy"@,
            ) matches Some(Json::Str(s)) && s@ == "monitor"@),
            PowerPolicy::TriggerOnce => set_to(j, "power"@, "policy"@) matches Some(Json::Str(s))
                && s@ == "trigger-once"@,
            PowerPolicy::AcRequired => set_to(j, "power"@, "policy"@) matches Some(Json::Str(s))
                && s@ == "ac-required"@,
        },
        number_or_nought(set_to(j, "power"@, "grace_secs"@), c.power.grace_secs),
        truth_or(set_to(j, "power"@, "require_locked"@), c.power.require_locked, false),
        kills_or_monitors(set_to(j, "network"@, "policy"@), c.network.policy is Kill),
        number_or_nought(set_to(j, "network"@, "grace_secs"@), c.network.grace_secs),
        lists(set_to(j, "network"@, "interfaces"@), c.network.interfaces@),
        kills_or_monitors(set_to(j, "lid"@, "policy"@), c.lid.policy is Kill),
        number_or_nought(set_to(j, "lid"@, "grace_secs"@), c.lid.grace_secs),
        kills_or_monitors(set_to(j, "pci"@, "policy"@), c.pci.policy is Kill),
        lists(set_to(j, "pci"@, "ignore"@), c.pci.ignore@),
        kills_or_monitors(set_to(j, "display"@, "policy"@), c.display.policy is Kill),
        lists(set_to(j, "display"@, "ignore"@), c.display.ignore@),
        lists(set_to(j, "destruction"@, "files_to_remove"@), c.destruction.files_to_remove@),
        lists(set_to(j, "destruction"@, "folders_to_remove"@), c.destruction.folders_to_remove@),
        truth_or(set_to(j, "destruction"@, "melt_self"@), c.destruction.melt_self, false),
        truth_or(set_to(j, "destruction"@, "do_sync"@), c.destruction.do_sync, true),
        truth_or(set_to(j, "destruction"@, "do_wipe_swap"@), c.destruction.do_wipe_swap, false),
        match c.destruction.swap_device {
            Some(d) => set_to(j, "destruction"@, "swap_device"@) matches Some(Json::Str(s)) && s@
                == d@,
            None => set_to(j, "destruction"@, "swap_device"@) is None,
        },
{
    reveal_strlit("monitor");
    reveal_strlit("kill");
    reveal_strlit("trigger-once");
    reveal_strlit("ac-required");
    texts_are_listed(within(j.at("network"@), "interfaces"@), c.network.interfaces@);
    texts_are_listed(within(j.at("pci"@), "ignore"@), c.pci.ignore@);
    texts_are_listed(within(j.at("display"@), "ignore"@), c.display.ignore@);
    texts_are_listed(within(j.at("destruction"@), "files_to_remove"@), c.destruction.files_to_remove@);
    texts_are_listed(
        within(j.at("destruction"@), "folders_to_remove"@),
        c.destruction.folders_to_remove@,
    );
}

/// The devices of a section, in the order of the list.
pub open spec fn devices_under(j: Json, section: Seq<char>) -> Seq<Json> {
    match set_to(j, section, "devices"@) {
        Some(Json::Array(v)) => v@,
        _ => Seq::empty(),
    }
}

/// The USB whitelist holds the devices of its own section, in order: by vendor and
/// product, and one of each where no count is given.
pub proof fn the_whitelist_has_its_section(c: Config, j: Json, i: int)
    requires
        config_is(c, j),
    ensures
        c.whitelist.devices@.len() == devices_under(j, "whitelist"@).len(),
        0 <= i < c.whitelist.devices@.len() ==> {
            let e = c.whitelist.devices@[i];
            let d = devices_under(j, "whitelist"@)[i];
            &&& (d.at("vendor_id"@) matches Some(Json::Str(s)) && s@ == e.vendor_id@)
            &&& (d.at("product_id"@) matches Some(Json::Str(s)) && s@ == e.product_id@)
            &&& d.at("count"@) == Some(Json::Uint(e.count as u64)) || (d.at("count"@) is None
                && e.count == 1)
        },
{
    if 0 <= i < c.whitelist.devices@.len() {
        assert(usb_is(c.whitelist.devices@[i], devices_under(j, "whitelist"@)[i]));
    }
}

/// The Thunderbolt whitelist holds the unique ids of its own section, in order.
pub proof fn the_thunderbolt_whitelist_has_its_section(c: Config, j: Json, i: int)
    requires
        config_is(c, j),
    ensures
        c.thunderbolt_whitelist.devices@.len() == devices_under(j, "thunderbolt_whitelist"@).len(),
        0 <= i < c.thunderbolt_whitelist.devices@.len() ==> (devices_under(
            j,
            "thunderbolt_whitelist"@,
        )[i].at("unique_id"@) matches Some(Json::Str(s)) && s@
            == c.thunderbolt_whitelist.devices@[i].unique_id@),
{
    if 0 <= i < c.thunderbolt_whitelist.devices@.len() {
        assert(thunderbolt_is(
            c.thunderbolt_whitelist.devices@[i],
            devices_under(j, "thunderbolt_whitelist"@)[i],
        ));
    }
}

/// The SD card whitelist holds the serials of its own section, in order.
pub proof fn the_card_whitelist_has_its_section(c: Config, j: Json, i: int)
    requires
        config_is(c, j),
    ensures
        c.sdcard_whitelist.devices@.len() == devices_under(j, "sdcard_whitelist"@).len(),
        0 <= i < c.sdcard_whitelist.devices@.len() ==> (devices_under(j, "sdcard_whitelist"@)[i].at(
            "serial"@,
        ) matches Some(Json::Str(s)) && s@ == c.sdcard_whitelist.devices@[i].serial@),
{
    if 0 <= i < c.sdcard_whitelist.devices@.len() {
        assert(card_is(
            c.sdcard_whitelist.devices@[i],
            devices_under(j, "sdcard_whitelist"@)[i],
        ));
    }
}

/// The commands to run are the lists of their section, word by word.
pub proof fn the_commands_have_their_section(c: Config, j: Json, i: int, k: int)
    requires
        config_is(c, j),
        0 <= i < c.commands.kill_commands@.len(),
    ensures
        ({
            let words = c.commands.kill_commands@[i]@;
            &&& set_to(j, "commands"@, "kill_commands"@) matches Some(Json::Array(v))
            &&& v@.len() == c.commands.kill_commands@.len()
            &&& v@[i] matches Json::Array(w)
            &&& w@.len() == words.len()
            &&& in_shape(j) && 0 <= k < words.len() ==> (w@[k] matches Json::Str(s) && s@ == words[k]@)
        }),
{
    let v = set_to(j, "commands"@, "kill_commands"@)->0->Array_0@;
    assert(command_is(c.commands.kill_commands@[i], v[i]));
    let words = c.commands.kill_commands@[i]@;
    let w = v[i]->Array_0@;
    assert(views(words).len() == words.len());
    assert(text_values(w).len() == w.len());
    if in_shape(j) && 0 <= k < words.len() {
        assert(command_reads(v[i]));
        assert(w[k].text() is Some);
        assert(views(words)[k] == words[k]@);
        assert(text_values(w)[k] == w[k].text()->0);
    }
}

/// A file is in shape only where each key of it is one of the eleven sections.
pub proof fn only_known_sections(v: Seq<(String, Json)>, j: Json, i: int)
    requires
        j matches Json::Object(e) && e@ == v,
        in_shape(j),
        0 <= i < v.len(),
    ensures
        ({
            let k = v[i].0@;
            k == "general"@ || k == "whitelist"@ || k == "destruction"@ || k == "commands"@ || k
                == "thunderbolt_whitelist"@ || k == "sdcard_whitelist"@ || k == "power"@ || k
                == "network"@ || k == "lid"@ || k == "pci"@ || k == "display"@
        }),
{
    let known = SECTIONS@;
    assert(crate::decode::is_known(v[i].0@, known));
    let n = choose|n: int| 0 <= n < known.len() && (#[trigger] known[n])@ == v[i].0@;
    assert(n == 0 || n == 1 || n == 2 || n == 3 || n == 4 || n == 5 || n == 6 || n == 7 || n == 8 || n
        == 9 || n == 10);
}

// ---- which files are read ------------------------------------------------

/// Whether a key is left out or a truth value.
pub open spec fn truth_if_any(j: Option<Json>) -> bool {
    j is None || (j matches Some(Json::Bool(_)))
}

/// Whether a key is left out or a number.
pub open spec fn number_if_any(j: Option<Json>) -> bool {
    j is None || (j matches Some(Json::Uint(_)))
}

/// Whether a key is left out or a list of texts.
pub open spec fn texts_if_any(j: Option<Json>) -> bool {
    j is None || (j matches Some(Json::Array(v)) && forall|i: int|
        0 <= i < v@.len() ==> (#[trigger] v@[i]) is Str)
}

/// Whether a key is left out or says to kill or to monitor.
pub open spec fn policy_if_any(j: Option<Json>) -> bool {
    j is None || (j matches Some(Json::Str(s)) && (s@ == "kill"@ || s@ == "monitor"@))
}

/// Whether a section is left out or a table.
pub open spec fn table_if_any(j: Option<Json>) -> bool {
    j is None || (j matches Some(Json::Object(_)))
}

proof fn texts_read_if_any(j: Option<Json>)
    ensures
        texts_in(j) is Some <==> texts_if_any(j),
{
    if let Some(v) = j {
        crate::decode::texts_are_read_one_by_one(v);
    }
}

/// The settings of a file that is read are each of their kind: truth values, whole
/// numbers, texts and lists of texts, and a policy is one of its words. A file in which
/// one is of another kind is not read.
pub proof fn every_setting_is_of_its_kind(j: Json)
    requires
        in_shape(j),
    ensures
        j is Object,
        table_if_any(j.at("general"@)) && table_if_any(j.at("destruction"@)) && table_if_any(
            j.at("power"@),
        ) && table_if_any(j.at("network"@)) && table_if_any(j.at("lid"@)) && table_if_any(
            j.at("pci"@),
        ) && table_if_any(j.at("display"@)) && table_if_any(j.at("commands"@)) && table_if_any(
            j.at("whitelist"@),
        ) && table_if_any(j.at("thunderbolt_whitelist"@)) && table_if_any(j.at("sdcard_whitelist"@)),
        number_if_any(set_to(j, "general"@, "sleep_ms"@)),
        set_to(j, "general"@, "log_file"@) is None || (set_to(j, "general"@, "log_file"@) matches Some(
            Json::Str(_),
        )),
        truth_if_any(set_to(j, "general"@, "dry_run"@)),
        truth_if_any(set_to(j, "general"@, "watch_usb"@)),
        truth_if_any(set_to(j, "general"@, "watch_thunderbolt"@)),
        truth_if_any(set_to(j, "general"@, "watch_sdcard"@)),
        truth_if_any(set_to(j, "general"@, "watch_power"@)),
        truth_if_any(set_to(j, "general"@, "watch_network"@)),
        truth_if_any(set_to(j, "general"@, "watch_lid"@)),
        truth_if_any(set_to(j, "general"@, "watch_pci"@)),
        truth_if_any(set_to(j, "general"@, "watch_display"@)),
        truth_if_any(set_to(j, "general"@, "require_auth"@)),
        texts_if_any(set_to(j, "destruction"@, "files_to_remove"@)),
        texts_if_any(set_to(j, "destruction"@, "folders_to_remove"@)),
        truth_if_any(set_to(j, "destruction"@, "melt_self"@)),
        truth_if_any(set_to(j, "destruction"@, "do_sync"@)),
        truth_if_any(set_to(j, "destruction"@, "do_wipe_swap"@)),
        set_to(j, "destruction"@, "swap_device"@) is None || (set_to(
            j,
            "destruction"@,
            "swap_device"@,
        ) matches Some(Json::Str(_))),
        set_to(j, "power"@, "policy"@) is None || (set_to(j, "power"@, "policy"@) matches Some(
            Json::Str(s),
        ) && (s@ == "monitor"@ || s@ == "trigger-once"@ || s@ == "ac-required"@)),
        number_if_any(set_to(j, "power"@, "grace_secs"@)),
        truth_if_any(set_to(j, "power"@, "require_locked"@)),
        policy_if_any(set_to(j, "network"@, "policy"@)),
        number_if_any(set_to(j, "network"@, "grace_secs"@)),
        texts_if_any(set_to(j, "network"@, "interfaces"@)),
        policy_if_any(set_to(j, "lid"@, "policy"@)),
        number_if_any(set_to(j, "lid"@, "grace_secs"@)),
        policy_if_any(set_to(j, "pci"@, "policy"@)),
        texts_if_any(set_to(j, "pci"@, "ignore"@)),
        policy_if_any(set_to(j, "display"@, "policy"@)),
        texts_if_any(set_to(j, "display"@, "ignore"@)),
{
    texts_read_if_any(set_to(j, "destruction"@, "files_to_remove"@));
    texts_read_if_any(set_to(j, "destruction"@, "folders_to_remove"@));
    texts_read_if_any(set_to(j, "network"@, "interfaces"@));
    texts_read_if_any(set_to(j, "pci"@, "ignore"@));
    texts_read_if_any(set_to(j, "display"@, "ignore"@));
}

/// A section is read exactly where each of its keys is one of its own and of its kind:
/// nothing more is asked of it.
pub proof fn a_section_is_read_where_its_keys_are_right(j: Option<Json>)
    ensures
        power_reads(j) <==> section_of(j, POWER@) && number_if_any(within(j, "grace_secs"@))
            && truth_if_any(within(j, "require_locked"@)) && (within(j, "policy"@) is None || (within(
            j,
            "policy"@,
        ) matches Some(Json::Str(s)) && (s@ == "monitor"@ || s@ == "trigger-once"@ || s@
            == "ac-required"@))),
        network_reads(j) <==> section_of(j, NETWORK@) && policy_if_any(within(j, "policy"@))
            && number_if_any(within(j, "grace_secs"@)) && texts_if_any(within(j, "interfaces"@)),
        lid_reads(j) <==> section_of(j, LID@) && policy_if_any(within(j, "policy"@))
            && number_if_any(within(j, "grace_secs"@)),
        ignoring_reads(j) <==> section_of(j, IGNORING@) && policy_if_any(within(j, "policy"@))
            && texts_if_any(within(j, "ignore"@)),
        destruction_reads(j) <==> section_of(j, DESTRUCTION@) && texts_if_any(
            within(j, "files_to_remove"@),
        ) && texts_if_any(within(j, "folders_to_remove"@)) && truth_if_any(within(j, "melt_self"@))
            && truth_if_any(within(j, "do_sync"@)) && truth_if_any(within(j, "do_wipe_swap"@)) && (
        within(j, "swap_device"@) is None || (within(j, "swap_device"@) matches Some(Json::Str(_)))),
{
    texts_read_if_any(within(j, "files_to_remove"@));
    texts_read_if_any(within(j, "folders_to_remove"@));
    texts_read_if_any(within(j, "interfaces"@));
    texts_read_if_any(within(j, "ignore"@));
    reveal_strlit("monitor");
    reveal_strlit("kill");
    reveal_strlit("trigger-once");
    reveal_strlit("ac-required");
    assert("monitor"@.len() == 7 && "kill"@.len() == 4 && "trigger-once"@.len() == 12
        && "ac-required"@.len() == 11);
}

/// The keys that each section knows.
pub proof fn the_keys_of_each_section(k: Seq<char>)
    ensures
        crate::decode::is_known(k, POWER@) <==> k == "policy"@ || k == "grace_secs"@ || k
            == "require_locked"@,
        crate::decode::is_known(k, NETWORK@) <==> k == "policy"@ || k == "grace_secs"@ || k
            == "interfaces"@,
        crate::decode::is_known(k, LID@) <==> k == "policy"@ || k == "grace_secs"@,
        crate::decode::is_known(k, IGNORING@) <==> k == "policy"@ || k == "ignore"@,
        crate::decode::is_known(k, DEVICES@) <==> k == "devices"@,
        crate::decode::is_known(k, USB@) <==> k == "vendor_id"@ || k == "product_id"@ || k == "count"@,
        crate::decode::is_known(k, THUNDERBOLT@) <==> k == "unique_id"@,
        crate::decode::is_known(k, CARD@) <==> k == "serial"@,
        crate::decode::is_known(k, COMMANDS@) <==> k == "kill_commands"@,
{
    known_by_place(k, POWER@);
    known_by_place(k, NETWORK@);
    known_by_place(k, LID@);
    known_by_place(k, IGNORING@);
    known_by_place(k, DEVICES@);
    known_by_place(k, USB@);
    known_by_place(k, THUNDERBOLT@);
    known_by_place(k, CARD@);
    known_by_place(k, COMMANDS@);
}

proof fn known_by_place(k: Seq<char>, known: Seq<&'static str>)
    requires
        1 <= known.len() <= 3,
    ensures
        crate::decode::is_known(k, known) <==> known[0]@ == k || (known.len() > 1 && known[1]@ == k) || (
        known.len() > 2 && known[2]@ == k),
{
    if crate::decode::is_known(k, known) {
        let n = choose|n: int| 0 <= n < known.len() && (#[trigger] known[n])@ == k;
        assert(n == 0 || n == 1 || n == 2);
    }
}

/// The entries of the whitelists are read exactly where each is a table of its own keys
/// with the texts that it needs, and a USB count fits.
pub proof fn an_entry_is_read_exactly_when(j: Json)
    ensures
        usb_reads(j) <==> table_of(j, USB@) && (j.at("vendor_id"@) matches Some(Json::Str(_))) && (j.at(
            "product_id"@,
        ) matches Some(Json::Str(_))) && (j.at("count"@) is None || (j.at("count"@) matches Some(
            Json::Uint(n),
        ) && n <= 4294967295)),
        thunderbolt_reads(j) <==> table_of(j, THUNDERBOLT@) && (j.at("unique_id"@) matches Some(
            Json::Str(_),
        )),
        card_reads(j) <==> table_of(j, CARD@) && (j.at("serial"@) matches Some(Json::Str(_))),
{
}

} // verus!
