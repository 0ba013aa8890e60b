//! The configuration file: TOML in the shape the loader accepts. Every field is
//! emitted, defaults included.

use vstd::prelude::*;

use super::emit::{
    card_models, cards, commands_model, commands_setting, depth, devices_model, devices_setting,
    empty_table, kill_word, kills, list_model, numbers_fit, power_word, put, put_bool, put_number,
    put_text, put_texts, shallow_entries, shallow_items, table_model, texts_are_shallow,
    texts_model, thunderbolt_models, thunderbolts, Setting, SettingModel,
};
use super::{
    card_values, command_values, thunderbolt_values, usb_values, Config, DestructionConfig,
    DisplayConfig, DisplayPolicy, GeneralConfig, LidConfig, LidPolicy, NetworkConfig, NetworkPolicy,
    PciConfig, PciPolicy, PowerConfig, PowerPolicy, WhitelistEntry,
};
use crate::decode::told;
use crate::document::{
    distinct_keys, print, printable, printable_list, printable_table, printable_text, reads_as,
    text_prints, tidy, tidy_list, tidy_table, toml_print,
};
use crate::text::{cat2, views};

verus! {

// ---- writing -------------------------------------------------------------

/// `[general]`
pub open spec fn general_file(g: GeneralConfig) -> Seq<(Seq<char>, SettingModel)> {
    seq![
        ("sleep_ms"@, SettingModel::Integer(g.sleep_ms as int)),
        ("log_file"@, SettingModel::Text(g.log_file@)),
        ("dry_run"@, SettingModel::Boolean(g.dry_run)),
        ("watch_usb"@, SettingModel::Boolean(g.watch_usb)),
        ("watch_thunderbolt"@, SettingModel::Boolean(g.watch_thunderbolt)),
        ("watch_sdcard"@, SettingModel::Boolean(g.watch_sdcard)),
        ("watch_power"@, SettingModel::Boolean(g.watch_power)),
        ("watch_network"@, SettingModel::Boolean(g.watch_network)),
        ("watch_lid"@, SettingModel::Boolean(g.watch_lid)),
        ("watch_pci"@, SettingModel::Boolean(g.watch_pci)),
        ("watch_display"@, SettingModel::Boolean(g.watch_display)),
        ("require_auth"@, SettingModel::Boolean(g.require_auth)),
    ]
}

/// One USB device of the whitelist.
pub open spec fn usb_file(e: WhitelistEntry) -> Seq<(Seq<char>, SettingModel)> {
    seq![
        ("vendor_id"@, SettingModel::Text(e.vendor_id@)),
        ("product_id"@, SettingModel::Text(e.product_id@)),
        ("count"@, SettingModel::Integer(e.count as int)),
    ]
}

/// The USB devices of the whitelist.
pub open spec fn usb_files(devices: Seq<WhitelistEntry>) -> Seq<SettingModel> {
    devices.map_values(|e: WhitelistEntry| SettingModel::Table(usb_file(e)))
}

/// `[destruction]`, without a swap device where none is set.
pub open spec fn destruction_file(d: DestructionConfig) -> Seq<(Seq<char>, SettingModel)> {
    let fixed = seq![
        ("files_to_remove"@, texts_model(views(d.files_to_remove@))),
        ("folders_to_remove"@, texts_model(views(d.folders_to_remove@))),
        ("melt_self"@, SettingModel::Boolean(d.melt_self)),
        ("do_sync"@, SettingModel::Boolean(d.do_sync)),
        ("do_wipe_swap"@, SettingModel::Boolean(d.do_wipe_swap)),
    ];
    match d.swap_device {
        Some(s) => fixed.push(("swap_device"@, SettingModel::Text(s@))),
        None => fixed,
    }
}

/// `[power]`
pub open spec fn power_file(p: PowerConfig) -> Seq<(Seq<char>, SettingModel)> {
    seq![
        ("policy"@, SettingModel::Text(power_word(p.policy))),
        ("grace_secs"@, SettingModel::Integer(p.grace_secs as int)),
        ("require_locked"@, SettingModel::Boolean(p.require_locked)),
    ]
}

/// `[network]`
pub open spec fn network_file(n: NetworkConfig) -> Seq<(Seq<char>, SettingModel)> {
    seq![
        ("policy"@, SettingModel::Text(kill_word(n.policy is Kill))),
        ("grace_secs"@, SettingModel::Integer(n.grace_secs as int)),
        ("interfaces"@, texts_model(views(n.interfaces@))),
    ]
}

/// `[lid]`
pub open spec fn lid_file(l: LidConfig) -> Seq<(Seq<char>, SettingModel)> {
    seq![
        ("policy"@, SettingModel::Text(kill_word(l.policy is Kill))),
        ("grace_secs"@, SettingModel::Integer(l.grace_secs as int)),
    ]
}

/// `[pci]`
pub open spec fn pci_file(p: PciConfig) -> Seq<(Seq<char>, SettingModel)> {
    seq![
        ("policy"@, SettingModel::Text(kill_word(p.policy is Kill))),
        ("ignore"@, texts_model(views(p.ignore@))),
    ]
}

/// `[display]`
pub open spec fn display_file(d: DisplayConfig) -> Seq<(Seq<char>, SettingModel)> {
    seq![
        ("policy"@, SettingModel::Text(kill_word(d.policy is Kill))),
        ("ignore"@, texts_model(views(d.ignore@))),
    ]
}

/// The whole file.
pub open spec fn config_file(c: Config) -> Seq<(Seq<char>, SettingModel)> {
    seq![
        ("general"@, SettingModel::Table(general_file(c.general))),
        ("whitelist"@, devices_model(usb_files(c.whitelist.devices@))),
        ("destruction"@, SettingModel::Table(destruction_file(c.destruction))),
        ("commands"@, commands_model(c.commands)),
        (
            "thunderbolt_whitelist"@,
            devices_model(
                thunderbolt_models(c.thunderbolt_whitelist.devices@),
            ),
        ),
        (
            "sdcard_whitelist"@,
            devices_model(
                card_models(c.sdcard_whitelist.devices@),
            ),
        ),
        ("power"@, SettingModel::Table(power_file(c.power))),
        ("network"@, SettingModel::Table(network_file(c.network))),
        ("lid"@, SettingModel::Table(lid_file(c.lid))),
        ("pci"@, SettingModel::Table(pci_file(c.pci))),
        ("display"@, SettingModel::Table(display_file(c.display))),
    ]
}

fn general_setting(g: &GeneralConfig) -> (r: Setting)
    requires
        g.sleep_ms <= i64::MAX,
    ensures
        r.model() == SettingModel::Table(general_file(*g)),
{
    let mut t = empty_table();
    put_number(&mut t, "sleep_ms", g.sleep_ms);
    put_text(&mut t, "log_file", g.log_file.as_str());
    put_bool(&mut t, "dry_run", g.dry_run);
    put_bool(&mut t, "watch_usb", g.watch_usb);
    put_bool(&mut t, "watch_thunderbolt", g.watch_thunderbolt);
    put_bool(&mut t, "watch_sdcard", g.watch_sdcard);
    put_bool(&mut t, "watch_power", g.watch_power);
    put_bool(&mut t, "watch_network", g.watch_network);
    put_bool(&mut t, "watch_lid", g.watch_lid);
    put_bool(&mut t, "watch_pci", g.watch_pci);
    put_bool(&mut t, "watch_display", g.watch_display);
    put_bool(&mut t, "require_auth", g.require_auth);
    assert(table_model(t) =~= general_file(*g));
    Setting::Table(t)
}

fn usb_setting(devices: &[WhitelistEntry]) -> (r: Setting)
    ensures
        r.model() == devices_model(usb_files(devices@)),
{
    let mut list: Vec<Setting> = Vec::new();
    let mut i: usize = 0;
    while i < devices.len()
        invariant
            i <= devices@.len(),
            list@.len() == i,
            forall|k: int|
                0 <= k < i ==> (#[trigger] list@[k]).model() == SettingModel::Table(
                    usb_file(devices@[k]),
                ),
        decreases devices@.len() - i,
    {
        let mut t = empty_table();
        put_text(&mut t, "vendor_id", devices[i].vendor_id.as_str());
        put_text(&mut t, "product_id", devices[i].product_id.as_str());
        put_number(&mut t, "count", devices[i].count as u64);
        assert(table_model(t) =~= usb_file(devices@[i as int]));
        list.push(Setting::Table(t));
        i += 1;
    }
    assert(list_model(list) =~= usb_files(devices@));
    devices_setting(list)
}

fn destruction_setting(d: &DestructionConfig) -> (r: Setting)
    ensures
        r.model() == SettingModel::Table(destruction_file(*d)),
{
    let mut t = empty_table();
    put_texts(&mut t, "files_to_remove", d.files_to_remove.as_slice());
    put_texts(&mut t, "folders_to_remove", d.folders_to_remove.as_slice());
    put_bool(&mut t, "melt_self", d.melt_self);
    put_bool(&mut t, "do_sync", d.do_sync);
    put_bool(&mut t, "do_wipe_swap", d.do_wipe_swap);
    if let Some(s) = &d.swap_device {
        put_text(&mut t, "swap_device", s.as_str());
    }
    assert(table_model(t) =~= destruction_file(*d));
    Setting::Table(t)
}

fn power_setting(p: &PowerConfig) -> (r: Setting)
    requires
        p.grace_secs <= i64::MAX,
    ensures
        r.model() == SettingModel::Table(power_file(*p)),
{
    let word = match p.policy {
        PowerPolicy::TriggerOnce => "trigger-once",
        PowerPolicy::AcRequired => "ac-required",
        PowerPolicy::Monitor => "monitor",
    };
    let mut t = empty_table();
    put_text(&mut t, "policy", word);
    put_number(&mut t, "grace_secs", p.grace_secs);
    put_bool(&mut t, "require_locked", p.require_locked);
    assert(table_model(t) =~= power_file(*p));
    Setting::Table(t)
}

fn network_setting(n: &NetworkConfig) -> (r: Setting)
    requires
        n.grace_secs <= i64::MAX,
    ensures
        r.model() == SettingModel::Table(network_file(*n)),
{
    let mut t = empty_table();
    put_text(&mut t, "policy", kills(n.policy == NetworkPolicy::Kill));
    put_number(&mut t, "grace_secs", n.grace_secs);
    put_texts(&mut t, "interfaces", n.interfaces.as_slice());
    assert(table_model(t) =~= network_file(*n));
    Setting::Table(t)
}

fn lid_setting(l: &LidConfig) -> (r: Setting)
    requires
        l.grace_secs <= i64::MAX,
    ensures
        r.model() == SettingModel::Table(lid_file(*l)),
{
    let mut t = empty_table();
    put_text(&mut t, "policy", kills(l.policy == LidPolicy::Kill));
    put_number(&mut t, "grace_secs", l.grace_secs);
    assert(table_model(t) =~= lid_file(*l));
    Setting::Table(t)
}

fn pci_setting(p: &PciConfig) -> (r: Setting)
    ensures
        r.model() == SettingModel::Table(pci_file(*p)),
{
    let mut t = empty_table();
    put_text(&mut t, "policy", kills(p.policy == PciPolicy::Kill));
    put_texts(&mut t, "ignore", p.ignore.as_slice());
    assert(table_model(t) =~= pci_file(*p));
    Setting::Table(t)
}

fn display_setting(d: &DisplayConfig) -> (r: Setting)
    ensures
        r.model() == SettingModel::Table(display_file(*d)),
{
    let mut t = empty_table();
    put_text(&mut t, "policy", kills(d.policy == DisplayPolicy::Kill));
    put_texts(&mut t, "ignore", d.ignore.as_slice());
    assert(table_model(t) =~= display_file(*d));
    Setting::Table(t)
}

/// The configuration as the file holds it.
pub fn file_setting(c: &Config) -> (r: Setting)
    requires
        numbers_fit(*c),
    ensures
        r.model() == SettingModel::Table(config_file(*c)),
{
    let mut t = empty_table();
    put(&mut t, "general", general_setting(&c.general));
    put(&mut t, "whitelist", usb_setting(c.whitelist.devices.as_slice()));
    put(&mut t, "destruction", destruction_setting(&c.destruction));
    put(&mut t, "commands", commands_setting(&c.commands));
    put(
        &mut t,
        "thunderbolt_whitelist",
        thunderbolts(c.thunderbolt_whitelist.devices.as_slice()),
    );
    put(&mut t, "sdcard_whitelist", cards(c.sdcard_whitelist.devices.as_slice()));
    put(&mut t, "power", power_setting(&c.power));
    put(&mut t, "network", network_setting(&c.network));
    put(&mut t, "lid", lid_setting(&c.lid));
    put(&mut t, "pci", pci_setting(&c.pci));
    put(&mut t, "display", display_setting(&c.display));
    assert(table_model(t) =~= config_file(*c));
    Setting::Table(t)
}

// ---- keys ----------------------------------------------------------------

/// The length of a key with its first and its last character. The keys of one table
/// differ in it.
pub open spec fn mark(key: Seq<char>) -> (nat, char, char) {
    (key.len(), key[0], key[key.len() - 1])
}

/// Keys whose marks differ are distinct.
proof fn marks_tell_keys_apart(t: Seq<(Seq<char>, SettingModel)>, m: Seq<(nat, char, char)>)
    requires
        t.len() == m.len(),
        forall|i: int| 0 <= i < t.len() ==> mark((#[trigger] t[i]).0) == m[i],
        m.no_duplicates(),
    ensures
        distinct_keys(t),
{
    assert forall|i: int, j: int| 0 <= i < j < t.len() implies (#[trigger] t[i]).0 != (
    #[trigger] t[j]).0 by {
        assert(m[i] != m[j]);
    }
}

proof fn general_is_tidy(g: GeneralConfig)
    ensures
        tidy_table(general_file(g)),
{
    reveal_strlit("sleep_ms");
    reveal_strlit("log_file");
    reveal_strlit("dry_run");
    reveal_strlit("watch_usb");
    reveal_strlit("watch_thunderbolt");
    reveal_strlit("watch_sdcard");
    reveal_strlit("watch_power");
    reveal_strlit("watch_network");
    reveal_strlit("watch_lid");
    reveal_strlit("watch_pci");
    reveal_strlit("watch_display");
    reveal_strlit("require_auth");
    marks_tell_keys_apart(
        general_file(g),
        seq![
            (8nat, 's', 's'),
            (8nat, 'l', 'e'),
            (7nat, 'd', 'n'),
            (9nat, 'w', 'b'),
            (17nat, 'w', 't'),
            (12nat, 'w', 'd'),
            (11nat, 'w', 'r'),
            (13nat, 'w', 'k'),
            (9nat, 'w', 'd'),
            (9nat, 'w', 'i'),
            (13nat, 'w', 'y'),
            (12nat, 'r', 'h'),
        ],
    );
}

proof fn usb_is_tidy(e: WhitelistEntry)
    ensures
        tidy_table(usb_file(e)),
{
    reveal_strlit("vendor_id");
    reveal_strlit("product_id");
    reveal_strlit("count");
    marks_tell_keys_apart(
        usb_file(e),
        seq![(9nat, 'v', 'd'), (10nat, 'p', 'd'), (5nat, 'c', 't')],
    );
}

proof fn texts_are_tidy(list: Seq<Seq<char>>)
    ensures
        tidy(texts_model(list)),
{
    assert(tidy_list(texts_model(list)->List_0));
}

proof fn destruction_is_tidy(d: DestructionConfig)
    ensures
        tidy_table(destruction_file(d)),
{
    reveal_strlit("files_to_remove");
    reveal_strlit("folders_to_remove");
    reveal_strlit("melt_self");
    reveal_strlit("do_sync");
    reveal_strlit("do_wipe_swap");
    reveal_strlit("swap_device");
    let fixed = seq![
        (15nat, 'f', 'e'),
        (17nat, 'f', 'e'),
        (9nat, 'm', 'f'),
        (7nat, 'd', 'c'),
        (12nat, 'd', 'p'),
    ];
    texts_are_tidy(views(d.files_to_remove@));
    texts_are_tidy(views(d.folders_to_remove@));
    match d.swap_device {
        Some(_) => {
            marks_tell_keys_apart(destruction_file(d), fixed.push((11nat, 's', 'e')));
        },
        None => {
            marks_tell_keys_apart(destruction_file(d), fixed);
        },
    }
}

proof fn power_is_tidy(p: PowerConfig)
    ensures
        tidy_table(power_file(p)),
{
    reveal_strlit("policy");
    reveal_strlit("grace_secs");
    reveal_strlit("require_locked");
    marks_tell_keys_apart(
        power_file(p),
        seq![(6nat, 'p', 'y'), (10nat, 'g', 's'), (14nat, 'r', 'd')],
    );
}

proof fn network_is_tidy(n: NetworkConfig)
    ensures
        tidy_table(network_file(n)),
{
    reveal_strlit("policy");
    reveal_strlit("grace_secs");
    reveal_strlit("interfaces");
    texts_are_tidy(views(n.interfaces@));
    marks_tell_keys_apart(
        network_file(n),
        seq![(6nat, 'p', 'y'), (10nat, 'g', 's'), (10nat, 'i', 's')],
    );
}

proof fn small_tables_are_tidy(l: LidConfig, p: PciConfig, d: DisplayConfig)
    ensures
        tidy_table(lid_file(l)),
        tidy_table(pci_file(p)),
        tidy_table(display_file(d)),
{
    reveal_strlit("policy");
    reveal_strlit("grace_secs");
    reveal_strlit("ignore");
    texts_are_tidy(views(p.ignore@));
    texts_are_tidy(views(d.ignore@));
    marks_tell_keys_apart(lid_file(l), seq![(6nat, 'p', 'y'), (10nat, 'g', 's')]);
    marks_tell_keys_apart(pci_file(p), seq![(6nat, 'p', 'y'), (6nat, 'i', 'e')]);
    marks_tell_keys_apart(display_file(d), seq![(6nat, 'p', 'y'), (6nat, 'i', 'e')]);
}

/// A table of one list of tidy items.
proof fn devices_are_tidy(items: Seq<SettingModel>)
    requires
        tidy_list(items),
    ensures
        tidy(devices_model(items)),
{
    let t = seq![("devices"@, SettingModel::List(items))];
    assert(tidy(SettingModel::List(items)));
    assert(tidy_table(t));
}

proof fn lists_are_tidy(c: Config)
    ensures
        tidy(devices_model(usb_files(c.whitelist.devices@))),
        tidy(commands_model(c.commands)),
        tidy(
            devices_model(
                thunderbolt_models(c.thunderbolt_whitelist.devices@),
            ),
        ),
        tidy(
            devices_model(
                card_models(c.sdcard_whitelist.devices@),
            ),
        ),
{
    let usb = usb_files(c.whitelist.devices@);
    assert forall|i: int| 0 <= i < usb.len() implies tidy(#[trigger] usb[i]) by {
        usb_is_tidy(c.whitelist.devices@[i]);
    }
    devices_are_tidy(usb);
    let tb = thunderbolt_models(c.thunderbolt_whitelist.devices@);
    assert forall|i: int| 0 <= i < tb.len() implies tidy(#[trigger] tb[i]) by {
        let e = c.thunderbolt_whitelist.devices@[i];
        assert(tidy_table(seq![("unique_id"@, SettingModel::Text(e.unique_id@))]));
    }
    devices_are_tidy(tb);
    let sd = card_models(c.sdcard_whitelist.devices@);
    assert forall|i: int| 0 <= i < sd.len() implies tidy(#[trigger] sd[i]) by {
        let e = c.sdcard_whitelist.devices@[i];
        assert(tidy_table(seq![("serial"@, SettingModel::Text(e.serial@))]));
    }
    devices_are_tidy(sd);
    let ks = c.commands.kill_commands@.map_values(|v: Vec<String>| texts_model(views(v@)));
    assert forall|i: int| 0 <= i < ks.len() implies tidy(#[trigger] ks[i]) by {
        texts_are_tidy(views(c.commands.kill_commands@[i]@));
    }
    assert(tidy(SettingModel::List(ks)));
    assert(tidy_table(seq![("kill_commands"@, SettingModel::List(ks))]));
}

/// The file has no key twice.
proof fn file_is_tidy(c: Config)
    ensures
        tidy(SettingModel::Table(config_file(c))),
{
    reveal_strlit("general");
    reveal_strlit("whitelist");
    reveal_strlit("destruction");
    reveal_strlit("commands");
    reveal_strlit("thunderbolt_whitelist");
    reveal_strlit("sdcard_whitelist");
    reveal_strlit("power");
    reveal_strlit("network");
    reveal_strlit("lid");
    reveal_strlit("pci");
    reveal_strlit("display");
    let t = config_file(c);
    marks_tell_keys_apart(
        t,
        seq![
            (7nat, 'g', 'l'),
            (9nat, 'w', 't'),
            (11nat, 'd', 'n'),
            (8nat, 'c', 's'),
            (21nat, 't', 't'),
            (16nat, 's', 't'),
            (5nat, 'p', 'r'),
            (7nat, 'n', 'k'),
            (3nat, 'l', 'd'),
            (3nat, 'p', 'i'),
            (7nat, 'd', 'y'),
        ],
    );
    general_is_tidy(c.general);
    destruction_is_tidy(c.destruction);
    power_is_tidy(c.power);
    network_is_tidy(c.network);
    small_tables_are_tidy(c.lid, c.pci, c.display);
    lists_are_tidy(c);
    assert(tidy_table(t));
}

/// The file nests no deeper than four lists and tables.
proof fn file_is_shallow(c: Config)
    ensures
        depth(SettingModel::Table(config_file(c))) <= 4,
{
    texts_are_shallow(views(c.destruction.files_to_remove@));
    texts_are_shallow(views(c.destruction.folders_to_remove@));
    texts_are_shallow(views(c.network.interfaces@));
    texts_are_shallow(views(c.pci.ignore@));
    texts_are_shallow(views(c.display.ignore@));
    shallow_entries(general_file(c.general), 0);
    shallow_entries(destruction_file(c.destruction), 1);
    shallow_entries(power_file(c.power), 0);
    shallow_entries(network_file(c.network), 1);
    shallow_entries(lid_file(c.lid), 0);
    shallow_entries(pci_file(c.pci), 1);
    shallow_entries(display_file(c.display), 1);
    let usb = usb_files(c.whitelist.devices@);
    assert forall|i: int| 0 <= i < usb.len() implies depth(#[trigger] usb[i]) <= 1 by {
        shallow_entries(usb_file(c.whitelist.devices@[i]), 0);
    }
    shallow_devices(usb);
    let tb = thunderbolt_models(c.thunderbolt_whitelist.devices@);
    assert forall|i: int| 0 <= i < tb.len() implies depth(#[trigger] tb[i]) <= 1 by {
        let e = c.thunderbolt_whitelist.devices@[i];
        shallow_entries(seq![("unique_id"@, SettingModel::Text(e.unique_id@))], 0);
    }
    shallow_devices(tb);
    let sd = card_models(c.sdcard_whitelist.devices@);
    assert forall|i: int| 0 <= i < sd.len() implies depth(#[trigger] sd[i]) <= 1 by {
        let e = c.sdcard_whitelist.devices@[i];
        shallow_entries(seq![("serial"@, SettingModel::Text(e.serial@))], 0);
    }
    shallow_devices(sd);
    let ks = c.commands.kill_commands@.map_values(|v: Vec<String>| texts_model(views(v@)));
    assert forall|i: int| 0 <= i < ks.len() implies depth(#[trigger] ks[i]) <= 1 by {
        texts_are_shallow(views(c.commands.kill_commands@[i]@));
    }
    shallow_items(ks, 1);
    shallow_entries(seq![("kill_commands"@, SettingModel::List(ks))], 2);
    shallow_entries(config_file(c), 3);
}

/// A table of one list of tables.
proof fn shallow_devices(items: Seq<SettingModel>)
    requires
        forall|i: int| 0 <= i < items.len() ==> depth(#[trigger] items[i]) <= 1,
    ensures
        depth(devices_model(items)) <= 3,
{
    shallow_items(items, 1);
    shallow_entries(seq![("devices"@, SettingModel::List(items))], 2);
}

// ---- what can be printed -------------------------------------------------

/// Whether every one of these can be printed.
pub open spec fn all_print(list: Seq<Seq<char>>) -> bool {
    forall|i: int| 0 <= i < list.len() ==> printable_text(#[trigger] list[i])
}

/// Whether a USB entry can be printed.
pub open spec fn usb_prints(e: (Seq<char>, Seq<char>, u32)) -> bool {
    printable_text(e.0) && printable_text(e.1)
}

/// Whether every USB entry can be printed.
pub open spec fn all_usb_print(es: Seq<(Seq<char>, Seq<char>, u32)>) -> bool {
    forall|i: int| 0 <= i < es.len() ==> usb_prints(#[trigger] es[i])
}

/// Whether every command can be printed.
pub open spec fn all_commands_print(cs: Seq<Seq<Seq<char>>>) -> bool {
    forall|i: int| 0 <= i < cs.len() ==> all_print(#[trigger] cs[i])
}

/// Whether every text of a configuration can be printed.
pub open spec fn config_prints(c: Config) -> bool {
    &&& printable_text(c.general.log_file@)
    &&& all_usb_print(usb_values(c.whitelist.devices@))
    &&& all_print(views(c.destruction.files_to_remove@))
    &&& all_print(views(c.destruction.folders_to_remove@))
    &&& told(c.destruction.swap_device) matches Some(s) ==> printable_text(s)
    &&& all_commands_print(command_values(c.commands.kill_commands@))
    &&& all_print(thunderbolt_values(c.thunderbolt_whitelist.devices@))
    &&& all_print(card_values(c.sdcard_whitelist.devices@))
    &&& all_print(views(c.network.interfaces@))
    &&& all_print(views(c.pci.ignore@))
    &&& all_print(views(c.display.ignore@))
}

fn texts_print(list: &[String]) -> (r: bool)
    ensures
        r == all_print(views(list@)),
{
    let ghost all = views(list@);
    let mut i: usize = 0;
    while i < list.len()
        invariant
            i <= list@.len(),
            all == views(list@),
            forall|k: int| 0 <= k < i ==> printable_text(#[trigger] all[k]),
        decreases list@.len() - i,
    {
        assert(all[i as int] == list@[i as int]@);
        if !text_prints(list[i].as_str()) {
            assert(!all_print(all));
            return false;
        }
        i += 1;
    }
    true
}

fn entries_print(c: &Config) -> (r: bool)
    ensures
        r == (all_usb_print(usb_values(c.whitelist.devices@)) && all_print(
            thunderbolt_values(c.thunderbolt_whitelist.devices@),
        ) && all_print(card_values(c.sdcard_whitelist.devices@))),
{
    let devices = &c.whitelist.devices;
    let ghost usb = usb_values(devices@);
    let mut i: usize = 0;
    while i < devices.len()
        invariant
            i <= devices@.len(),
            *devices == c.whitelist.devices,
            usb == usb_values(devices@),
            forall|k: int| 0 <= k < i ==> usb_prints(#[trigger] usb[k]),
        decreases devices@.len() - i,
    {
        let e = &devices[i];
        assert(usb[i as int] == (e.vendor_id@, e.product_id@, e.count));
        if !text_prints(e.vendor_id.as_str()) || !text_prints(e.product_id.as_str()) {
            assert(!usb_prints(usb[i as int]));
            return false;
        }
        i += 1;
    }
    let devices = &c.thunderbolt_whitelist.devices;
    let ghost tb = thunderbolt_values(devices@);
    i = 0;
    while i < devices.len()
        invariant
            i <= devices@.len(),
            *devices == c.thunderbolt_whitelist.devices,
            tb == thunderbolt_values(devices@),
            forall|k: int| 0 <= k < i ==> printable_text(#[trigger] tb[k]),
        decreases devices@.len() - i,
    {
        assert(tb[i as int] == devices@[i as int].unique_id@);
        if !text_prints(devices[i].unique_id.as_str()) {
            assert(!all_print(tb));
            return false;
        }
        i += 1;
    }
    let devices = &c.sdcard_whitelist.devices;
    let ghost sd = card_values(devices@);
    i = 0;
    while i < devices.len()
        invariant
            i <= devices@.len(),
            *devices == c.sdcard_whitelist.devices,
            sd == card_values(devices@),
            forall|k: int| 0 <= k < i ==> printable_text(#[trigger] sd[k]),
        decreases devices@.len() - i,
    {
        assert(sd[i as int] == devices@[i as int].serial@);
        if !text_prints(devices[i].serial.as_str()) {
            assert(!all_print(sd));
            return false;
        }
        i += 1;
    }
    true
}

fn commands_print(cs: &[Vec<String>]) -> (r: bool)
    ensures
        r == all_commands_print(command_values(cs@)),
{
    let ghost all = command_values(cs@);
    let mut i: usize = 0;
    while i < cs.len()
        invariant
            i <= cs@.len(),
            all == command_values(cs@),
            forall|k: int| 0 <= k < i ==> all_print(#[trigger] all[k]),
        decreases cs@.len() - i,
    {
        assert(all[i as int] == views(cs@[i as int]@));
        if !texts_print(cs[i].as_slice()) {
            assert(!all_commands_print(all));
            return false;
        }
        i += 1;
    }
    true
}

/// Whether every text of a configuration can be printed.
pub fn prints(c: &Config) -> (r: bool)
    ensures
        r == config_prints(*c),
{
    let swap = match &c.destruction.swap_device {
        Some(s) => text_prints(s.as_str()),
        None => true,
    };
    swap && text_prints(c.general.log_file.as_str()) && entries_print(c) && texts_print(
        c.destruction.files_to_remove.as_slice(),
    ) && texts_print(c.destruction.folders_to_remove.as_slice()) && commands_print(
        c.commands.kill_commands.as_slice(),
    ) && texts_print(c.network.interfaces.as_slice()) && texts_print(c.pci.ignore.as_slice())
        && texts_print(c.display.ignore.as_slice())
}

/// A list of texts that can be printed.
proof fn texts_can_be_printed(list: Seq<Seq<char>>)
    requires
        all_print(list),
    ensures
        printable(texts_model(list)),
{
    let items = texts_model(list)->List_0;
    assert forall|i: int| 0 <= i < items.len() implies printable(#[trigger] items[i]) by {
        assert(printable_text(list[i]));
    }
    assert(printable_list(items));
}

/// A table of one list of items that can be printed.
proof fn devices_can_be_printed(items: Seq<SettingModel>)
    requires
        printable_list(items),
    ensures
        printable(devices_model(items)),
{
    assert(printable(SettingModel::List(items)));
    assert(printable_table(seq![("devices"@, SettingModel::List(items))]));
}

proof fn words_can_be_printed()
    ensures
        printable_text("kill"@),
        printable_text("monitor"@),
        printable_text("trigger-once"@),
        printable_text("ac-required"@),
{
    reveal_strlit("kill");
    reveal_strlit("monitor");
    reveal_strlit("trigger-once");
    reveal_strlit("ac-required");
    assert("kill"@.len() < 256 && "monitor"@.len() < 256);
    assert("trigger-once"@.len() < 256 && "ac-required"@.len() < 256);
}

proof fn lists_can_be_printed(c: Config)
    requires
        config_prints(c),
    ensures
        printable(devices_model(usb_files(c.whitelist.devices@))),
        printable(commands_model(c.commands)),
        printable(devices_model(thunderbolt_models(c.thunderbolt_whitelist.devices@))),
        printable(devices_model(card_models(c.sdcard_whitelist.devices@))),
{
    let usb = usb_files(c.whitelist.devices@);
    assert forall|i: int| 0 <= i < usb.len() implies printable(#[trigger] usb[i]) by {
        let e = c.whitelist.devices@[i];
        assert(usb_prints(usb_values(c.whitelist.devices@)[i]));
        assert(printable_table(usb_file(e)));
    }
    devices_can_be_printed(usb);
    let tb = thunderbolt_models(c.thunderbolt_whitelist.devices@);
    assert forall|i: int| 0 <= i < tb.len() implies printable(#[trigger] tb[i]) by {
        let e = c.thunderbolt_whitelist.devices@[i];
        assert(printable_text(thunderbolt_values(c.thunderbolt_whitelist.devices@)[i]));
        assert(printable_table(seq![("unique_id"@, SettingModel::Text(e.unique_id@))]));
    }
    devices_can_be_printed(tb);
    let sd = card_models(c.sdcard_whitelist.devices@);
    assert forall|i: int| 0 <= i < sd.len() implies printable(#[trigger] sd[i]) by {
        let e = c.sdcard_whitelist.devices@[i];
        assert(printable_text(card_values(c.sdcard_whitelist.devices@)[i]));
        assert(printable_table(seq![("serial"@, SettingModel::Text(e.serial@))]));
    }
    devices_can_be_printed(sd);
    let ks = c.commands.kill_commands@.map_values(|v: Vec<String>| texts_model(views(v@)));
    assert forall|i: int| 0 <= i < ks.len() implies printable(#[trigger] ks[i]) by {
        assert(all_print(command_values(c.commands.kill_commands@)[i]));
        texts_can_be_printed(views(c.commands.kill_commands@[i]@));
    }
    assert(printable(SettingModel::List(ks)));
    assert(printable_table(seq![("kill_commands"@, SettingModel::List(ks))]));
}

/// A configuration whose texts can be printed can be printed.
proof fn file_can_be_printed(c: Config)
    requires
        config_prints(c),
    ensures
        printable(SettingModel::Table(config_file(c))),
{
    lists_can_be_printed(c);
    words_can_be_printed();
    texts_can_be_printed(views(c.destruction.files_to_remove@));
    texts_can_be_printed(views(c.destruction.folders_to_remove@));
    texts_can_be_printed(views(c.network.interfaces@));
    texts_can_be_printed(views(c.pci.ignore@));
    texts_can_be_printed(views(c.display.ignore@));
    assert(printable_table(general_file(c.general)));
    assert(printable_table(destruction_file(c.destruction)));
    assert(printable_table(power_file(c.power)));
    assert(printable_table(network_file(c.network)));
    assert(printable_table(lid_file(c.lid)));
    assert(printable_table(pci_file(c.pci)));
    assert(printable_table(display_file(c.display)));
    assert(printable_table(config_file(c)));
}

/// Emit the config as TOML that `parse` accepts.
pub fn to_toml(config: &Config) -> (r: Result<String, String>)
    requires
        config_prints(*config),
    ensures
        match r {
            Ok(text) => {
                &&& numbers_fit(*config)
                &&& toml_print(SettingModel::Table(config_file(*config))) == Ok::<
                    Seq<char>,
                    Seq<char>,
                >(text@)
                &&& reads_as(text@, SettingModel::Table(config_file(*config)))
            },
            Err(e) => emit_complaint(*config) == Some(e@),
        },
        r is Ok <==> emit_complaint(*config) is None,
{
    let most: u64 = i64::MAX as u64;
    if config.general.sleep_ms > most || config.power.grace_secs > most
        || config.network.grace_secs > most || config.lid.grace_secs > most {
        return Err("failed to emit config as TOML: out-of-range value for u64 type".to_owned());
    }
    let value = file_setting(config);
    proof {
        file_is_tidy(*config);
        file_is_shallow(*config);
        file_can_be_printed(*config);
    }
    match print(&value) {
        Ok(text) => Ok(text),
        Err(e) => Err(cat2("failed to emit config as TOML: ", e.as_str())),
    }
}

/// Why a configuration is not emitted: a number the format cannot hold, or what the
/// printer says.
pub open spec fn emit_complaint(c: Config) -> Option<Seq<char>> {
    if !numbers_fit(c) {
        Some("failed to emit config as TOML: out-of-range value for u64 type"@)
    } else {
        match toml_print(SettingModel::Table(config_file(c))) {
            Ok(_) => None,
            Err(e) => Some("failed to emit config as TOML: "@ + e),
        }
    }
}

} // verus!
