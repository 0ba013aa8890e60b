//! A configuration that is written and read again.

use vstd::prelude::*;

use super::emit::{
    card_model, card_models, commands_model, config_model, destruction_model, devices_model,
    display_model, general_model, kill_word, lid_model, network_model, nix_config, numbers_fit,
    pci_model, power_model, texts_model, thunderbolt_model, thunderbolt_models, usb_model,
    usb_models, SettingModel,
};
use super::file::{
    config_file, config_prints, destruction_file, display_file, emit_complaint, general_file,
    lid_file, network_file, pci_file, power_file, to_toml, usb_file, usb_files,
};
use super::load::{
    card_is, card_reads, command_is, command_reads, commands_of, commands_read, config_is,
    destruction_is, destruction_reads, general_is, general_reads, ignoring_is,
    ignoring_reads, in_shape, kills_in, lid_is, lid_reads, loaded, network_is, network_reads, parse, parsed,
    power_is, power_reads, sdcards_are, sdcards_read, settled, thunderbolt_is, thunderbolt_reads,
    thunderbolts_are, thunderbolts_read, usb_is, usb_reads, whitelist_is, whitelist_reads, CARD,
    COMMANDS, DESTRUCTION, DEVICES, GENERAL, IGNORING, LID, NETWORK, POWER, SECTIONS, THUNDERBOLT,
    USB,
};
use super::{
    card_values, command_values, first_of, thunderbolt_values, usb_values, Config,
    DestructionConfig, GeneralConfig, LidConfig, NetworkConfig, PowerConfig, SdCardWhitelistEntry,
    ThunderboltWhitelistEntry, WhitelistEntry,
};
use crate::decode::{is_known, table_of, text_values, texts_in};
use crate::document::{
    has_key, mirrors, mirrors_list, mirrors_table, reads_as, toml_print, toml_read,
};
use crate::json::{entry, lookup_agrees, Json};
use crate::text::views;

verus! {

/// What was written under a key is found under it.
proof fn stands(t: Seq<(Seq<char>, SettingModel)>, j: Json, i: int)
    requires
        j is Object,
        mirrors_table(t, j.model()),
        0 <= i < t.len(),
    ensures
        j.at(t[i].0) matches Some(x) && mirrors(t[i].1, x.model()),
{
    lookup_agrees(j, t[i].0);
}

/// A table that was written with known keys is read with known keys.
proof fn keys_are_known(t: Seq<(Seq<char>, SettingModel)>, j: Json, known: Seq<&'static str>)
    requires
        j is Object,
        mirrors_table(t, j.model()),
        t.len() <= known.len(),
        forall|i: int| 0 <= i < t.len() ==> (#[trigger] t[i]).0 == known[i]@,
    ensures
        table_of(j, known),
{
    let v = j->Object_0;
    assert forall|k: int| 0 <= k < v@.len() implies is_known((#[trigger] v@[k]).0@, known) by {
        assert(j.model()->Object_0[k].0 == v@[k].0@);
        assert(has_key(t, v@[k].0@));
        let i = choose|i: int| 0 <= i < t.len() && (#[trigger] t[i]).0 == v@[k].0@;
        assert(known[i]@ == v@[k].0@);
    }
}

/// A list of texts reads back.
proof fn texts_back(list: Seq<Seq<char>>, j: Json)
    requires
        mirrors(texts_model(list), j.model()),
    ensures
        texts_in(Some(j)) == Some(list),
{
    let v = j->Array_0;
    let m = texts_model(list)->List_0;
    assert(mirrors_list(m, j.model()->Array_0));
    assert forall|i: int| 0 <= i < v@.len() implies (#[trigger] v@[i]).text() == Some(list[i]) by {
        assert(mirrors(m[i], j.model()->Array_0[i]));
        assert(j.model()->Array_0[i] == v@[i].model());
    }
    assert(text_values(v@) =~= list);
}

proof fn general_back(g: GeneralConfig, j: Json)
    requires
        mirrors(SettingModel::Table(general_file(g)), j.model()),
        g.sleep_ms <= i64::MAX,
    ensures
        general_reads(Some(j)),
        forall|d: GeneralConfig| #[trigger] general_is(d, Some(j)) ==> d.same(g),
{
    let t = general_file(g);
    stands(t, j, 0);
    stands(t, j, 1);
    stands(t, j, 2);
    stands(t, j, 3);
    stands(t, j, 4);
    stands(t, j, 5);
    stands(t, j, 6);
    stands(t, j, 7);
    stands(t, j, 8);
    stands(t, j, 9);
    stands(t, j, 10);
    stands(t, j, 11);
    keys_are_known(t, j, GENERAL@);
}

proof fn power_back(p: PowerConfig, j: Json)
    requires
        mirrors(SettingModel::Table(power_file(p)), j.model()),
        p.grace_secs <= i64::MAX,
    ensures
        power_reads(Some(j)),
        forall|d: PowerConfig| #[trigger] power_is(d, Some(j)) ==> d == p,
{
    let t = power_file(p);
    reveal_strlit("trigger-once");
    reveal_strlit("ac-required");
    reveal_strlit("monitor");
    assert("trigger-once"@.len() != "ac-required"@.len());
    assert("trigger-once"@.len() != "monitor"@.len());
    assert("ac-required"@.len() != "monitor"@.len());
    stands(t, j, 0);
    stands(t, j, 1);
    stands(t, j, 2);
    keys_are_known(t, j, POWER@);
}


/// The word for a policy reads back.
proof fn policy_back(kills: bool, j: Json)
    requires
        mirrors(SettingModel::Text(kill_word(kills)), j.model()),
    ensures
        kills_in(Some(j)) == Some(kills),
{
    reveal_strlit("kill");
    reveal_strlit("monitor");
    assert("kill"@.len() != "monitor"@.len());
}

proof fn network_back(n: NetworkConfig, j: Json)
    requires
        mirrors(SettingModel::Table(network_file(n)), j.model()),
        n.grace_secs <= i64::MAX,
    ensures
        network_reads(Some(j)),
        forall|d: NetworkConfig| #[trigger]
            network_is(d, Some(j)) ==> d.policy == n.policy && d.grace_secs == n.grace_secs
                && views(d.interfaces@) == views(n.interfaces@),
{
    let t = network_file(n);
    stands(t, j, 0);
    stands(t, j, 1);
    stands(t, j, 2);
    policy_back(n.policy is Kill, j.at("policy"@)->0);
    texts_back(views(n.interfaces@), j.at("interfaces"@)->0);
    keys_are_known(t, j, NETWORK@);
}

proof fn lid_back(l: LidConfig, j: Json)
    requires
        mirrors(SettingModel::Table(lid_file(l)), j.model()),
        l.grace_secs <= i64::MAX,
    ensures
        lid_reads(Some(j)),
        forall|d: LidConfig| #[trigger] lid_is(d, Some(j)) ==> d == l,
{
    let t = lid_file(l);
    stands(t, j, 0);
    stands(t, j, 1);
    policy_back(l.policy is Kill, j.at("policy"@)->0);
    keys_are_known(t, j, LID@);
}

/// `[pci]` and `[display]` read back.
proof fn ignoring_back(
    t: Seq<(Seq<char>, SettingModel)>,
    kills: bool,
    ignore: Seq<Seq<char>>,
    j: Json,
)
    requires
        t == seq![
            ("policy"@, SettingModel::Text(kill_word(kills))),
            ("ignore"@, texts_model(ignore)),
        ],
        mirrors(SettingModel::Table(t), j.model()),
    ensures
        ignoring_reads(Some(j)),
        ignoring_is(kills, ignore, Some(j)),
{
    stands(t, j, 0);
    stands(t, j, 1);
    policy_back(kills, j.at("policy"@)->0);
    texts_back(ignore, j.at("ignore"@)->0);
    keys_are_known(t, j, IGNORING@);
}

proof fn destruction_back(d: DestructionConfig, j: Json)
    requires
        mirrors(SettingModel::Table(destruction_file(d)), j.model()),
    ensures
        destruction_reads(Some(j)),
        forall|e: DestructionConfig| #[trigger] destruction_is(e, Some(j)) ==> e.same(d),
{
    let t = destruction_file(d);
    stands(t, j, 0);
    stands(t, j, 1);
    stands(t, j, 2);
    stands(t, j, 3);
    stands(t, j, 4);
    texts_back(views(d.files_to_remove@), j.at("files_to_remove"@)->0);
    texts_back(views(d.folders_to_remove@), j.at("folders_to_remove"@)->0);
    keys_are_known(t, j, DESTRUCTION@);
    if d.swap_device is Some {
        stands(t, j, 5);
    } else {
        nothing_else_stands(t, j, "swap_device"@);
        reveal_strlit("files_to_remove");
        reveal_strlit("folders_to_remove");
        reveal_strlit("melt_self");
        reveal_strlit("do_sync");
        reveal_strlit("do_wipe_swap");
        reveal_strlit("swap_device");
        assert(t[0].0.len() != 11 && t[1].0.len() != 11 && t[2].0.len() != 11);
        assert(t[3].0.len() != 11 && t[4].0.len() != 11);
        assert(!has_key(t, "swap_device"@));
    }
}

/// Nothing is found under a key that was not written.
proof fn nothing_else_stands(t: Seq<(Seq<char>, SettingModel)>, j: Json, key: Seq<char>)
    requires
        j is Object,
        mirrors_table(t, j.model()),
    ensures
        !has_key(t, key) ==> j.at(key) is None,
{
    let v = j->Object_0;
    if j.at(key) is Some {
        entry_has_its_key(v@, key, 0);
        let k = choose|k: int| 0 <= k < v@.len() && (#[trigger] v@[k]).0@ == key;
        assert(j.model()->Object_0[k].0 == key);
        assert(has_key(t, key));
    }
}

proof fn entry_has_its_key(v: Seq<(String, Json)>, key: Seq<char>, i: int)
    requires
        0 <= i,
        entry(v, key, i) is Some,
    ensures
        exists|k: int| 0 <= k < v.len() && (#[trigger] v[k]).0@ == key,
    decreases v.len() - i,
{
    if i < v.len() {
        if v[i].0@ != key {
            entry_has_its_key(v, key, i + 1);
        }
    }
}

/// The USB whitelist reads back.
proof fn usb_back(es: Seq<WhitelistEntry>, j: Json)
    requires
        mirrors(devices_model(usb_files(es)), j.model()),
    ensures
        whitelist_reads(Some(j)),
        forall|d: Seq<WhitelistEntry>|
            #[trigger] whitelist_is(d, Some(j)) ==> usb_values(d) == usb_values(es),
{
    let items = usb_files(es);
    let t = seq![("devices"@, SettingModel::List(items))];
    assert(devices_model(usb_files(es)) == SettingModel::Table(t));
    stands(t, j, 0);
    keys_are_known(t, j, DEVICES@);
    let x = j.at("devices"@)->0;
    let v = x->Array_0@;
    assert(mirrors_list(items, x.model()->Array_0));
    assert forall|i: int|
        0 <= i < v.len() implies usb_reads(#[trigger] v[i]) && usb_is(es[i], v[i]) by {
        assert(mirrors(items[i], x.model()->Array_0[i]));
        assert(x.model()->Array_0[i] == v[i].model());
        let f = usb_file(es[i]);
        assert(items[i] == SettingModel::Table(f));
        stands(f, v[i], 0);
        stands(f, v[i], 1);
        stands(f, v[i], 2);
        keys_are_known(f, v[i], USB@);
    }
    assert forall|d: Seq<WhitelistEntry>|
        #[trigger] whitelist_is(d, Some(j)) implies usb_values(d) == usb_values(es) by {
        assert forall|i: int| 0 <= i < d.len() implies usb_values(d)[i] == usb_values(es)[i] by {
            assert(usb_is(d[i], v[i]));
            assert(usb_reads(v[i]));
        }
        assert(usb_values(d) =~= usb_values(es));
    }
}

/// The Thunderbolt whitelist reads back.
proof fn thunderbolts_back(es: Seq<ThunderboltWhitelistEntry>, j: Json)
    requires
        mirrors(devices_model(thunderbolt_models(es)), j.model()),
    ensures
        thunderbolts_read(Some(j)),
        forall|d: Seq<ThunderboltWhitelistEntry>|
            #[trigger] thunderbolts_are(d, Some(j)) ==> thunderbolt_values(d)
                == thunderbolt_values(es),
{
    let items = thunderbolt_models(es);
    let t = seq![("devices"@, SettingModel::List(items))];
    assert(devices_model(thunderbolt_models(es)) == SettingModel::Table(t));
    stands(t, j, 0);
    keys_are_known(t, j, DEVICES@);
    let x = j.at("devices"@)->0;
    let v = x->Array_0@;
    assert(mirrors_list(items, x.model()->Array_0));
    assert forall|i: int|
        0 <= i < v.len() implies thunderbolt_reads(#[trigger] v[i])
        && thunderbolt_is(es[i], v[i]) by {
        assert(mirrors(items[i], x.model()->Array_0[i]));
        assert(x.model()->Array_0[i] == v[i].model());
        let f = seq![("unique_id"@, SettingModel::Text(es[i].unique_id@))];
        assert(items[i] == SettingModel::Table(f));
        stands(f, v[i], 0);
        keys_are_known(f, v[i], THUNDERBOLT@);
    }
    assert forall|d: Seq<ThunderboltWhitelistEntry>|
        #[trigger] thunderbolts_are(d, Some(j)) implies thunderbolt_values(d)
        == thunderbolt_values(es) by {
        assert forall|i: int|
            0 <= i < d.len() implies thunderbolt_values(d)[i] == thunderbolt_values(es)[i] by {
            assert(thunderbolt_is(d[i], v[i]));
            assert(thunderbolt_reads(v[i]));
        }
        assert(thunderbolt_values(d) =~= thunderbolt_values(es));
    }
}

/// The SD card whitelist reads back.
proof fn cards_back(es: Seq<SdCardWhitelistEntry>, j: Json)
    requires
        mirrors(devices_model(card_models(es)), j.model()),
    ensures
        sdcards_read(Some(j)),
        forall|d: Seq<SdCardWhitelistEntry>|
            #[trigger] sdcards_are(d, Some(j)) ==> card_values(d) == card_values(es),
{
    let items = card_models(es);
    let t = seq![("devices"@, SettingModel::List(items))];
    assert(devices_model(card_models(es)) == SettingModel::Table(t));
    stands(t, j, 0);
    keys_are_known(t, j, DEVICES@);
    let x = j.at("devices"@)->0;
    let v = x->Array_0@;
    assert(mirrors_list(items, x.model()->Array_0));
    assert forall|i: int|
        0 <= i < v.len() implies card_reads(#[trigger] v[i]) && card_is(es[i], v[i]) by {
        assert(mirrors(items[i], x.model()->Array_0[i]));
        assert(x.model()->Array_0[i] == v[i].model());
        let f = seq![("serial"@, SettingModel::Text(es[i].serial@))];
        assert(items[i] == SettingModel::Table(f));
        stands(f, v[i], 0);
        keys_are_known(f, v[i], CARD@);
    }
    assert forall|d: Seq<SdCardWhitelistEntry>|
        #[trigger] sdcards_are(d, Some(j)) implies card_values(d) == card_values(es) by {
        assert forall|i: int| 0 <= i < d.len() implies card_values(d)[i] == card_values(es)[i] by {
            assert(card_is(d[i], v[i]));
            assert(card_reads(v[i]));
        }
        assert(card_values(d) =~= card_values(es));
    }
}

/// The commands read back.
proof fn commands_back(es: Seq<Vec<String>>, j: Json)
    requires
        mirrors(commands_table(es), j.model()),
    ensures
        commands_read(Some(j)),
        forall|d: Seq<Vec<String>>|
            #[trigger] commands_of(d, Some(j)) ==> command_values(d) == command_values(es),
{
    let items = es.map_values(|v: Vec<String>| texts_model(views(v@)));
    let t = seq![("kill_commands"@, SettingModel::List(items))];
    assert(commands_table(es) == SettingModel::Table(t));
    stands(t, j, 0);
    keys_are_known(t, j, COMMANDS@);
    let x = j.at("kill_commands"@)->0;
    let v = x->Array_0@;
    assert(mirrors_list(items, x.model()->Array_0));
    assert forall|i: int|
        0 <= i < v.len() implies command_reads(#[trigger] v[i]) && command_is(es[i], v[i]) by {
        assert(mirrors(items[i], x.model()->Array_0[i]));
        assert(x.model()->Array_0[i] == v[i].model());
        assert(items[i] == texts_model(views(es[i]@)));
        texts_back(views(es[i]@), v[i]);
    }
    assert forall|d: Seq<Vec<String>>|
        #[trigger] commands_of(d, Some(j)) implies command_values(d) == command_values(es) by {
        assert forall|i: int|
            0 <= i < d.len() implies command_values(d)[i] == command_values(es)[i] by {
            assert(command_is(d[i], v[i]));
            assert(command_reads(v[i]));
        }
        assert(command_values(d) =~= command_values(es));
    }
}

/// The commands as the file holds them.
spec fn commands_table(cs: Seq<Vec<String>>) -> SettingModel {
    SettingModel::Table(
        seq![
            (
                "kill_commands"@,
                SettingModel::List(cs.map_values(|v: Vec<String>| texts_model(views(v@)))),
            ),
        ],
    )
}

/// A configuration that was written is readable, and what is read holds the same
/// values.
pub proof fn a_written_config_reads_back(c: Config, j: Json)
    requires
        numbers_fit(c),
        mirrors(SettingModel::Table(config_file(c)), j.model()),
    ensures
        in_shape(j),
        forall|d: Config| #[trigger] config_is(d, j) ==> d.same(c),
{
    let t = config_file(c);
    stands(t, j, 0);
    stands(t, j, 1);
    stands(t, j, 2);
    stands(t, j, 3);
    stands(t, j, 4);
    stands(t, j, 5);
    stands(t, j, 6);
    stands(t, j, 7);
    stands(t, j, 8);
    stands(t, j, 9);
    stands(t, j, 10);
    keys_are_known(t, j, SECTIONS@);
    general_back(c.general, j.at("general"@)->0);
    usb_back(c.whitelist.devices@, j.at("whitelist"@)->0);
    destruction_back(c.destruction, j.at("destruction"@)->0);
    assert(commands_model(c.commands) == commands_table(c.commands.kill_commands@));
    commands_back(c.commands.kill_commands@, j.at("commands"@)->0);
    thunderbolts_back(c.thunderbolt_whitelist.devices@, j.at("thunderbolt_whitelist"@)->0);
    cards_back(c.sdcard_whitelist.devices@, j.at("sdcard_whitelist"@)->0);
    power_back(c.power, j.at("power"@)->0);
    network_back(c.network, j.at("network"@)->0);
    lid_back(c.lid, j.at("lid"@)->0);
    ignoring_back(pci_file(c.pci), c.pci.policy is Kill, views(c.pci.ignore@), j.at("pci"@)->0);
    ignoring_back(
        display_file(c.display),
        c.display.policy is Kill,
        views(c.display.ignore@),
        j.at("display"@)->0,
    );
}

/// Configurations that hold the same values are judged the same, and still hold the
/// same values once they are in range.
pub proof fn the_same_values_fare_the_same(a: Config, b: Config)
    requires
        a.same(b),
    ensures
        a.complaint() == b.complaint(),
        a.in_range().same(b.in_range()),
{
    assert(a.complaint() == b.complaint());
}

/// Whatever configuration is written, the loader takes the text for it: it refuses
/// it where it breaks a rule, and otherwise gives back the same values, moved into
/// their range.
pub proof fn a_written_config_loads(
    c: Config,
    text: Seq<char>,
    r: Result<Config, String>,
    words: Seq<char>,
)
    requires
        numbers_fit(c),
        reads_as(text, SettingModel::Table(config_file(c))),
        parsed(r, text, words),
    ensures
        match r {
            Ok(d) => c.in_range().complaint() is None && d.same(c.in_range()),
            Err(e) => c.in_range().complaint() == Some(e@),
        },
{
    let m = toml_read(text)->Ok_0;
    let j = choose|j: Json| #[trigger] j.model() == m && loaded(r, j, words);
    a_written_config_reads_back(c, j);
    let d = choose|d: Config| #[trigger] config_is(d, j) && settled(r, d);
    the_same_values_fare_the_same(d, c);
    the_same_values_fare_the_same(d.in_range(), c.in_range());
}

/// The lists of two configurations that hold the same values.
proof fn the_same_values_make_the_same_lists(a: Config, b: Config)
    requires
        a.same(b),
    ensures
        usb_files(a.whitelist.devices@) == usb_files(b.whitelist.devices@),
        usb_models(a.whitelist.devices@)
            == usb_models(b.whitelist.devices@),
        thunderbolt_models(a.thunderbolt_whitelist.devices@)
            == thunderbolt_models(b.thunderbolt_whitelist.devices@),
        card_models(a.sdcard_whitelist.devices@)
            == card_models(b.sdcard_whitelist.devices@),
        commands_model(a.commands) == commands_model(b.commands),
{
    let (ua, ub) = (a.whitelist.devices@, b.whitelist.devices@);
    assert(usb_values(ua).len() == usb_values(ub).len());
    assert forall|i: int| 0 <= i < ua.len() implies usb_files(ua)[i] == usb_files(ub)[i] by {
        let v = (ub[i].vendor_id@, ub[i].product_id@, ub[i].count);
        assert(usb_values(ua)[i] == (ua[i].vendor_id@, ua[i].product_id@, ua[i].count));
        assert(usb_values(ub)[i] == v);
        assert(usb_file(ua[i]) =~= usb_file(ub[i]));
    }
    assert forall|i: int| 0 <= i < ua.len() implies usb_models(ua)[i] == usb_models(ub)[i] by {
        let v = (ub[i].vendor_id@, ub[i].product_id@, ub[i].count);
        assert(usb_values(ua)[i] == (ua[i].vendor_id@, ua[i].product_id@, ua[i].count));
        assert(usb_values(ub)[i] == v);
        assert(usb_model(ua[i])->Table_0 =~= usb_model(ub[i])->Table_0);
    }
    assert(usb_files(ua) =~= usb_files(ub));
    assert(usb_models(ua) =~= usb_models(ub));
    let (ta, tb) = (a.thunderbolt_whitelist.devices@, b.thunderbolt_whitelist.devices@);
    assert(thunderbolt_values(ta).len() == thunderbolt_values(tb).len());
    assert forall|i: int|
        0 <= i < ta.len() implies thunderbolt_models(ta)[i] == thunderbolt_models(tb)[i] by {
        assert(thunderbolt_values(ta)[i] == thunderbolt_values(tb)[i]);
    }
    assert(thunderbolt_models(ta) =~= thunderbolt_models(tb));
    let (sa, sb) = (a.sdcard_whitelist.devices@, b.sdcard_whitelist.devices@);
    assert(card_values(sa).len() == card_values(sb).len());
    assert forall|i: int| 0 <= i < sa.len() implies card_models(sa)[i] == card_models(sb)[i] by {
        assert(card_values(sa)[i] == card_values(sb)[i]);
    }
    assert(card_models(sa) =~= card_models(sb));
    let (ka, kb) = (a.commands.kill_commands@, b.commands.kill_commands@);
    let kf = |v: Vec<String>| texts_model(views(v@));
    assert(command_values(ka).len() == command_values(kb).len());
    assert forall|i: int|
        0 <= i < ka.len() implies ka.map_values(kf)[i] == kb.map_values(kf)[i] by {
        assert(command_values(ka)[i] == command_values(kb)[i]);
    }
    assert(ka.map_values(kf) =~= kb.map_values(kf));
}

/// The tables of two configurations that hold the same values.
proof fn the_same_values_make_the_same_tables(a: Config, b: Config)
    requires
        a.same(b),
    ensures
        general_file(a.general) == general_file(b.general),
        general_model(a.general) == general_model(b.general),
        destruction_file(a.destruction) == destruction_file(b.destruction),
        destruction_model(a.destruction) == destruction_model(b.destruction),
        network_file(a.network) == network_file(b.network),
        network_model(a.network) == network_model(b.network),
        pci_file(a.pci) == pci_file(b.pci),
        pci_model(a.pci) == pci_model(b.pci),
        display_file(a.display) == display_file(b.display),
        display_model(a.display) == display_model(b.display),
{
}

/// Configurations that hold the same values are written as the same file.
pub proof fn the_same_values_make_the_same_file(a: Config, b: Config)
    requires
        a.same(b),
    ensures
        config_file(a) == config_file(b),
        emit_complaint(a) == emit_complaint(b),
{
    assert(a.power == b.power && a.lid == b.lid);
    assert(numbers_fit(a) == numbers_fit(b));
    the_same_values_make_the_same_lists(a, b);
    the_same_values_make_the_same_tables(a, b);
}

/// Configurations that hold the same values are written as the same Nix attrset.
pub proof fn the_same_values_make_the_same_nix(a: Config, b: Config)
    requires
        a.same(b),
    ensures
        nix_config(a) == nix_config(b),
{
    the_same_values_make_the_same_lists(a, b);
    the_same_values_make_the_same_tables(a, b);
    assert(config_model(a) == config_model(b));
}

// ---- the two forms -------------------------------------------------------

/// Whether two settings hold the same: equal values, lists item by item, tables
/// under the same keys in whatever order.
pub open spec fn agree(a: SettingModel, b: SettingModel) -> bool
    decreases a,
{
    match (a, b) {
        (SettingModel::List(x), SettingModel::List(y)) => agree_list(x, y),
        (SettingModel::Table(s), SettingModel::Table(t)) => agree_table(s, t),
        _ => a == b,
    }
}

/// Whether two lists hold the same.
pub open spec fn agree_list(x: Seq<SettingModel>, y: Seq<SettingModel>) -> bool
    decreases x,
{
    &&& x.len() == y.len()
    &&& forall|i: int| 0 <= i < x.len() ==> agree(#[trigger] x[i], y[i])
}

/// Whether two tables hold the same.
pub open spec fn agree_table(
    s: Seq<(Seq<char>, SettingModel)>,
    t: Seq<(Seq<char>, SettingModel)>,
) -> bool
    decreases s,
{
    &&& s.len() == t.len()
    &&& forall|i: int| 0 <= i < s.len() ==> like_in(#[trigger] s[i], t)
}

/// Whether a table holds an entry, or one that agrees with it.
pub open spec fn like_in(
    e: (Seq<char>, SettingModel),
    t: Seq<(Seq<char>, SettingModel)>,
) -> bool
    decreases e,
{
    exists|j: int| 0 <= j < t.len() && (#[trigger] t[j]).0 == e.0 && agree(e.1, t[j].1)
}

/// Everything but `require_auth`, which the NixOS module writes itself.
pub open spec fn settings_part(c: Config) -> Seq<(Seq<char>, SettingModel)> {
    config_file(c).update(
        0,
        ("general"@, SettingModel::Table(general_file(c.general).drop_last())),
    )
}

/// Where the entries of one table stand in another.
proof fn tables_agree(
    s: Seq<(Seq<char>, SettingModel)>,
    t: Seq<(Seq<char>, SettingModel)>,
    places: Seq<int>,
)
    requires
        s.len() == t.len() == places.len(),
        forall|i: int|
            0 <= i < s.len() ==> 0 <= #[trigger] places[i] < t.len() && t[places[i]].0 == s[i].0
                && agree(s[i].1, t[places[i]].1),
    ensures
        agree(SettingModel::Table(s), SettingModel::Table(t)),
{
    assert forall|i: int| 0 <= i < s.len() implies like_in(#[trigger] s[i], t) by {
        let j = places[i];
        assert(t[j].0 == s[i].0 && agree(s[i].1, t[j].1));
    }
    assert(agree_table(s, t));
}

/// A list of texts holds the same as itself.
proof fn texts_agree(list: Seq<Seq<char>>)
    ensures
        agree(texts_model(list), texts_model(list)),
{
    assert(agree_list(texts_model(list)->List_0, texts_model(list)->List_0));
}

/// A table of one list.
proof fn one_list_agrees(key: Seq<char>, x: Seq<SettingModel>, y: Seq<SettingModel>)
    requires
        agree_list(x, y),
    ensures
        agree(
            SettingModel::Table(seq![(key, SettingModel::List(x))]),
            SettingModel::Table(seq![(key, SettingModel::List(y))]),
        ),
{
    tables_agree(
        seq![(key, SettingModel::List(x))],
        seq![(key, SettingModel::List(y))],
        seq![0int],
    );
}

proof fn lists_agree(c: Config)
    ensures
        agree(commands_model(c.commands), commands_model(c.commands)),
        agree(
            devices_model(usb_models(c.whitelist.devices@)),
            devices_model(usb_files(c.whitelist.devices@)),
        ),
        agree(
            devices_model(thunderbolt_models(c.thunderbolt_whitelist.devices@)),
            devices_model(thunderbolt_models(c.thunderbolt_whitelist.devices@)),
        ),
        agree(
            devices_model(card_models(c.sdcard_whitelist.devices@)),
            devices_model(card_models(c.sdcard_whitelist.devices@)),
        ),
{
    let ks = c.commands.kill_commands@.map_values(|v: Vec<String>| texts_model(views(v@)));
    assert forall|i: int| 0 <= i < ks.len() implies agree(#[trigger] ks[i], ks[i]) by {
        texts_agree(views(c.commands.kill_commands@[i]@));
    }
    one_list_agrees("kill_commands"@, ks, ks);
    let (um, uf) = (usb_models(c.whitelist.devices@), usb_files(c.whitelist.devices@));
    assert forall|i: int| 0 <= i < um.len() implies agree(#[trigger] um[i], uf[i]) by {
        let e = c.whitelist.devices@[i];
        tables_agree(usb_model(e)->Table_0, usb_file(e), seq![2int, 1, 0]);
    }
    one_list_agrees("devices"@, um, uf);
    let tb = thunderbolt_models(c.thunderbolt_whitelist.devices@);
    assert forall|i: int| 0 <= i < tb.len() implies agree(#[trigger] tb[i], tb[i]) by {
        let t = thunderbolt_model(c.thunderbolt_whitelist.devices@[i])->Table_0;
        tables_agree(t, t, seq![0int]);
    }
    one_list_agrees("devices"@, tb, tb);
    let sd = card_models(c.sdcard_whitelist.devices@);
    assert forall|i: int| 0 <= i < sd.len() implies agree(#[trigger] sd[i], sd[i]) by {
        let t = card_model(c.sdcard_whitelist.devices@[i])->Table_0;
        tables_agree(t, t, seq![0int]);
    }
    one_list_agrees("devices"@, sd, sd);
}

proof fn sections_agree(c: Config)
    ensures
        agree(
            general_model(c.general),
            SettingModel::Table(general_file(c.general).drop_last()),
        ),
        agree(destruction_model(c.destruction), SettingModel::Table(destruction_file(c.destruction))),
        agree(power_model(c.power), SettingModel::Table(power_file(c.power))),
        agree(network_model(c.network), SettingModel::Table(network_file(c.network))),
        agree(lid_model(c.lid), SettingModel::Table(lid_file(c.lid))),
        agree(pci_model(c.pci), SettingModel::Table(pci_file(c.pci))),
        agree(display_model(c.display), SettingModel::Table(display_file(c.display))),
{
    texts_agree(views(c.destruction.files_to_remove@));
    texts_agree(views(c.destruction.folders_to_remove@));
    texts_agree(views(c.network.interfaces@));
    texts_agree(views(c.pci.ignore@));
    texts_agree(views(c.display.ignore@));
    tables_agree(
        general_model(c.general)->Table_0,
        general_file(c.general).drop_last(),
        seq![2int, 1, 0, 10, 8, 7, 9, 6, 5, 4, 3],
    );
    let d = destruction_model(c.destruction)->Table_0;
    if c.destruction.swap_device is Some {
        tables_agree(d, destruction_file(c.destruction), seq![3int, 4, 0, 1, 2, 5]);
    } else {
        tables_agree(d, destruction_file(c.destruction), seq![3int, 4, 0, 1, 2]);
    }
    tables_agree(power_model(c.power)->Table_0, power_file(c.power), seq![1int, 0, 2]);
    tables_agree(network_model(c.network)->Table_0, network_file(c.network), seq![1int, 2, 0]);
    tables_agree(lid_model(c.lid)->Table_0, lid_file(c.lid), seq![1int, 0]);
    tables_agree(pci_model(c.pci)->Table_0, pci_file(c.pci), seq![1int, 0]);
    tables_agree(display_model(c.display)->Table_0, display_file(c.display), seq![1int, 0]);
}

/// The two forms cannot disagree: the Nix attrset and the TOML file hold the same
/// values under the same keys, but for `require_auth`, which the attrset leaves out.
pub proof fn the_two_forms_agree(c: Config)
    ensures
        agree(config_model(c), SettingModel::Table(settings_part(c))),
{
    lists_agree(c);
    sections_agree(c);
    tables_agree(
        config_model(c)->Table_0,
        settings_part(c),
        seq![3int, 2, 10, 0, 8, 7, 9, 6, 5, 4, 1],
    );
}

// ---- what is shown -------------------------------------------------------

/// Why a configuration is not written for show: it cannot be written, or the loader
/// refuses it.
pub open spec fn show_complaint(c: Config) -> Option<Seq<char>> {
    first_of(emit_complaint(c), first_of(c.in_range().complaint(), emit_complaint(c.in_range())))
}

/// Emit the config as TOML, having run it through the loader first, and hand back
/// the config the loader produced. The loader moves the polling interval and the
/// grace periods into their ranges silently, so this is what to show a user: text
/// that matches the values the daemon would actually run.
pub fn to_toml_checked(config: &Config) -> (r: Result<(String, Config), String>)
    requires
        config_prints(*config),
    ensures
        match r {
            Ok((text, d)) => {
                let file = SettingModel::Table(config_file(config.in_range()));
                &&& show_complaint(*config) is None
                &&& d.same(config.in_range())
                &&& toml_print(file) == Ok::<Seq<char>, Seq<char>>(text@)
                &&& reads_as(text@, file)
            },
            Err(e) => show_complaint(*config) == Some(e@),
        },
{
    let text = match to_toml(config) {
        Ok(t) => t,
        Err(e) => {
            return Err(e);
        },
    };
    let read = parse(text.as_str(), "");
    proof {
        a_written_config_loads(*config, text@, read, ""@);
    }
    let back = match read {
        Ok(c) => c,
        Err(e) => {
            return Err(e);
        },
    };
    proof {
        the_same_values_make_the_same_file(back, config.in_range());
    }
    match to_toml(&back) {
        Ok(t) => Ok((t, back)),
        Err(e) => Err(e),
    }
}

/// A configuration is shown exactly where it can be written, its values in range break no
/// rule, and those can be written too; otherwise the first of these is said.
pub proof fn what_is_shown_was_accepted(c: Config)
    ensures
        show_complaint(c) is None <==> emit_complaint(c) is None && c.in_range().complaint() is None
            && emit_complaint(c.in_range()) is None,
        emit_complaint(c) is Some ==> show_complaint(c) == emit_complaint(c),
        emit_complaint(c) is None && c.in_range().complaint() is Some ==> show_complaint(c)
            == c.in_range().complaint(),
{
}

} // verus!
