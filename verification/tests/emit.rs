//! The configuration as text: TOML that reads back, and a Nix attribute set.

use plugkill::config::emit::{nix_key, nix_string, to_nix, write_value, Setting};
use plugkill::config::file::{prints, to_toml};
use plugkill::config::load;
use plugkill::config::round::to_toml_checked;
use plugkill::sdcard::{generate_sdcard_whitelist_toml, SdCardDeviceInfo};
use plugkill::thunderbolt::{generate_thunderbolt_whitelist_toml, ThunderboltDeviceInfo};
use plugkill::usb::{generate_whitelist_toml, UsbDeviceInfo};
use plugkill::config::{
    CommandsConfig, Config, DestructionConfig, DisplayConfig, DisplayPolicy, GeneralConfig,
    LidConfig, LidPolicy, NetworkConfig, NetworkPolicy, PciConfig, PciPolicy, PowerConfig,
    PowerPolicy, SdCardWhitelistConfig, SdCardWhitelistEntry, ThunderboltWhitelistConfig,
    ThunderboltWhitelistEntry, WhitelistConfig, WhitelistEntry,
};

fn full_config() -> Config {
    Config {
        general: GeneralConfig {
            sleep_ms: 500,
            log_file: "/var/log/plugkill/loud.log".to_string(),
            dry_run: true,
            watch_usb: true,
            watch_thunderbolt: true,
            watch_sdcard: true,
            watch_power: true,
            watch_network: true,
            watch_lid: true,
            watch_pci: true,
            watch_display: true,
            require_auth: true,
        },
        whitelist: WhitelistConfig {
            devices: vec![
                WhitelistEntry {
                    vendor_id: "1d6b".to_string(),
                    product_id: "0002".to_string(),
                    count: 2,
                },
                WhitelistEntry {
                    vendor_id: "046d".to_string(),
                    product_id: "c52b".to_string(),
                    count: 1,
                },
            ],
        },
        destruction: DestructionConfig {
            files_to_remove: vec!["/home/user/secrets.kdbx".to_string()],
            folders_to_remove: vec!["/home/user/vault".to_string()],
            melt_self: true,
            do_sync: false,
            do_wipe_swap: true,
            swap_device: Some("/dev/sda2".to_string()),
        },
        commands: CommandsConfig {
            kill_commands: vec![
                vec!["/usr/bin/systemctl".to_string(), "poweroff".to_string()],
                vec!["/usr/bin/logger".to_string(), "he said \"go\"".to_string()],
            ],
        },
        thunderbolt_whitelist: ThunderboltWhitelistConfig {
            devices: vec![ThunderboltWhitelistEntry {
                unique_id: "00000000-1111-2222-3333-444444444444".to_string(),
            }],
        },
        sdcard_whitelist: SdCardWhitelistConfig {
            devices: vec![SdCardWhitelistEntry {
                serial: "0x12345678".to_string(),
            }],
        },
        power: PowerConfig {
            policy: PowerPolicy::AcRequired,
            grace_secs: 5,
            require_locked: true,
        },
        network: NetworkConfig {
            policy: NetworkPolicy::Kill,
            grace_secs: 10,
            interfaces: vec!["eth0".to_string(), "wlan0".to_string()],
        },
        lid: LidConfig {
            policy: LidPolicy::Kill,
            grace_secs: 3,
        },
        pci: PciConfig {
            policy: PciPolicy::Kill,
            ignore: vec!["0000:01:00.0".to_string()],
        },
        display: DisplayConfig {
            policy: DisplayPolicy::Kill,
            ignore: vec!["eDP".to_string()],
        },
    }
}

/// A path with a quote and a backslash in it, everywhere a path is allowed.
fn awkward_config() -> Config {
    let mut config = full_config();
    config.general.log_file = "/var/log/plug\"kill\\odd/${HOME}/plugkill.log".to_string();
    config.destruction.files_to_remove = vec!["/home/user/a \"quoted\\file".to_string()];
    config.destruction.folders_to_remove = vec!["/home/user/back\\slash".to_string()];
    config.destruction.swap_device = Some("/dev/disk/by-id/we\"ird".to_string());
    config
}

/// Parse a file of the right shape.
fn parse(text: &str) -> Result<Config, String> {
    load::parse(text, "not a config")
}

/// Emit, parse with the daemon's own loader, emit again. The text compare gives a
/// readable diff; the value compare is the one that matters, since a field the
/// emitter drops cancels out on both sides of the text. Returns the parsed config
/// for tests that want to look at it.
fn assert_round_trips(config: &Config) -> Config {
    let text = to_toml(config).expect("emit TOML");
    let back =
        parse(&text).unwrap_or_else(|e| panic!("the loader rejected our own TOML: {e}\n{text}"));
    assert_eq!(to_toml(&back).expect("re-emit TOML"), text);
    assert_eq!(
        &back, config,
        "the loader gave back a different config\n{text}"
    );
    back
}

#[test]
fn default_config_round_trips() {
    assert_round_trips(&Config::default());
}

#[test]
fn full_config_round_trips() {
    assert_round_trips(&full_config());
}

#[test]
fn every_power_policy_round_trips() {
    for policy in [
        PowerPolicy::TriggerOnce,
        PowerPolicy::AcRequired,
        PowerPolicy::Monitor,
    ] {
        let mut config = full_config();
        config.power.policy = policy;
        let back = assert_round_trips(&config);
        assert_eq!(back.power.policy, policy);
    }
}

#[test]
fn monitor_policies_round_trip() {
    let mut config = full_config();
    config.network.policy = NetworkPolicy::Monitor;
    config.lid.policy = LidPolicy::Monitor;
    config.pci.policy = PciPolicy::Monitor;
    config.display.policy = DisplayPolicy::Monitor;
    let back = assert_round_trips(&config);
    assert_eq!(back.network.policy, NetworkPolicy::Monitor);
    assert_eq!(back.lid.policy, LidPolicy::Monitor);
    assert_eq!(back.pci.policy, PciPolicy::Monitor);
    assert_eq!(back.display.policy, DisplayPolicy::Monitor);
}

#[test]
fn quoted_and_escaped_paths_round_trip() {
    let back = assert_round_trips(&awkward_config());
    assert_eq!(
        back.general.log_file,
        "/var/log/plug\"kill\\odd/${HOME}/plugkill.log"
    );
    assert_eq!(
        back.destruction.swap_device.as_deref(),
        Some("/dev/disk/by-id/we\"ird")
    );
}

#[test]
fn empty_config_emits_the_defaults() {
    let empty = parse("").expect("an empty config is the default config");
    assert_eq!(
        to_toml(&empty).unwrap(),
        to_toml(&Config::default()).unwrap()
    );
    assert_round_trips(&empty);
}

#[test]
fn all_watch_flags_off_round_trips() {
    let mut config = full_config();
    config.general.watch_usb = false;
    config.general.watch_thunderbolt = false;
    config.general.watch_sdcard = false;
    config.general.watch_power = false;
    config.general.watch_network = false;
    config.general.watch_lid = false;
    config.general.watch_pci = false;
    config.general.watch_display = false;
    let back = assert_round_trips(&config);
    assert!(!back.general.watch_usb);
    assert!(!back.general.watch_display);
}

#[test]
fn commands_and_destruction_survive_untouched() {
    let config = full_config();
    let back = assert_round_trips(&config);
    assert_eq!(back.commands.kill_commands, config.commands.kill_commands);
    assert_eq!(
        back.destruction.files_to_remove,
        config.destruction.files_to_remove
    );
    assert_eq!(
        back.destruction.folders_to_remove,
        config.destruction.folders_to_remove
    );
    assert_eq!(back.destruction.melt_self, config.destruction.melt_self);
    assert_eq!(back.destruction.do_sync, config.destruction.do_sync);
    assert_eq!(
        back.destruction.do_wipe_swap,
        config.destruction.do_wipe_swap
    );
    assert_eq!(back.destruction.swap_device, config.destruction.swap_device);
}

/// The loader clamps out-of-range values silently, so a window showing the emitted
/// text must show what the daemon would run, not what was typed.
#[test]
fn checked_emit_shows_the_clamped_values() {
    let mut config = full_config();
    config.general.sleep_ms = 10;
    config.power.grace_secs = 600;

    let (text, back) = to_toml_checked(&config).unwrap();

    assert_eq!(back.general.sleep_ms, 50);
    assert_eq!(back.power.grace_secs, 300);
    assert!(text.contains("sleep_ms = 50"), "{text}");
    assert!(text.contains("grace_secs = 300"), "{text}");
}

#[test]
fn the_file_lists_its_sections_in_order() {
    let text = to_toml(&full_config()).unwrap();
    let sections: Vec<&str> = text.lines().filter(|l| l.starts_with('[')).collect();
    assert_eq!(
        sections,
        [
            "[general]",
            "[[whitelist.devices]]",
            "[[whitelist.devices]]",
            "[destruction]",
            "[commands]",
            "[[thunderbolt_whitelist.devices]]",
            "[[sdcard_whitelist.devices]]",
            "[power]",
            "[network]",
            "[lid]",
            "[pci]",
            "[display]",
        ]
    );
    assert!(text.starts_with("[general]\nsleep_ms = 500\nlog_file = "), "{text}");
}

#[test]
fn a_file_is_refused_for_what_is_wrong_with_it() {
    let refused = |text: &str| parse(text).unwrap_err();
    assert!(refused("[general").contains("TOML parse error"));
    for text in [
        "[generl]\n",
        "[general]\nsleep = 5\n",
        "[whitelist]\ndevices = [{}]\n",
        "[destruction]\nmelt_self = 1\n",
        "[commands]\nkill_commands = [\"/a\"]\n",
        "[thunderbolt_whitelist]\ndevices = 1\n",
        "[[sdcard_whitelist.devices]]\nserial = 1\n",
        "[power]\npolicy = \"kill\"\n",
        "[network]\ninterfaces = [1]\n",
        "[lid]\ngrace_secs = -1\n",
        "[pci]\npolicy = \"maybe\"\n",
        "display = 3\n",
    ] {
        assert_eq!(refused(text), "not a config", "{text}");
    }
    let relative = refused("[general]\nlog_file = \"plugkill.log\"\n");
    assert!(relative.contains("log_file"), "{relative}");
}

#[test]
fn a_number_toml_cannot_hold_is_refused() {
    let mut config = Config::default();
    config.lid.grace_secs = u64::MAX;
    let why = "failed to emit config as TOML: out-of-range value for u64 type";
    assert_eq!(to_toml(&config).unwrap_err(), why);
    assert_eq!(to_toml_checked(&config).unwrap_err(), why);
}

#[test]
fn quotation_marks_round_trip_as_far_as_they_print() {
    for mark in ["\"", "'"] {
        let mut config = Config::default();
        config.network.interfaces = vec![mark.repeat(255), format!("{mark}\n{mark}\\{mark}")];
        config.pci.ignore = vec!["'\"'\"".to_string(), "\u{1}\t\r\n\u{7f}".to_string()];
        assert!(prints(&config));
        assert_round_trips(&config);
        config.network.interfaces[0].push_str(mark);
        assert!(!prints(&config));
    }
    assert!(prints(&awkward_config()));
}

#[test]
fn what_breaks_a_rule_is_not_shown() {
    let mut config = Config::default();
    config.destruction.do_wipe_swap = true;
    assert_eq!(
        to_toml_checked(&config).unwrap_err(),
        "destruction.swap_device is required when do_wipe_swap is set"
    );
}

#[test]
fn nix_quotes_what_needs_quoting() {
    let nix = to_nix(&awkward_config()).unwrap();
    assert!(nix.contains(r#"\""#), "quote not escaped:\n{nix}");
    assert!(nix.contains(r"\\"), "backslash not escaped:\n{nix}");
    assert!(nix.contains("policy = \"ac-required\";"), "{nix}");
    assert!(nix.contains(r#"interfaces = [ "eth0" "wlan0" ];"#), "{nix}");
    // Every `$` is escaped, so no `${` is left starting an interpolation.
    assert!(
        !nix.replace("\\$", "").contains("${"),
        "interpolation left open:\n{nix}"
    );
}

#[test]
fn nix_empty_collections_are_empty() {
    let nix = to_nix(&Config::default()).unwrap();
    assert!(nix.contains("devices = [ ];"), "{nix}");
    assert!(nix.contains("kill_commands = [ ];"), "{nix}");
}

#[test]
fn nix_leaves_require_auth_to_the_module_option() {
    let nix = to_nix(&full_config()).unwrap();
    let (comment, attrset) = nix.split_once('\n').expect("the comment line");
    assert_eq!(comment, "# services.plugkill.requireAuth = true;");
    assert!(
        !attrset.contains("require_auth"),
        "the module refuses this key:\n{nix}"
    );
}

#[test]
fn strings_and_keys_are_quoted_as_nix_reads_them() {
    assert_eq!(nix_string("a\"b\\c${d}\n"), "\"a\\\"b\\\\c\\${d}\\n\"");
    assert_eq!(nix_key("sleep_ms"), "sleep_ms");
    assert_eq!(nix_key("odd key"), "\"odd key\"");
}

#[test]
fn a_value_is_written_at_its_indent() {
    let mut out = String::new();
    write_value(
        &Setting::Table(vec![(
            "a".to_string(),
            Setting::List(vec![Setting::Integer(-3), Setting::Boolean(true)]),
        )]),
        0,
        &mut out,
    );
    assert_eq!(out, "{\n  a = [ -3 true ];\n}");
}

#[test]
fn a_number_nix_cannot_hold_is_refused() {
    let mut config = Config::default();
    config.general.sleep_ms = u64::MAX;
    assert_eq!(
        to_nix(&config).unwrap_err(),
        "failed to emit config as Nix: u64 value was too large"
    );
}

#[test]
fn values_out_of_range_are_moved_into_it() {
    let mut config = full_config();
    config.general.sleep_ms = 10;
    config.power.grace_secs = 600;
    config.clamp();
    assert_eq!(config.general.sleep_ms, 50);
    assert_eq!(config.power.grace_secs, 300);
    assert_eq!(config.network.grace_secs, 10);
}

#[test]
fn a_copy_is_the_same_until_something_is_edited() {
    let config = awkward_config();
    let mut other = config.copy();
    assert!(config.equals(&other));
    other.commands.kill_commands[1].push("-f".to_string());
    assert!(!config.equals(&other));
}

/// What the daemon lists can be pasted into the config.
#[test]
fn a_generated_whitelist_can_be_pasted() {
    let mut text = generate_whitelist_toml(&[
        UsbDeviceInfo {
            vendor_id: "1d6b".to_string(),
            product_id: "0002".to_string(),
            product: Some("xHCI Host Controller".to_string()),
        },
        UsbDeviceInfo {
            vendor_id: "046d".to_string(),
            product_id: "c52b".to_string(),
            product: None,
        },
    ]);
    text.push_str(&generate_thunderbolt_whitelist_toml(&[
        ThunderboltDeviceInfo {
            unique_id: "00000000-1111-2222-3333-444444444444".to_string(),
            device_name: Some("Dock".to_string()),
        },
    ]));
    text.push_str(&generate_sdcard_whitelist_toml(&[SdCardDeviceInfo {
        serial: "0x12345678".to_string(),
        name: Some("SD32G".to_string()),
        card_type: None,
        cid: None,
        manfid: None,
        oemid: None,
        hwrev: None,
        fwrev: None,
        date: None,
    }]));
    let config = parse(&text).unwrap();
    let full = full_config();
    assert_eq!(config.whitelist.devices[0].product_id, "0002");
    assert_eq!(config.whitelist.devices[1], full.whitelist.devices[1]);
    assert_eq!(config.thunderbolt_whitelist, full.thunderbolt_whitelist);
    assert_eq!(config.sdcard_whitelist, full.sdcard_whitelist);
}

/// The commented example of the manual.
#[test]
fn the_documented_config_loads() {
    let config = parse(
        r#"
[general]
sleep_ms = 250                                    # polling interval, 50-10000
log_file = "/var/log/plugkill/plugkill.log"
watch_usb = true
watch_thunderbolt = true
watch_sdcard = true
watch_power = false
watch_network = false
watch_lid = false

[whitelist]
devices = [
  { vendor_id = "1d6b", product_id = "0002", count = 3 },
]

[thunderbolt_whitelist]
devices = []

[sdcard_whitelist]
devices = []

[power]
policy = "monitor"               # trigger-once, ac-required, monitor
grace_secs = 0                   # 0-300
require_locked = false           # only trigger while the session is locked

[network]
policy = "monitor"               # kill, monitor
grace_secs = 0
interfaces = ["eth0"]            # empty means all physical NICs

[lid]
policy = "monitor"               # kill, monitor
grace_secs = 0

[destruction]
files_to_remove = []             # shredded with a 3-pass random overwrite
folders_to_remove = []           # shredded recursively
melt_self = false                # delete the plugkill binary and config after the kill
do_sync = true
do_wipe_swap = false

[commands]
kill_commands = []               # [["/usr/bin/truecrypt", "--dismount"]]
"#,
    )
    .unwrap();
    let mut want = Config::default();
    want.whitelist.devices = vec![WhitelistEntry {
        vendor_id: "1d6b".to_string(),
        product_id: "0002".to_string(),
        count: 3,
    }];
    want.network.interfaces = vec!["eth0".to_string()];
    assert_eq!(config, want);
}

/// Both forms are made of the same values, so they cannot disagree.
#[test]
fn the_two_forms_agree() {
    let config = full_config();
    let (toml, nix) = (to_toml(&config).unwrap(), to_nix(&config).unwrap());
    let settings: Vec<&str> = toml
        .lines()
        .filter(|l| l.contains(" = ") && !l.contains('[') && !l.contains("require_auth"))
        .collect();
    assert!(settings.len() > 20, "{toml}");
    for line in settings {
        assert!(nix.contains(&format!("{line};")), "{line}\n{nix}");
    }
}
