//! Power, lid, network, PCI and SD cards.

use plugkill::lid::{
    lid_after, parse_lid_devd_line, read_lid_state, read_lid_state_from_proc, LidState,
};
use plugkill::network::{
    enumerate_interfaces_from, ifmedia_link_state, is_wanted, InterfaceFiles, LinkState,
    NetworkChange, NetworkSnapshot,
};
use plugkill::pci::{enumerate_pci, is_ignored, parse_pciconf, PciChange, PciSnapshot};
use plugkill::platform_freebsd::sysctl_string;
use plugkill::power::{
    is_graphical, is_session_locked, parse_acline, read_power_state_from, PowerState, Session,
    Supply,
};
use plugkill::sdcard::{
    enumerate_sdcard_devices_detailed_from, enumerate_sdcard_devices_from,
    generate_sdcard_whitelist_toml, is_mmc_card, sdcard_device_list, CardFiles, SdCardChange,
    SdCardDeviceId, SdCardDeviceInfo, SdCardSnapshot,
};
use plugkill::state::DaemonMode;
use plugkill::sysfs::{read_sysfs_attr, ReadFailure};
use plugkill::thunderbolt::{generate_thunderbolt_whitelist_toml, ThunderboltDeviceInfo};
use plugkill::usb::{generate_whitelist_toml, UsbDeviceId, UsbDeviceInfo};

// ---- attribute files -----------------------------------------------------

#[test]
fn test_permission_denied_is_io_error_naming_the_path() {
    let err = read_sysfs_attr("/sys/x/serial", Err(ReadFailure::PermissionDenied)).unwrap_err();
    assert!(err.contains("/sys/x/serial"), "{err}");
    assert!(err.contains("permission denied"), "{err}");
    assert_eq!(read_sysfs_attr("/sys/x", Err(ReadFailure::NotFound)), Ok(None));
    assert_eq!(read_sysfs_attr("/sys/x", Err(ReadFailure::Other)), Ok(None));
    assert_eq!(
        read_sysfs_attr("/sys/x", Ok(" 0x12\n".to_string())),
        Ok(Some("0x12".to_string()))
    );
}

// ---- lid -----------------------------------------------------------------

#[test]
fn test_lid_state_open() {
    assert_eq!(
        read_lid_state_from_proc(Some("state:      open\n")),
        LidState::Open
    );
}

#[test]
fn test_lid_state_closed() {
    assert_eq!(
        read_lid_state_from_proc(Some("state:      closed\n")),
        LidState::Closed
    );
}

#[test]
fn test_lid_state_nonexistent() {
    assert_eq!(read_lid_state_from_proc(None), LidState::Unknown);
}

#[test]
fn test_lid_state_unknown_content() {
    assert_eq!(
        read_lid_state_from_proc(Some("state:      something_weird\n")),
        LidState::Unknown
    );
}

#[test]
fn test_parse_lid_devd_line() {
    assert_eq!(
        parse_lid_devd_line("!system=ACPI subsystem=Lid type=notify notify=0x00"),
        Some(LidState::Closed)
    );
    assert_eq!(
        parse_lid_devd_line("!system=ACPI subsystem=Lid type=notify notify=0x01"),
        Some(LidState::Open)
    );
    // Unrelated ACPI events and other subsystems are ignored.
    assert_eq!(
        parse_lid_devd_line("!system=ACPI subsystem=Thermal notify=0x00"),
        None
    );
    assert_eq!(parse_lid_devd_line("+uhub0 at ..."), None);
}

#[test]
fn the_bus_answer_wins_over_the_file() {
    assert_eq!(
        read_lid_state(Some(true), Some("state:      open\n")),
        LidState::Closed
    );
    assert_eq!(
        read_lid_state(None, Some("state:      open\n")),
        LidState::Open
    );
    assert_eq!(
        lid_after(LidState::Open, "!system=ACPI subsystem=Thermal notify=0x00"),
        LidState::Open
    );
    assert_eq!(LidState::Closed.as_str(), "closed");
}

// ---- network -------------------------------------------------------------

fn interface(name: &str, operstate: &str, physical: bool) -> InterfaceFiles {
    InterfaceFiles {
        name: name.to_string(),
        has_device: physical,
        operstate: read_sysfs_attr("operstate", Ok(format!("{operstate}\n"))).unwrap(),
    }
}

fn links(all: &[(&str, LinkState)]) -> NetworkSnapshot {
    let mut s = NetworkSnapshot::new();
    for (name, state) in all {
        s.insert(name.to_string(), *state);
    }
    s
}

#[test]
fn test_enumerate_physical_only() {
    let dir = [
        interface("eth0", "up", true),
        interface("lo", "up", false),
        interface("docker0", "down", false),
    ];
    let snapshot = enumerate_interfaces_from(&dir, &[]);
    assert_eq!(snapshot.interfaces().len(), 1);
    assert_eq!(snapshot.get("eth0"), Some(LinkState::Up));
}

#[test]
fn test_enumerate_with_filter() {
    let dir = [interface("eth0", "up", true), interface("eth1", "up", true)];
    let snapshot = enumerate_interfaces_from(&dir, &["eth0".to_string()]);
    assert_eq!(snapshot.interfaces().len(), 1);
    assert!(snapshot.get("eth0").is_some());
    assert!(is_wanted(&[], "eth1"));
}

#[test]
fn test_detect_link_down() {
    let baseline = links(&[("eth0", LinkState::Up), ("eth1", LinkState::Up)]);
    let current = links(&[("eth0", LinkState::Down), ("eth1", LinkState::Up)]);
    let change = current.detect_link_down(&baseline);
    assert!(change.is_some());
    let change = change.unwrap();
    assert_eq!(change.interface, "eth0");
    assert_eq!(change.from, LinkState::Up);
    assert_eq!(change.to, LinkState::Down);
}

#[test]
fn test_detect_interface_disappeared() {
    let baseline = links(&[("eth0", LinkState::Up)]);
    let current = links(&[]);
    let change = current.detect_link_down(&baseline);
    assert!(change.is_some());
}

#[test]
fn network_test_no_change() {
    let baseline = links(&[("eth0", LinkState::Up)]);
    let current = links(&[("eth0", LinkState::Up)]);
    assert!(current.detect_link_down(&baseline).is_none());
}

#[test]
fn test_baseline_down_stays_down() {
    let baseline = links(&[("eth0", LinkState::Down)]);
    let current = links(&[("eth0", LinkState::Down)]);
    assert!(current.detect_link_down(&baseline).is_none());
}

#[test]
fn test_nonexistent_sysfs() {
    let snapshot = enumerate_interfaces_from(&[], &[]);
    assert!(snapshot.interfaces().is_empty());
}

#[test]
fn test_ifmedia_link_state() {
    const AVALID: i32 = 0x1;
    const ACTIVE: i32 = 0x2;
    assert_eq!(ifmedia_link_state(AVALID | ACTIVE), LinkState::Up);
    assert_eq!(ifmedia_link_state(AVALID), LinkState::Down);
    assert_eq!(ifmedia_link_state(0), LinkState::Unknown);
    // ACTIVE without AVALID is not trustworthy, so it is unknown.
    assert_eq!(ifmedia_link_state(ACTIVE), LinkState::Unknown);
}

#[test]
fn a_lost_link_is_worded() {
    let change = NetworkChange {
        interface: "eth0".to_string(),
        from: LinkState::Up,
        to: LinkState::Down,
    };
    assert_eq!(change.message(), "interface eth0 link changed: up \u{2192} down");
}

// ---- pci -----------------------------------------------------------------

fn snap(items: &[&str]) -> PciSnapshot {
    PciSnapshot::from_set(items.iter().map(|s| s.to_string()).collect())
}

#[test]
fn test_detect_added_removed() {
    let base = snap(&["pci0:1:0:0", "pci0:2:0:0"]);
    assert_eq!(
        snap(&["pci0:1:0:0", "pci0:2:0:0", "pci0:3:0:0"]).detect_changes(&base),
        Some(PciChange::Added("pci0:3:0:0".to_string()))
    );
    assert_eq!(
        snap(&["pci0:1:0:0"]).detect_changes(&base),
        Some(PciChange::Removed("pci0:2:0:0".to_string()))
    );
    assert_eq!(base.detect_changes(&base), None);
}

#[test]
fn test_parse_pciconf() {
    let out = "\
hostb0@pci0:0:0:0:\tclass=0x060000 card=0x00000000 chip=0x14631022 rev=0x00
nvme0@pci0:1:0:0:\tclass=0x010802 card=0x00000000 chip=0x53472646 rev=0x01
none1@pci0:2:0:0:\tclass=0x088000 card=0x00000000 chip=0x54321234 rev=0x00
";
    let all = parse_pciconf(out, &[]);
    assert_eq!(all.len(), 3);
    assert!(all.contains(&"pci0:1:0:0".to_string()));
    assert!(all.contains(&"pci0:2:0:0".to_string()));

    // ignore a whole slot by substring
    let filtered = parse_pciconf(out, &["pci0:2:0".to_string()]);
    assert_eq!(filtered.len(), 2);
    assert!(!filtered.contains(&"pci0:2:0:0".to_string()));
}

#[test]
fn pci_test_is_ignored() {
    let ig = vec!["0000:01:00".to_string()];
    assert!(is_ignored("0000:01:00.0", &ig));
    assert!(is_ignored("0000:01:00.1", &ig));
    assert!(!is_ignored("0000:02:00.0", &ig));
    // empty token never matches
    assert!(!is_ignored("0000:01:00.0", &[String::new()]));
}

#[test]
fn a_bus_listing_counts_each_device_once() {
    let names = ["0000:01:00.0", "0000:02:00.0", "0000:01:00.0"];
    let s = enumerate_pci(
        names.iter().map(|s| s.to_string()).collect(),
        &["0000:02".to_string()],
    );
    assert_eq!(s.len(), 1);
    assert!(!s.is_empty());
    assert_eq!(
        PciChange::Added("0000:01:00.0".to_string()).message(),
        "unauthorized PCI device added: 0000:01:00.0"
    );
}

// ---- power ---------------------------------------------------------------

fn supply(attrs: &[(&str, &str)]) -> Supply {
    let of = |key: &str| {
        attrs
            .iter()
            .find(|(k, _)| *k == key)
            .and_then(|(_, v)| read_sysfs_attr(key, Ok(format!("{v}\n"))).unwrap())
    };
    Supply {
        kind: of("type"),
        online: of("online"),
        status: of("status"),
    }
}

#[test]
fn test_power_state_ac() {
    let all = [
        supply(&[("type", "Mains"), ("online", "1")]),
        supply(&[("type", "Battery"), ("status", "Charging")]),
    ];
    assert_eq!(read_power_state_from(&all), PowerState::Ac);
}

#[test]
fn test_power_state_battery() {
    let all = [
        supply(&[("type", "Mains"), ("online", "0")]),
        supply(&[("type", "Battery"), ("status", "Discharging")]),
    ];
    assert_eq!(read_power_state_from(&all), PowerState::Battery);
}

#[test]
fn test_power_state_unknown() {
    assert_eq!(read_power_state_from(&[]), PowerState::Unknown);
}

#[test]
fn test_power_state_no_mains_charging() {
    let all = [supply(&[("type", "Battery"), ("status", "Charging")])];
    assert_eq!(read_power_state_from(&all), PowerState::Ac);
}

#[test]
fn test_power_state_no_mains_discharging() {
    let all = [supply(&[("type", "Battery"), ("status", "Discharging")])];
    assert_eq!(read_power_state_from(&all), PowerState::Unknown);
}

#[test]
fn test_parse_acline() {
    assert_eq!(parse_acline(Some(1)), PowerState::Ac);
    assert_eq!(parse_acline(Some(0)), PowerState::Battery);
    assert_eq!(parse_acline(None), PowerState::Unknown);
    assert_eq!(parse_acline(Some(42)), PowerState::Unknown);
}

#[test]
fn test_lock_detection_graceful_failure() {
    let result = is_session_locked(&[]);
    assert!(result.is_none() || result.is_some());
    let session = |kind: &str, locked| Session {
        kind: Some(kind.to_string()),
        locked,
    };
    assert_eq!(
        is_session_locked(&[session("tty", Some(true)), session("wayland", Some(false))]),
        Some(false)
    );
    assert_eq!(
        is_session_locked(&[session("x11", Some(true))]),
        Some(true)
    );
    assert!(is_graphical(&Some("wayland".to_string())));
    assert!(!is_graphical(&None));
    assert_eq!(PowerState::Battery.as_str(), "battery");
}

#[test]
fn an_unread_lock_hint_leaves_the_lock_undetermined() {
    let session = |kind: &str, locked| Session {
        kind: Some(kind.to_string()),
        locked,
    };
    assert_eq!(is_session_locked(&[session("wayland", None)]), None);
    assert_eq!(
        is_session_locked(&[session("x11", Some(false)), session("wayland", None)]),
        None
    );
    // Whatever could not be read, a locked session is locked.
    assert_eq!(
        is_session_locked(&[session("wayland", None), session("x11", Some(true))]),
        Some(true)
    );
    // A session nobody sees says nothing.
    assert_eq!(
        is_session_locked(&[session("tty", None), session("x11", Some(false))]),
        Some(false)
    );
    assert_eq!(is_session_locked(&[session("tty", Some(true))]), None);
}

// ---- sd cards ------------------------------------------------------------

fn sd_id(serial: &str) -> SdCardDeviceId {
    SdCardDeviceId {
        serial: serial.to_string(),
    }
}

fn sd_snapshot(serials: &[&str]) -> SdCardSnapshot {
    SdCardSnapshot::from_map(serials.iter().map(|s| (sd_id(s), 1)).collect())
}

fn card(dir: &str, attrs: &[(&str, &str)]) -> CardFiles<String> {
    let of = |key: &str| {
        Ok(attrs
            .iter()
            .find(|(k, _)| *k == key)
            .map(|(_, v)| v.to_string()))
    };
    CardFiles {
        dir: dir.to_string(),
        card_type: of("type"),
        serial: of("serial"),
        name: of("name"),
        cid: of("cid"),
        manfid: of("manfid"),
        oemid: of("oemid"),
        hwrev: of("hwrev"),
        fwrev: of("fwrev"),
        date: of("date"),
    }
}

#[test]
fn sdcard_test_no_change() {
    let baseline = sd_snapshot(&["0x12345678", "0xabcdef01"]);
    let current = sd_snapshot(&["0x12345678", "0xabcdef01"]);
    let whitelist = SdCardSnapshot::new();
    assert_eq!(current.detect_changes(&baseline, &whitelist), None);
}

#[test]
fn test_added_device() {
    let baseline = sd_snapshot(&["0x12345678"]);
    let current = sd_snapshot(&["0x12345678", "0xdeadbeef"]);
    let whitelist = SdCardSnapshot::new();
    let change = current.detect_changes(&baseline, &whitelist);
    assert!(matches!(change, Some(SdCardChange::Added(ref d)) if d.serial == "0xdeadbeef"));
}

#[test]
fn test_removed_device() {
    let baseline = sd_snapshot(&["0x12345678", "0xabcdef01"]);
    let current = sd_snapshot(&["0x12345678"]);
    let whitelist = SdCardSnapshot::new();
    let change = current.detect_changes(&baseline, &whitelist);
    assert!(matches!(change, Some(SdCardChange::Removed(ref d)) if d.serial == "0xabcdef01"));
}

#[test]
fn test_added_device_whitelisted() {
    let baseline = sd_snapshot(&["0x12345678"]);
    let current = sd_snapshot(&["0x12345678", "0xdeadbeef"]);
    let whitelist = sd_snapshot(&["0xdeadbeef"]);
    assert_eq!(current.detect_changes(&baseline, &whitelist), None);
}

#[test]
fn test_enumerate_from_mock_sysfs() {
    let entries = vec![
        card("mmc0:0001", &[("type", "SD"), ("serial", "0x12345678")]),
        card("mmc1:0001", &[("type", "MMC"), ("serial", "0xabcdef01")]),
        card("mmc2:0001", &[("serial", "0x99999999")]),
        card("something-else", &[]),
    ];
    let snapshot = enumerate_sdcard_devices_from(entries).unwrap();
    assert_eq!(snapshot.len(), 2);
    let has = |s: &str| snapshot.devices().iter().any(|(id, _)| *id == sd_id(s));
    assert!(has("0x12345678"));
    assert!(has("0xabcdef01"));
}

#[test]
fn test_skip_non_card_entries() {
    assert!(is_mmc_card("mmc0:0001"));
    assert!(is_mmc_card("mmc1:0001"));
    assert!(!is_mmc_card("something-else"));
    assert!(!is_mmc_card("mmc0"));
    assert!(!is_mmc_card("usb1-1"));
}

#[test]
fn test_enumerate_detailed_from_mock_sysfs() {
    let entries = vec![card(
        "mmc0:0001",
        &[
            ("type", "SD"),
            ("serial", "0x12345678"),
            ("name", "SD32G"),
            ("cid", "03534453333247800123456700015600"),
            ("manfid", "0x000003"),
            ("oemid", "0x5344"),
            ("hwrev", "0x8"),
            ("fwrev", "0x0"),
            ("date", "01/2024"),
        ],
    )];
    let devices = enumerate_sdcard_devices_detailed_from(entries).unwrap();
    assert_eq!(devices.len(), 1);
    let d = &devices[0];
    assert_eq!(d.serial, "0x12345678");
    assert_eq!(d.name.as_deref(), Some("SD32G"));
    assert_eq!(d.card_type.as_deref(), Some("SD"));
    assert_eq!(d.manfid.as_deref(), Some("0x000003"));
    assert_eq!(d.date.as_deref(), Some("01/2024"));
}

#[test]
fn a_file_that_cannot_be_read_fails_the_walk() {
    let mut bad = card("mmc0:0001", &[("type", "SD")]);
    bad.serial = Err("permission denied".to_string());
    assert_eq!(
        enumerate_sdcard_devices_from(vec![bad]).unwrap_err(),
        "permission denied"
    );
}

#[test]
fn card_lists_and_whitelists_are_worded() {
    let info = SdCardDeviceInfo {
        serial: "0xdeadbeef".to_string(),
        name: Some("SanDisk".to_string()),
        ..SdCardDeviceInfo::default()
    };
    let toml = generate_sdcard_whitelist_toml(&[info.clone()]);
    assert!(toml.contains("serial = \"0xdeadbeef\""), "{toml}");
    let list = sdcard_device_list(&[info], Some(&["0xdeadbeef".to_string()]));
    assert!(list.contains("0xdeadbeef"), "{list}");
    assert_eq!(
        SdCardChange::Added(sd_id("0x1")).device_id().serial,
        "0x1"
    );
}

#[test]
fn whitelist_entries_name_their_devices() {
    let usb = generate_whitelist_toml(&[UsbDeviceInfo {
        vendor_id: "1d6b".to_string(),
        product_id: "0002".to_string(),
        product: Some("Hub".to_string()),
    }]);
    assert!(
        usb.contains("vendor_id = \"1d6b\"") && usb.contains("product_id = \"0002\""),
        "{usb}"
    );
    let tb = generate_thunderbolt_whitelist_toml(&[ThunderboltDeviceInfo {
        unique_id: "uuid-aaa".to_string(),
        device_name: None,
    }]);
    assert!(tb.contains("unique_id = \"uuid-aaa\""), "{tb}");
    let id = UsbDeviceId {
        vendor_id: "1d6b".to_string(),
        product_id: "0002".to_string(),
    };
    assert_eq!(id.text(), "1d6b:0002");
    assert_eq!(DaemonMode::Learn.as_str(), "learn");
}

#[test]
fn a_string_sysctl_loses_its_nuls() {
    assert_eq!(sysctl_string(b"14.1-RELEASE\0\0", 13).as_deref(), Some("14.1-RELEASE"));
    assert_eq!(sysctl_string(b"a\0b\0", 9).as_deref(), Some("a\0b"));
    assert_eq!(sysctl_string(b"abc", 2).as_deref(), Some("ab"));
    assert_eq!(sysctl_string(b"\0", 1).as_deref(), Some(""));
    assert_eq!(sysctl_string(&[0xff, 0], 2), None);
}

#[test]
fn test_power_state_nonexistent_dir() {
    // A directory that is not there lists no supply.
    assert_eq!(read_power_state_from(&[]), PowerState::Unknown);
}

#[test]
fn the_list_and_the_snapshot_agree() {
    let walk = || {
        vec![
            card("mmc1:0001", &[("type", "SD"), ("serial", "0x2"), ("name", "")]),
            card("mmc0:0001", &[("type", "MMC"), ("serial", "0x1"), ("name", "A")]),
            card("mmc2:0001", &[("type", "SD"), ("serial", "0x2")]),
            card("mmc3:0001", &[("type", "SD"), ("serial", "")]),
            card("mmc4:0001", &[("serial", "0x9")]),
            card("other", &[("type", "SD"), ("serial", "0x8")]),
        ]
    };
    let list = enumerate_sdcard_devices_detailed_from(walk()).unwrap();
    let serials: Vec<&str> = list.iter().map(|d| d.serial.as_str()).collect();
    assert_eq!(serials, ["0x1", "0x2", "0x2"]);
    assert!(list.iter().all(|d| d.card_type.is_some() && d.name.as_deref() != Some("")));
    let snapshot = enumerate_sdcard_devices_from(walk()).unwrap();
    let mut cards: Vec<(&str, u32)> = snapshot
        .devices()
        .iter()
        .map(|(id, n)| (id.serial.as_str(), *n))
        .collect();
    cards.sort();
    assert_eq!(cards, [("0x1", 1), ("0x2", 1)]);
}
