//! Selectors and the table of runtime allowances.

use plugkill::allowances::{Allowance, AllowanceTable, DeviceRef, Grant};
use plugkill::edid::EdidId;

const SEC: u128 = 1_000_000_000;

fn r(s: &str) -> DeviceRef {
    s.parse().expect("selector should parse")
}

fn active(table: &AllowanceTable, now: u128) -> Vec<String> {
    table.active(now).iter().map(|a| a.id.selector()).collect()
}

fn edid(mfg: &str, product: u16, serial: Option<u32>) -> EdidId {
    EdidId {
        mfg: mfg.to_string(),
        product,
        serial,
        name: String::new(),
    }
}

#[test]
fn test_selectors_round_trip_on_every_bus() {
    for s in [
        "usb:1d6b:0002",
        "thunderbolt:0040-0c08-c4c1-a7f3-0000-0000-0000-0000",
        "sdcard:0x0000ba5e",
        "pci:0000:01:00.0",
        "display:SAM:772d:811021873",
        "display:TMA:2064",
    ] {
        assert_eq!(r(s).selector(), s, "round trip of {s}");
    }
}

#[test]
fn test_pci_selector_keeps_its_own_colons() {
    assert_eq!(r("pci:0000:01:00.0"), DeviceRef::Pci("0000:01:00.0".into()));
    assert_eq!(r("pci:0000:01:00.0").bus(), "pci");
}

#[test]
fn test_display_without_serial_parses_and_prints_short() {
    let d = r("display:TMA:2064");
    assert_eq!(d, DeviceRef::Display(edid("TMA", 0x2064, None)));
    assert_eq!(d.selector(), "display:TMA:2064");
}

#[test]
fn test_usb_ids_are_normalised_to_sysfs_case() {
    assert_eq!(r("usb:1D6B:00A2").selector(), "usb:1d6b:00a2");
}

#[test]
fn test_event_buses_are_refused_and_point_at_disarm() {
    for bus in ["power", "network", "lid"] {
        let err = format!("{bus}:anything").parse::<DeviceRef>().unwrap_err();
        assert!(err.contains("events"), "{bus}: {err}");
        assert!(err.contains("disarm"), "{bus}: {err}");
    }
}

#[test]
fn test_malformed_selectors_are_refused() {
    for s in [
        "",
        "usb",
        "usb:1d6b",
        "usb:zzzz:0002",
        "usb:1d6b:00002",
        "thunderbolt:",
        "sdcard:",
        "pci:01:00.0",
        "pci:0000:01:00.x",
        "display:SAMSUNG:772d",
        "display:SAM",
        "display:SAM:772d:811021873:extra",
        "display:SAM:772d:notaserial",
        "keyboard:a",
    ] {
        assert!(s.parse::<DeviceRef>().is_err(), "'{s}' should be refused");
    }
}

#[test]
fn test_sweep_drops_expired_and_reports_them() {
    let t0: u128 = 7 * SEC;
    let mut table = AllowanceTable::new();
    table.add(Allowance::new(
        r("usb:1d6b:0002"),
        Grant::Paired,
        t0,
        Some(60 * SEC),
    ));
    table.add(Allowance::new(r("sdcard:abc"), Grant::Promoted, t0, None));

    let later = t0 + 61 * SEC;
    assert!(active(&table, t0 + 59 * SEC).contains(&"usb:1d6b:0002".to_string()));
    assert!(
        !active(&table, later).contains(&"usb:1d6b:0002".to_string()),
        "expired before sweep too"
    );

    let dropped = table.sweep(later);
    assert_eq!(dropped.len(), 1);
    assert_eq!(dropped[0].id.selector(), "usb:1d6b:0002");
    assert_eq!(table.len(), 1);
    assert!(
        active(&table, later).contains(&"sdcard:abc".to_string()),
        "no expiry means no drop"
    );
}

#[test]
fn test_an_approaching_expiry_warns_once() {
    let t0: u128 = 7 * SEC;
    let mut table = AllowanceTable::new();
    table.add(Allowance::new(
        r("usb:1d6b:0002"),
        Grant::Paired,
        t0,
        Some(90 * SEC),
    ));
    table.add(Allowance::new(r("sdcard:abc"), Grant::Promoted, t0, None));

    let ahead = 60 * SEC;
    assert!(
        table.due_to_warn(t0, ahead).is_empty(),
        "90s out is not approaching"
    );

    let close = t0 + 31 * SEC;
    let due = table.due_to_warn(close, ahead);
    assert_eq!(due.len(), 1, "only the timed one warns: {due:?}");
    assert_eq!(due[0].0, "usb:1d6b:0002");
    assert_eq!(due[0].1 / SEC, 59);

    assert!(
        table.due_to_warn(close, ahead).is_empty(),
        "a warned allowance must not warn again on every poll"
    );
}

#[test]
fn test_add_replaces_and_remove_takes_one() {
    let t0: u128 = 0;
    let mut table = AllowanceTable::new();
    table.add(Allowance::new(r("usb:1d6b:0002"), Grant::Paired, t0, None));
    let old = table.add(Allowance::new(
        r("usb:1d6b:0002"),
        Grant::Promoted,
        t0,
        None,
    ));
    assert_eq!(old.map(|a| a.granted_by), Some(Grant::Paired));
    assert_eq!(table.len(), 1);

    assert!(table.remove(&r("usb:dead:beef")).is_none());
    assert!(table.remove(&r("usb:1d6b:0002")).is_some());
    assert!(table.is_empty());
    assert_eq!(table.clear(), 0);
}

#[test]
fn test_display_matches_the_monitor_not_the_connector() {
    let t0: u128 = 0;
    let mut table = AllowanceTable::new();
    table.add(Allowance::new(
        r("display:SAM:772d:811021873"),
        Grant::Paired,
        t0,
        None,
    ));

    // The same panel, read from another port: same EDID, different name
    // padding, still allowed.
    let mut moved = edid("SAM", 0x772d, Some(811_021_873));
    moved.name = "Odyssey G93SD".into();
    let moved = DeviceRef::Display(moved);
    assert!(table.active(t0).iter().any(|a| a.id == moved));

    // A different monitor, the same model with a different serial, and a
    // serial-less panel against a serialled allowance.
    for other in [
        edid("DEL", 0x4321, Some(7)),
        edid("SAM", 0x772d, Some(1)),
        edid("SAM", 0x772d, None),
    ] {
        let other = DeviceRef::Display(other);
        assert!(!table.active(t0).iter().any(|a| a.id == other));
    }
}

#[test]
fn an_allowance_counts_its_age_and_what_is_left() {
    let a = Allowance::new(r("sdcard:abc"), Grant::Paired, 10 * SEC, Some(5 * SEC));
    assert_eq!(a.age(12 * SEC), 2 * SEC);
    assert_eq!(a.age(9 * SEC), 0);
    assert_eq!(a.expires_in(12 * SEC), Some(3 * SEC));
    assert_eq!(a.expires_in(20 * SEC), Some(0));
    assert!(a.is_active(14 * SEC));
    assert!(!a.is_active(15 * SEC));
    assert_eq!(a.granted_by.as_str(), "paired");
    let named = a.with_name(Some("card".into()));
    assert_eq!(named.name.as_deref(), Some("card"));
}

#[test]
fn every_refusal_says_what_is_wrong() {
    assert!(DeviceRef::parse("usb").is_err());
    let plain = DeviceRef::parse("keyboard:a").unwrap_err();
    assert!(plain.contains("keyboard"), "{plain}");
    let usb = DeviceRef::parse("usb:1d6b:xyz").unwrap_err();
    assert!(usb.contains("xyz"), "{usb}");
    assert_eq!(
        DeviceRef::parse("display:SAM:772d:7").unwrap().selector(),
        "display:SAM:772d:7"
    );
}

#[test]
fn clearing_counts_what_went() {
    let mut table = AllowanceTable::new();
    table.add(Allowance::new(r("sdcard:a"), Grant::Paired, 0, None));
    table.add(Allowance::new(r("sdcard:b"), Grant::Paired, 0, None));
    assert_eq!(table.iter().len(), 2);
    assert_eq!(table.clear(), 2);
    assert!(table.is_empty());
}

#[test]
fn a_bare_bus_names_no_device() {
    for bus in ["usb", "thunderbolt", "sdcard", "pci", "display", "power", "floppy", ""] {
        assert!(DeviceRef::parse(&format!("{bus}:")).is_err(), "{bus}");
    }
}

#[test]
fn a_selector_parses_through_the_trait() {
    assert_eq!(
        "usb:1D6B:0002".parse::<DeviceRef>(),
        DeviceRef::parse("usb:1d6b:0002")
    );
    assert!("usb:1d6b:0002".parse::<DeviceRef>().is_ok());
    let why = "lid:closed".parse::<DeviceRef>().unwrap_err();
    assert!(why.contains("events") && why.contains("disarm"), "{why}");
}
