//! The settings window's panels.

use plugkill::gui::settings::allowances::{pairing_line, rows, same_rows, selectors, Row};
use plugkill::gui::settings::devices::{
    attached, describe, expansion, groups, instances, more_note, offered_expansion, segments,
    summary, tree, Action, AttachedMap, Group, Node, Row as DeviceRow, NOT_CONNECTED, NOT_LISTED,
    UNNAMED,
};
use plugkill::gui::settings::violations;
use plugkill::gui::status::{BusDevices, DeviceEntry, Devices, Status, Violation};
use plugkill::gui::wire::parse_response;
use plugkill::ipc::BUSES;
use plugkill::json::{read, Json};

fn json(text: &str) -> Json {
    read(text).expect("JSON should parse")
}

fn status(extra: &str) -> Status {
    let mut data: serde_json::Value =
        serde_json::from_str(r#"{"armed": true, "mode": "enforce"}"#).unwrap();
    let more: serde_json::Value = serde_json::from_str(extra).unwrap();
    for (k, v) in more.as_object().unwrap() {
        data[k] = v.clone();
    }
    parse_response(json(&format!(r#"{{"ok": true, "data": {data}}}"#))).expect("status parses")
}

fn known(pairs: &[(&str, &str)]) -> AttachedMap {
    let mut m = AttachedMap::new();
    for (selector, name) in pairs {
        m.insert(selector, name);
    }
    m
}

/// A reply that listed both bus trees in full and found nothing on them.
fn nothing() -> AttachedMap {
    known(&[("usb:", ""), ("pci:", "")])
}

// ---- allowances ----------------------------------------------------------

const ALLOWANCES: &str = r#"{"allowances": [
    {"selector": "usb:1050:0407", "bus": "usb", "name": "YubiKey",
     "granted_by": "paired", "age_secs": 65, "expires_in_secs": 252},
    {"selector": "pci:0000:01:00.0", "bus": "pci", "name": null,
     "granted_by": "promoted", "age_secs": 0, "expires_in_secs": null},
    {"selector": "sdcard:0x0000ba5e", "bus": "sdcard", "name": "SD card",
     "granted_by": "paired", "age_secs": 3600, "expires_in_secs": 0}
]}"#;

fn allowances() -> Status {
    status(ALLOWANCES)
}

#[test]
fn test_rows_render_every_column_the_daemon_sends() {
    let rows = rows(Some(&allowances()), &nothing());
    assert_eq!(rows.len(), 3);
    assert_eq!(
        rows[0],
        Row {
            selector: "usb:1050:0407".into(),
            bus: "usb".into(),
            name: "YubiKey".into(),
            granted: "paired".into(),
            age: "1m 5s".into(),
            expiry: "in 4m 12s".into(),
        }
    );
    // No name and no expiry are the common case, not a missing field.
    // Nothing is attached here, so the row says that rather than nothing.
    assert_eq!(rows[1].name, NOT_CONNECTED);
    assert_eq!(rows[1].expiry, "never");
    assert_eq!(rows[1].age, "0s");
}

#[test]
fn test_a_row_the_daemon_named_nothing_on_takes_the_name_from_the_reply() {
    let attached = known(&[("pci:0000:01:00.0", "Network controller")]);
    let rows = rows(Some(&allowances()), &attached);
    assert_eq!(rows[1].name, "Network controller");
    // The daemon's own name still wins where it has one: it is what was
    // granted, whatever is plugged in now.
    assert_eq!(rows[0].name, "YubiKey");
}

#[test]
fn test_an_expiry_that_has_passed_says_so() {
    let rows = rows(Some(&allowances()), &nothing());
    assert_eq!(rows[2].expiry, "expired");
}

#[test]
fn test_no_status_or_no_allowances_is_an_empty_table() {
    assert!(rows(None, &nothing()).is_empty());
    assert!(rows(Some(&status("{}")), &nothing()).is_empty());
    assert!(rows(Some(&status(r#"{"allowances": []}"#)), &nothing()).is_empty());
}

#[test]
fn test_selectors_are_what_the_devices_panel_matches_on() {
    assert_eq!(
        selectors(Some(&allowances())),
        ["usb:1050:0407", "pci:0000:01:00.0", "sdcard:0x0000ba5e"]
    );
    assert!(selectors(None).is_empty());
}

#[test]
fn test_the_pairing_line_says_whether_a_window_is_open() {
    assert_eq!(
        pairing_line(Some(&status(r#"{"pairing_window_secs_left": 252}"#))),
        "A pairing window is open: the next new device is allowed, 4m 12s left"
    );
    assert_eq!(pairing_line(None), "No pairing window is open.");
    assert_eq!(
        pairing_line(Some(&status("{}"))),
        "No pairing window is open."
    );
}

#[test]
fn test_only_a_real_change_rebuilds_the_table() {
    // The age ticks every second. Rebuilding on that would take a
    // half-made Revoke click with it.
    let older = status(
        &ALLOWANCES
            .replace("\"age_secs\": 65", "\"age_secs\": 66")
            .replace("\"expires_in_secs\": 252", "\"expires_in_secs\": 251"),
    );
    assert!(same_rows(
        &rows(Some(&allowances()), &nothing()),
        &rows(Some(&older), &nothing())
    ));

    let moved = status(&ALLOWANCES.replace("usb:1050:0407", "usb:1050:0408"));
    assert!(!same_rows(
        &rows(Some(&allowances()), &nothing()),
        &rows(Some(&moved), &nothing())
    ));
    assert!(!same_rows(
        &rows(Some(&allowances()), &nothing()),
        &rows(None, &nothing())
    ));
}

// ---- devices -------------------------------------------------------------

fn devices(buses: &[(&str, bool, &[&str], u64)]) -> Devices {
    buses
        .iter()
        .map(|(bus, watched, entries, more)| {
            (
                (*bus).to_string(),
                BusDevices {
                    watched: *watched,
                    entries: entries.iter().map(|&e| DeviceEntry::bare(e)).collect(),
                    more: *more,
                },
            )
        })
        .collect()
}

fn nested(bus: &str, entries: &[(&str, &str)]) -> Devices {
    vec![(
        bus.to_string(),
        BusDevices {
            watched: true,
            entries: entries
                .iter()
                .map(|(text, path)| DeviceEntry {
                    text: (*text).to_string(),
                    path: (*path).to_string(),
                })
                .collect(),
            more: 0,
        },
    )]
}

fn group<'a>(groups: &'a [Group], name: &str) -> &'a Group {
    groups.iter().find(|g| g.name == name).expect("bus listed")
}

fn row(path: &str, id: &str, name: &str) -> (String, DeviceRow) {
    (
        path.to_string(),
        DeviceRow {
            text: format!("{id} {name}"),
            selector: Some(format!("usb:{id}")),
            name: Some(name.to_string()),
            action: Action::Add,
        },
    )
}

fn ids(nodes: &[Node]) -> Vec<&str> {
    nodes.iter().map(|n| n.row.text.as_str()).collect()
}

#[test]
fn test_every_bus_is_grouped_in_the_order_the_daemon_names_them() {
    let d = devices(&[("usb", true, &["1050:0407 YubiKey"], 0)]);
    let groups = groups(&d, &[], &[]);
    assert_eq!(groups.len(), BUSES.len(), "every bus is listed");
    assert_eq!(groups[0].name, "USB");
    assert_eq!(groups[0].nodes.len(), 1);
    assert_eq!(groups[0].nodes[0].row.text, "1050:0407 YubiKey");
}

#[test]
fn test_an_uncovered_device_offers_the_whitelist_entry_with_its_name() {
    let d = devices(&[("usb", true, &["1050:0407 YubiKey"], 0)]);
    let row = &groups(&d, &[], &[])[0].nodes[0].row;
    assert_eq!(row.action, Action::Add);
    assert_eq!(row.selector.as_deref(), Some("usb:1050:0407"));
    assert_eq!(row.name.as_deref(), Some("YubiKey"));
    // An unnamed device still carries the action, with no name to fill in.
    let bare = devices(&[("usb", true, &["1d6b:0002"], 0)]);
    let row = &groups(&bare, &[], &[])[0].nodes[0].row;
    assert_eq!(row.action, Action::Add);
    assert_eq!(row.name, None);
}

#[test]
fn test_a_covered_device_says_which_covers_it() {
    let d = devices(&[
        ("usb", true, &["1050:0407 YubiKey", "1d6b:0002 Hub"], 0),
        ("pci", true, &["0000:01:00.0"], 0),
    ]);
    let allowed = vec!["usb:1d6b:0002".to_string()];
    let whitelisted = vec!["usb:1050:0407".to_string(), "pci:0000:01:00.0".to_string()];
    let groups = groups(&d, &allowed, &whitelisted);
    let usb = group(&groups, "USB");
    assert_eq!(usb.nodes[0].row.action, Action::Covered("in the whitelist"));
    assert_eq!(
        usb.nodes[1].row.action,
        Action::Covered("allowed at runtime")
    );
    assert_eq!(
        group(&groups, "PCI").nodes[0].row.action,
        Action::Covered("in the whitelist")
    );
}

#[test]
fn test_the_config_wins_when_both_cover_a_device() {
    let d = devices(&[("usb", true, &["1050:0407 YubiKey"], 0)]);
    let both = vec!["usb:1050:0407".to_string()];
    assert_eq!(
        groups(&d, &both, &both)[0].nodes[0].row.action,
        Action::Covered("in the whitelist")
    );
}

#[test]
fn test_a_listing_without_an_identity_says_why_where_there_is_a_reason() {
    let d = devices(&[
        ("thunderbolt", true, &["8086:0b26 Dock"], 0),
        ("sdcard", true, &["0x03:0x5344 SD"], 0),
        ("lid", true, &["open"], 0),
        ("network", true, &["eth0: up"], 0),
    ]);
    let groups = groups(&d, &[], &[]);
    assert_eq!(
        group(&groups, "Thunderbolt").nodes[0].row.action,
        Action::Unmatched("whitelisted by unique id, which this listing does not carry")
    );
    assert_eq!(
        group(&groups, "SD card").nodes[0].row.action,
        Action::Unmatched("whitelisted by serial, which this listing does not carry")
    );
    for bus in ["Lid", "Network"] {
        assert_eq!(group(&groups, bus).nodes[0].row.action, Action::Nothing);
    }
}

#[test]
fn test_a_pci_ignore_prefix_covers_everything_under_it() {
    let d = devices(&[("pci", true, &["0000:01:00.0", "0000:02:00.0"], 0)]);
    let groups = groups(&d, &[], &["pci:0000:01".to_string()]);
    let pci = group(&groups, "PCI");
    assert_eq!(pci.nodes[0].row.action, Action::Covered("in the whitelist"));
    assert_eq!(pci.nodes[1].row.action, Action::Add);
}

#[test]
fn test_an_unwatched_bus_is_listed_greyed_with_its_reason() {
    let d = devices(&[("usb", true, &[], 0), ("pci", false, &[], 0)]);
    let groups = groups(&d, &[], &[]);
    let pci = group(&groups, "PCI");
    assert!(!pci.watched);
    assert_eq!(
        pci.reason.as_deref(),
        Some("not watched: general.watch_pci is off")
    );
    assert!(pci.nodes.is_empty());
    assert!(group(&groups, "USB").reason.is_none());
}

#[test]
fn test_a_bus_the_daemon_left_out_says_so_rather_than_guessing() {
    let groups = groups(&devices(&[]), &[], &[]);
    let usb = group(&groups, "USB");
    assert!(!usb.watched);
    assert_eq!(
        usb.reason.as_deref(),
        Some("this daemon did not report the bus")
    );
}

#[test]
fn test_the_dropped_entries_are_carried_through() {
    let d = devices(&[("pci", true, &["0000:00:00.0"], 11)]);
    let groups = groups(&d, &[], &[]);
    assert_eq!(group(&groups, "PCI").more, 11);
    assert_eq!(
        more_note(group(&groups, "PCI")).as_deref(),
        Some("and 11 more, so this tree is incomplete")
    );
    assert_eq!(more_note(group(&groups, "USB")), None);
}

#[test]
fn test_a_path_nests_under_the_port_it_names() {
    let nodes = tree(&vec![
        row("2-3", "1d6b:0002", "Hub"),
        row("2-3.4", "1050:0407", "YubiKey"),
        row("2-3.4.3", "046d:c52b", "Receiver"),
        row("1-1", "8087:0aaa", "Bluetooth"),
    ]);
    assert_eq!(ids(&nodes), ["1d6b:0002 Hub", "8087:0aaa Bluetooth"]);
    let hub = &nodes[0];
    assert_eq!(ids(&hub.children), ["1050:0407 YubiKey"]);
    assert_eq!(ids(&hub.children[0].children), ["046d:c52b Receiver"]);
    assert!(nodes[1].children.is_empty(), "a leaf has no children");
}

#[test]
fn test_a_child_whose_parent_is_missing_hangs_off_the_nearest_listed_port() {
    let nodes = tree(&vec![
        row("2-3", "1d6b:0002", "Hub"),
        row("2-3.4.3", "046d:c52b", "Receiver"),
    ]);
    assert_eq!(ids(&nodes), ["1d6b:0002 Hub"]);
    assert_eq!(ids(&nodes[0].children), ["046d:c52b Receiver"]);
}

#[test]
fn test_a_path_with_no_parent_and_a_malformed_one_are_roots() {
    let nodes = tree(&vec![
        // No ancestor in the reply at all.
        row("4-2.1", "1050:0407", "YubiKey"),
        // No path: an older daemon, or a bus with no topology.
        row("", "8087:0aaa", "Bluetooth"),
        // Nothing that looks like a port path.
        row("...", "046d:c52b", "Receiver"),
        row("2-3", "1d6b:0002", "Hub"),
    ]);
    assert_eq!(nodes.len(), 4, "every one of them is a root");
    assert!(nodes.iter().all(|n| n.children.is_empty()));
}

#[test]
fn test_two_entries_on_one_path_do_not_parent_each_other() {
    let nodes = tree(&vec![
        row("2-3", "1d6b:0002", "Hub"),
        row("2-3", "1d6b:0003", "Hub"),
    ]);
    assert_eq!(nodes.len(), 2);
}

#[test]
fn test_an_expansion_is_the_devices_behind_the_port_and_nothing_else() {
    let mut nodes = tree(&vec![
        row("2-3", "1d6b:0002", "Hub"),
        row("2-3.1", "1050:0407", "YubiKey"),
        row("2-3.2", "046d:c52b", "Receiver"),
        // Another port entirely: never part of this expansion.
        row("1-1", "8087:0aaa", "Bluetooth"),
    ]);
    // One device behind the hub is already covered, so the expansion does
    // not offer it again.
    nodes[0].children[1].row.action = Action::Covered("in the whitelist");
    let rows = expansion(&nodes[0]);
    assert_eq!(
        rows.iter()
            .map(|(r, n)| (r.selector.clone().unwrap_or_default(), *n))
            .collect::<Vec<_>>(),
        [
            ("usb:1d6b:0002".to_string(), 1),
            ("usb:1050:0407".to_string(), 1)
        ]
    );
    assert!(summary(&rows).contains("Adds 2 whitelist entries"));
    // A leaf offers nothing to expand.
    assert_eq!(expansion(&nodes[1]).len(), 1);
    assert!(offered_expansion(&nodes[1]).is_none());
    assert_eq!(offered_expansion(&nodes[0]), Some(rows));
}

#[test]
fn test_a_name_is_resolved_or_the_row_says_why_it_is_not() {
    let attached = known(&[
        ("usb:1050:0407", "YubiKey"),
        // A device that named itself nothing: still attached.
        ("usb:1d6b:0002", ""),
        ("pci:0000:01:00.0", ""),
        // Both buses were listed in full.
        ("usb:", ""),
        ("pci:", ""),
    ]);
    assert_eq!(describe("usb:1050:0407", &attached), "YubiKey");
    assert_eq!(describe("usb:1d6b:0002", &attached), UNNAMED);
    assert_eq!(describe("usb:dead:beef", &attached), NOT_CONNECTED);
    // A pci prefix entry matches the way the daemon matches it.
    assert_eq!(describe("pci:0000:01", &attached), UNNAMED);
    assert_eq!(describe("pci:0000:09", &attached), NOT_CONNECTED);
    // A bus the listing cannot match on does not claim it is unplugged.
    assert!(describe("thunderbolt:abc", &attached).contains("unique id"));
    assert_eq!(describe("", &attached), NOT_LISTED);
    // Nor does a bus the reply could not list in full: a device past the
    // cap, or on a bus that failed to enumerate, is not "not connected".
    let capped = AttachedMap::new();
    assert_eq!(describe("usb:1050:0407", &capped), NOT_LISTED);
}

fn pixels(ancestors: &[bool], last: bool, w: u32, h: u32) -> Vec<(f64, f64, f64, f64)> {
    segments(ancestors, last, w, h)
        .iter()
        .map(|&(a, b, c, d)| {
            (
                a as f64 / 2.0,
                b as f64 / 2.0,
                c as f64 / 2.0,
                d as f64 / 2.0,
            )
        })
        .collect()
}

#[test]
fn test_the_stem_draws_the_tree() {
    assert!(pixels(&[], true, 40, 20).is_empty(), "a root has no stem");

    let last = pixels(&[true], true, 40, 20);
    assert_eq!(last, [(9.5, 0.0, 9.5, 10.5), (9.5, 10.5, 40.0, 10.5)]);

    let more = pixels(&[true], false, 40, 20);
    assert_eq!(
        more,
        [(9.5, 0.0, 9.5, 20.0), (9.5, 10.5, 40.0, 10.5)],
        "a row with siblings below keeps its bar going to the bottom"
    );

    // Two levels down, under a grandparent that still has siblings: its
    // bar runs the whole height beside this row's own elbow.
    let deep = pixels(&[true, true], true, 60, 20);
    assert_eq!(
        deep,
        [
            (9.5, 0.0, 9.5, 20.0),
            (27.5, 0.0, 27.5, 10.5),
            (27.5, 10.5, 60.0, 10.5)
        ]
    );

    // Same depth, but the grandparent was the last of its own: no bar.
    let quiet = pixels(&[true, false], true, 60, 20);
    assert_eq!(quiet, [(27.5, 0.0, 27.5, 10.5), (27.5, 10.5, 60.0, 10.5)]);
}

#[test]
fn test_the_attached_table_carries_the_name_and_says_which_buses_it_speaks_for() {
    let d = nested(
        "usb",
        &[
            ("1d6b:0002 Root", "usb2"),
            ("05e3:0610 Hub", "2-3"),
            ("1050:0407 YubiKey", "2-3.4"),
        ],
    );
    let all = attached(&d);
    assert_eq!(all.get("usb:1050:0407").unwrap().name, "YubiKey");
    assert_eq!(all.get("usb:05e3:0610").unwrap().name, "Hub");
    // The bus was watched and listed whole, so a miss on it is a device
    // that is really not there.
    assert!(all.get("usb:").is_some());
    assert_eq!(describe("usb:dead:beef", &all), NOT_CONNECTED);

    // Capped, so it cannot speak for what it did not list.
    let mut capped = nested("usb", &[("1d6b:0002 Root", "usb2")]);
    capped[0].1.more = 3;
    let capped = attached(&capped);
    assert!(capped.get("usb:").is_none());
    assert_eq!(describe("usb:dead:beef", &capped), NOT_LISTED);
    assert!(!capped.equals(&all));
    assert!(all.equals(&attached(&d)));
    assert_eq!(all.len(), 4);
}

#[test]
fn test_groups_nests_the_paths_the_daemon_actually_sends() {
    let d = nested(
        "usb",
        &[
            ("1d6b:0002 Root hub", "usb2"),
            ("05e3:0610 Hub", "2-3"),
            ("1050:0407 YubiKey", "2-3.4"),
        ],
    );
    let groups = groups(&d, &[], &[]);
    let usb = group(&groups, "USB");
    assert_eq!(ids(&usb.nodes), ["1d6b:0002 Root hub"]);
    assert_eq!(ids(&usb.nodes[0].children), ["05e3:0610 Hub"]);
    assert_eq!(
        ids(&usb.nodes[0].children[0].children),
        ["1050:0407 YubiKey"]
    );
    // Expanding the root hub reaches everything behind it.
    assert_eq!(expansion(&usb.nodes[0]).len(), 3);
}

#[test]
fn test_a_bus_with_no_topology_stays_flat() {
    let d = nested("network", &[("eth0: up", ""), ("wlan0: up", "")]);
    let groups = groups(&d, &[], &[]);
    let net = group(&groups, "Network");
    assert_eq!(net.nodes.len(), 2);
    assert!(net.nodes.iter().all(|n| n.children.is_empty()));
}

#[test]
fn test_a_sibling_port_is_not_a_parent_because_it_shares_a_prefix() {
    // 2-30.1 hangs off port 30, not off port 3. A prefix scan would get
    // this wrong and whitelist a device on another port.
    let nodes = tree(&vec![
        row("2-3", "05e3:0610", "Hub"),
        row("2-30.1", "1050:0407", "YubiKey"),
        row("2-3.4", "046d:c52b", "Receiver"),
    ]);
    assert_eq!(ids(&nodes), ["05e3:0610 Hub", "1050:0407 YubiKey"]);
    assert_eq!(ids(&nodes[0].children), ["046d:c52b Receiver"]);
    assert!(nodes[1].children.is_empty());
}

#[test]
fn test_a_pci_bridge_chain_nests_on_its_path() {
    let d = nested(
        "pci",
        &[
            ("0000:00:1c.0", "pci0000:00/0000:00:1c.0"),
            ("0000:01:00.0", "pci0000:00/0000:00:1c.0/0000:01:00.0"),
        ],
    );
    let groups = groups(&d, &[], &[]);
    let pci = group(&groups, "PCI");
    assert_eq!(ids(&pci.nodes), ["0000:00:1c.0"]);
    assert_eq!(ids(&pci.nodes[0].children), ["0000:01:00.0"]);
}

#[test]
fn test_the_instance_count_is_how_many_of_a_model_are_plugged_in() {
    let d = nested(
        "usb",
        &[
            ("1d6b:0002 Root", "usb2"),
            ("05e3:0610 Hub", "2-3"),
            ("046d:c52b Receiver", "2-3.4"),
            ("046d:c52b Receiver", "2-3.5"),
        ],
    );
    let counts = instances(&d);
    assert_eq!(counts.get("usb:046d:c52b"), Some(2), "both, at any depth");
    assert_eq!(counts.get("usb:05e3:0610"), Some(1));
    assert_eq!(counts.get("usb:dead:beef"), None);
    assert_eq!(violations::present(&counts, "usb:046d:c52b"), 2);
    assert_eq!(violations::present(&counts, "usb:dead:beef"), 1);
}

#[test]
fn test_a_whitelist_entry_covers_as_many_devices_as_it_says() {
    let d = devices(&[(
        "usb",
        true,
        &["046d:c52b Receiver", "046d:c52b Receiver"],
        0,
    )]);
    let one = vec!["usb:046d:c52b".to_string()];
    let all = groups(&d, &[], &one);
    let usb = group(&all, "USB");
    assert_eq!(usb.nodes[0].row.action, Action::Covered("in the whitelist"));
    assert_eq!(usb.nodes[1].row.action, Action::Add);

    let two = vec![one[0].clone(), one[0].clone()];
    let all = groups(&d, &[], &two);
    let usb = group(&all, "USB");
    assert!(usb
        .nodes
        .iter()
        .all(|n| n.row.action == Action::Covered("in the whitelist")));
}

#[test]
fn test_two_of_one_model_are_one_entry_that_stands_for_both() {
    let mut nodes = tree(&vec![
        row("2-3", "05e3:0610", "Hub"),
        row("2-3.1", "046d:c52b", "Receiver"),
        row("2-3.2", "046d:c52b", "Receiver"),
    ]);
    let rows = expansion(&nodes[0]);
    assert_eq!(rows.len(), 2, "one row per identity");
    assert_eq!(rows[1].1, 2, "and it stands for both devices");

    // The entry has to cover every device of the model behind the port,
    // covered ones included: the daemon counts what is plugged in, not
    // what is left to add.
    nodes[0].children[0].row.action = Action::Covered("in the whitelist");
    let rows = expansion(&nodes[0]);
    assert_eq!(rows.len(), 2, "one row per identity");
    assert_eq!(rows[1].1, 2, "both devices still count towards the entry");
    let summary = summary(&rows);
    assert!(summary.contains("Adds 2 whitelist entries"), "{summary}");
    assert!(summary.contains("046d:c52b Receiver x2"), "{summary}");
}

// ---- violations ----------------------------------------------------------

fn device(at_unix: u64) -> Violation {
    Violation {
        at_unix,
        bus: "usb".into(),
        selector: Some("usb:1050:0407".into()),
        name: Some("YubiKey".into()),
        message: "new usb device".into(),
    }
}

fn event(at_unix: u64) -> Violation {
    Violation {
        at_unix,
        bus: "lid".into(),
        selector: None,
        name: None,
        message: "lid closed".into(),
    }
}

fn violation_rows(all: &[Violation], now: u64, attached: &AttachedMap) -> Vec<violations::Row> {
    let whens: Vec<String> = all.iter().map(|v| v.at_unix.to_string()).collect();
    violations::rows(all, &whens, now, attached)
}

#[test]
fn test_an_empty_history_makes_no_rows() {
    assert!(violation_rows(&[], 1_700_000_000, &nothing()).is_empty());
}

#[test]
fn test_an_event_carries_no_identity_and_no_actions() {
    let rows = violation_rows(&[event(1_700_000_000)], 1_700_000_060, &nothing());
    assert_eq!(rows.len(), 1);
    assert_eq!(rows[0].bus, "lid");
    assert_eq!(rows[0].message, "lid closed");
    assert!(rows[0].identity.is_empty(), "nothing to identify");
    assert!(rows[0].selector.is_none(), "so nothing to whitelist");
    assert!(!rows[0].can_allow, "and nothing to allow");
    assert_eq!(rows[0].ago, "1m ago");
    assert!(!rows[0].when.is_empty(), "the stamp still renders");
}

#[test]
fn test_a_device_row_names_it_and_keeps_the_selector_for_the_editor() {
    let rows = violation_rows(&[device(1_700_000_000)], 1_700_000_000, &nothing());
    assert_eq!(rows[0].identity, "YubiKey (usb:1050:0407)");
    assert_eq!(rows[0].selector.as_deref(), Some("usb:1050:0407"));
}

#[test]
fn test_a_device_the_daemon_named_nothing_on_is_named_from_the_reply() {
    let mut v = device(1);
    v.name = None;
    // Nothing matching is attached: the row says so rather than showing a
    // bare id with a blank beside it.
    assert_eq!(
        violation_rows(&[v.clone()], 1, &nothing())[0].identity,
        format!("{NOT_CONNECTED} (usb:1050:0407)")
    );
    let attached = known(&[("usb:1050:0407", "YubiKey")]);
    assert_eq!(
        violation_rows(&[v], 1, &attached)[0].identity,
        "YubiKey (usb:1050:0407)"
    );
}

#[test]
fn test_only_the_newest_row_can_be_allowed() {
    let rows = violation_rows(&[device(3), device(2), event(1)], 4, &nothing());
    assert!(rows[0].can_allow);
    assert!(!rows[1].can_allow, "an older device is not the last one");
    assert!(
        rows[1].selector.is_some(),
        "it keeps the selector, so it still offers the whitelist action"
    );
    assert!(!rows[2].can_allow);
    assert_eq!(violations::offer(&rows[0]), violations::Offer::Both);
    assert_eq!(
        violations::offer(&rows[1]),
        violations::Offer::Whitelist("runtime allow is only offered on the newest violation")
    );
    assert_eq!(violations::offer(&rows[2]), violations::Offer::Nothing);
}

#[test]
fn test_the_newest_row_being_an_event_leaves_nothing_to_allow() {
    let rows = violation_rows(&[event(2), device(1)], 3, &nothing());
    assert!(rows.iter().all(|r| !r.can_allow));
}

#[test]
fn test_the_daemon_order_is_kept() {
    let rows = violation_rows(&[device(30), event(20), device(10)], 40, &nothing());
    assert_eq!(rows[0].ago, "10s ago");
    assert_eq!(rows[1].ago, "20s ago");
    assert_eq!(rows[2].ago, "30s ago");
}

#[test]
fn test_how_long_ago_drops_to_the_scale_that_matters() {
    let ago = violations::ago;
    assert_eq!(ago(100, 100), "just now");
    assert_eq!(ago(100, 142), "42s ago");
    assert_eq!(ago(100, 100 + 600), "10m ago");
    assert_eq!(ago(100, 100 + 7_200), "2h 0m ago");
    assert_eq!(ago(100, 100 + 2 * 86_400), "2d 0h 0m ago");
}

#[test]
fn test_a_stamp_from_the_future_reads_as_now() {
    // A clock that moved between the daemon stamping and us reading.
    assert_eq!(violations::ago(1_700_000_100, 1_700_000_000), "just now");
}

#[test]
fn only_news_redraws_the_history() {
    let all = [device(2), event(1)];
    assert!(violations::redraws(false, None, &all));
    assert!(!violations::redraws(false, Some(&all), &all));
    assert!(violations::redraws(true, Some(&all), &all));
    assert!(violations::redraws(false, Some(&all), &[device(3), event(1)]));
}
