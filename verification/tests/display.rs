//! Connectors, monitors and what changed about them.

use plugkill::display::{
    build_snapshot, connector_name, connector_names, display_snapshot, find_connectors,
    is_drm_connector_event, is_ignored, watched_connectors, DisplayChange, DisplayConnector,
    DisplaySnapshot, DrmEntry,
};
use plugkill::edid::EdidId;

fn conn(name: &str, connected: bool, edid: Option<EdidId>) -> DisplayConnector {
    DisplayConnector {
        connector: name.to_string(),
        connected,
        edid,
    }
}

fn id(mfg: &str, product: u16, serial: Option<u32>) -> EdidId {
    EdidId {
        mfg: mfg.to_string(),
        product,
        serial,
        name: String::new(),
    }
}

#[test]
fn test_watched_connectors_lists_a_shared_name_once() {
    // Two cards exposing DP-1 is what a laptop with a dock looks like.
    let snapshot = DisplaySnapshot::from_connectors(vec![
        conn("DP-1", true, None),
        conn("DP-1", false, None),
        conn("eDP-1", true, None),
    ]);
    assert_eq!(
        connector_names(&snapshot),
        vec!["DP-1".to_string(), "eDP-1".to_string()]
    );
}

#[test]
fn test_connector_name_extraction() {
    assert_eq!(connector_name("card0-DP-6").as_deref(), Some("DP-6"));
    assert_eq!(connector_name("card0-eDP-1").as_deref(), Some("eDP-1"));
    assert_eq!(connector_name("card1-HDMI-A-1").as_deref(), Some("HDMI-A-1"));
    assert_eq!(connector_name("card0"), None);
    assert_eq!(connector_name("renderD128"), None);
    assert_eq!(connector_name("version"), None);
    assert_eq!(connector_name("card0-"), None);
}

#[test]
fn test_ignored_connectors_are_absent_from_a_snapshot() {
    let built = build_snapshot(
        vec![
            ("eDP-1".to_string(), true, None),
            ("DP-6".to_string(), true, None),
        ],
        &["eDP".to_string()],
    );
    assert_eq!(built.connectors.len(), 1);
    assert_eq!(built.connectors[0].connector, "DP-6");
}

#[test]
fn display_test_is_ignored() {
    let ig = vec!["eDP".to_string()];
    assert!(is_ignored("eDP-1", &ig));
    assert!(!is_ignored("DP-1", &ig));
    assert!(!is_ignored("HDMI-A-1", &ig));
}

#[test]
fn test_is_drm_connector_event() {
    assert!(is_drm_connector_event(
        "!system=DRM subsystem=CONNECTOR type=HOTPLUG"
    ));
    assert!(!is_drm_connector_event(
        "!system=ACPI subsystem=Lid notify=0x00"
    ));
    assert!(!is_drm_connector_event("!system=DRM subsystem=DEVICE"));
}

#[test]
fn test_identical_snapshots_report_no_change() {
    let a = DisplaySnapshot::from_connectors(vec![
        conn("DP-1", false, None),
        conn("eDP-1", true, Some(id("TMA", 0x2064, None))),
    ]);
    let b = DisplaySnapshot::from_connectors(vec![
        conn("eDP-1", true, Some(id("TMA", 0x2064, None))),
        conn("DP-1", false, None),
    ]);
    assert_eq!(a.detect_changes(&b), None, "order must not matter");
}

#[test]
fn test_new_connector_is_a_change() {
    let base = DisplaySnapshot::from_connectors(vec![conn("DP-1", false, None)]);
    let now = DisplaySnapshot::from_connectors(vec![
        conn("DP-1", false, None),
        conn("HDMI-A-1", false, None),
    ]);
    assert_eq!(
        now.detect_changes(&base),
        Some(DisplayChange::Appeared("HDMI-A-1".to_string()))
    );
}

#[test]
fn test_missing_connector_is_a_change() {
    let base = DisplaySnapshot::from_connectors(vec![
        conn("DP-1", false, None),
        conn("HDMI-A-1", false, None),
    ]);
    let now = DisplaySnapshot::from_connectors(vec![conn("DP-1", false, None)]);
    assert_eq!(
        now.detect_changes(&base),
        Some(DisplayChange::Disappeared("HDMI-A-1".to_string()))
    );
}

#[test]
fn test_plugging_a_monitor_in_is_a_change() {
    let base = DisplaySnapshot::from_connectors(vec![conn("DP-6", false, None)]);
    let now = DisplaySnapshot::from_connectors(vec![conn(
        "DP-6",
        true,
        Some(id("SAM", 0x772d, Some(811_021_873))),
    )]);
    assert_eq!(
        now.detect_changes(&base),
        Some(DisplayChange::Connected("DP-6".to_string()))
    );
}

#[test]
fn test_unplugging_a_monitor_is_a_change() {
    let base = DisplaySnapshot::from_connectors(vec![conn(
        "DP-6",
        true,
        Some(id("SAM", 0x772d, Some(811_021_873))),
    )]);
    let now = DisplaySnapshot::from_connectors(vec![conn("DP-6", false, None)]);
    assert_eq!(
        now.detect_changes(&base),
        Some(DisplayChange::Disconnected("DP-6".to_string()))
    );
}

#[test]
fn test_a_different_monitor_on_the_same_port_is_a_change() {
    let base = DisplaySnapshot::from_connectors(vec![conn(
        "DP-6",
        true,
        Some(id("SAM", 0x772d, Some(811_021_873))),
    )]);
    let now = DisplaySnapshot::from_connectors(vec![conn(
        "DP-6",
        true,
        Some(id("SAM", 0x772d, Some(999_999_999))),
    )]);
    match now.detect_changes(&base) {
        Some(DisplayChange::Replaced { connector, now }) => {
            assert_eq!(connector, "DP-6");
            assert_eq!(now.unwrap().serial, Some(999_999_999));
        }
        other => panic!("expected Replaced, got {other:?}"),
    }
}

#[test]
fn test_name_alone_does_not_make_a_change() {
    let mut a = id("SAM", 0x772d, Some(1));
    a.name = "Odyssey G93SD".to_string();
    let mut b = id("SAM", 0x772d, Some(1));
    b.name = "ODYSSEY".to_string();
    let base = DisplaySnapshot::from_connectors(vec![conn("DP-6", true, Some(a))]);
    let now = DisplaySnapshot::from_connectors(vec![conn("DP-6", true, Some(b))]);
    assert_eq!(now.detect_changes(&base), None);
}

#[test]
fn test_unreadable_edid_on_both_sides_is_no_change() {
    let base = DisplaySnapshot::from_connectors(vec![conn("DP-6", true, None)]);
    let now = DisplaySnapshot::from_connectors(vec![conn("DP-6", true, None)]);
    assert_eq!(now.detect_changes(&base), None);
}

#[test]
fn test_gaining_a_readable_identity_is_a_change() {
    let base = DisplaySnapshot::from_connectors(vec![conn("DP-6", true, None)]);
    let now = DisplaySnapshot::from_connectors(vec![conn(
        "DP-6",
        true,
        Some(id("SAM", 0x772d, Some(1))),
    )]);
    assert!(matches!(
        now.detect_changes(&base),
        Some(DisplayChange::Replaced { .. })
    ));
}

#[test]
fn test_change_messages_name_the_connector() {
    assert_eq!(
        DisplayChange::Connected("HDMI-A-1".to_string()).message(),
        "HDMI-A-1 connected"
    );
    let mut m = id("SAM", 0x772d, Some(811_021_873));
    m.name = "Odyssey G93SD".to_string();
    assert_eq!(
        DisplayChange::Replaced {
            connector: "DP-6".to_string(),
            now: Some(m),
        }
        .message(),
        "DP-6 now SAM:772d:811021873 (Odyssey G93SD)"
    );
}

#[test]
fn a_snapshot_comes_off_the_directory_listing() {
    let entries = vec![
        DrmEntry {
            dir: "card0-DP-6".to_string(),
            status: Some("connected\n".to_string()),
            edid: None,
        },
        DrmEntry {
            dir: "card0-eDP-1".to_string(),
            status: Some("connected\n".to_string()),
            edid: None,
        },
        DrmEntry {
            dir: "renderD128".to_string(),
            status: None,
            edid: None,
        },
    ];
    assert_eq!(find_connectors(&entries).len(), 2);
    let ignore = vec!["eDP".to_string()];
    let snap = display_snapshot(Some(&entries), None, &ignore);
    assert_eq!(snap.connectors.len(), 1);
    assert!(snap.get("DP-6").unwrap().connected);
    assert!(snap.get("eDP-1").is_none());
    assert_eq!(
        watched_connectors(find_connectors(&entries), &ignore),
        vec!["DP-6".to_string()]
    );
}

#[test]
fn an_event_counter_alone_still_tells_that_something_moved() {
    let before = display_snapshot(None, Some(3), &[]);
    let after = display_snapshot(None, Some(4), &[]);
    assert_eq!(
        after.detect_changes(&before),
        Some(DisplayChange::TopologyChanged)
    );
    assert_eq!(before.detect_changes(&before), None);
}

#[test]
fn a_shared_name_is_no_change_by_itself() {
    let s = DisplaySnapshot::from_connectors(vec![
        conn("DP-1", true, None),
        conn("DP-1", false, None),
    ]);
    assert_eq!(s.detect_changes(&s), None);

    // Nor is the order in which two cards are walked.
    let swapped = DisplaySnapshot::from_connectors(vec![
        conn("DP-1", false, None),
        conn("DP-1", true, None),
    ]);
    assert_eq!(s.detect_changes(&swapped), None);
    assert_eq!(swapped.detect_changes(&s), None);
}

#[test]
fn a_change_under_a_shared_name_is_seen() {
    let a = || Some(id("SAM", 1, Some(7)));
    let b = || Some(id("TMA", 2, None));
    let of = |list: Vec<DisplayConnector>| DisplaySnapshot::from_connectors(list);
    let base = of(vec![conn("DP-1", true, a()), conn("DP-1", false, None)]);

    let both = of(vec![conn("DP-1", true, a()), conn("DP-1", true, b())]);
    assert_eq!(
        both.detect_changes(&base),
        Some(DisplayChange::Connected("DP-1".to_string()))
    );
    assert_eq!(
        base.detect_changes(&both),
        Some(DisplayChange::Disconnected("DP-1".to_string()))
    );
    let other = of(vec![conn("DP-1", true, b()), conn("DP-1", false, None)]);
    assert_eq!(
        other.detect_changes(&base),
        Some(DisplayChange::Replaced {
            connector: "DP-1".to_string(),
            now: b()
        })
    );
    let three = of(vec![
        conn("DP-1", true, a()),
        conn("DP-1", false, None),
        conn("DP-1", false, None),
    ]);
    assert_eq!(
        three.detect_changes(&base),
        Some(DisplayChange::Appeared("DP-1".to_string()))
    );
    assert_eq!(
        base.detect_changes(&three),
        Some(DisplayChange::Disappeared("DP-1".to_string()))
    );
}
