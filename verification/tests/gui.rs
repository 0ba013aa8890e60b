//! Commands, the dashboard, the poll loop and the daemon's status.

use plugkill::gui::commands::{
    notice, sent, waiting, Command, Pool, DISARM_PRESETS, MAX_DISARM_SECS,
};
use plugkill::gui::dashboard::model::{
    build, bus_icon, bus_tooltip, cancel_hint, clock, countdown_total, Body, Ring, Tile,
};
use plugkill::gui::dashboard::placement::{place, Placement, Rect, INSET};
use plugkill::gui::poll::{
    fetches, fetches_status, next_blink, notice_expired, Poller, NOTICE_TTL_NANOS, TICK_MS,
};
use plugkill::gui::status::{
    format_uptime, BusDevices, DeviceEntry, Devices, Status, TrayState,
};
use plugkill::gui::tray::{DaemonStatus, MenuAction, MenuLine, TrayModel};
use plugkill::gui::wire::{parse_devices, parse_response, parse_violations};
use plugkill::ipc::{parse_reply, request_text, BUSES};
use plugkill::json::{read, Json};

fn json(text: &str) -> Json {
    read(text).expect("JSON should parse")
}

/// The request as it goes out, read back.
fn sent_value(command: Command) -> serde_json::Value {
    serde_json::from_str(&request_text(&command.request()).unwrap()).unwrap()
}

fn value(text: &str) -> serde_json::Value {
    serde_json::from_str(text).unwrap()
}

// ---- commands ------------------------------------------------------------

#[test]
fn test_requests_match_the_socket_protocol() {
    assert_eq!(sent_value(Command::Arm), value(r#"{"command": "arm"}"#));
    assert_eq!(
        sent_value(Command::Disarm(300)),
        value(r#"{"command": "disarm", "timeout_secs": 300}"#)
    );
    assert_eq!(sent_value(Command::Learn), value(r#"{"command": "learn"}"#));
    assert_eq!(
        sent_value(Command::Enforce),
        value(r#"{"command": "enforce"}"#)
    );
    assert_eq!(
        sent_value(Command::Reload),
        value(r#"{"command": "reload"}"#)
    );
}

#[test]
fn test_send_accepts_ok_and_sends_the_request() {
    let reply = parse_reply(r#"{"ok":true,"data":{"message":"re-armed"}}"#);
    assert_eq!(sent(reply), Ok(()));
    assert_eq!(sent_value(Command::Arm), value(r#"{"command": "arm"}"#));
}

#[test]
fn test_send_returns_the_daemon_error() {
    let reply = parse_reply(r#"{"ok":false,"error":"timeout_secs must be > 0"}"#);
    assert_eq!(sent(reply), Err("timeout_secs must be > 0".to_string()));
    assert_eq!(sent(Err("no socket".to_string())), Err("no socket".to_string()));
}

#[test]
fn test_a_refused_disarm_reads_as_authentication_not_failure() {
    let reply = parse_reply(r#"{"ok":false,"error":"authentication required"}"#);
    let err = sent(reply).unwrap_err();
    assert_eq!(
        notice(Command::Disarm(300), &err),
        "Disarm refused: authentication required"
    );
    // However the daemon words it, and whatever it adds.
    assert_eq!(
        notice(
            Command::Learn,
            "Authentication required: no polkit agent answered"
        ),
        "Learn mode refused: authentication required"
    );
}

#[test]
fn test_any_other_refusal_keeps_the_daemons_own_words() {
    assert_eq!(
        notice(Command::Disarm(0), "timeout_secs must be > 0"),
        "Disarm failed: timeout_secs must be > 0"
    );
    assert_eq!(
        notice(Command::Reload, "config is world-writable"),
        "Reload failed: config is world-writable"
    );
}

#[test]
fn test_allowance_requests_match_the_socket_protocol() {
    assert_eq!(
        sent_value(Command::Pair {
            window_secs: 30,
            for_secs: None
        }),
        value(r#"{"command": "pair", "window_secs": 30, "for_secs": null}"#)
    );
    assert_eq!(
        sent_value(Command::AllowLast {
            for_secs: Some(600)
        }),
        value(r#"{"command": "allow_last", "for_secs": 600}"#)
    );
    assert_eq!(
        sent_value(Command::Revoke("usb:1050:0407")),
        value(r#"{"command": "revoke", "selector": "usb:1050:0407"}"#)
    );
    assert_eq!(
        sent_value(Command::RevokeAll),
        value(r#"{"command": "revoke_all"}"#)
    );
}

#[test]
fn test_a_selector_is_interned_once_however_often_it_is_clicked() {
    let mut pool = Pool::new();
    let first = pool.intern("usb:1050:0407");
    assert_eq!(first, "usb:1050:0407");
    assert!(
        std::ptr::eq(first, pool.intern(&format!("usb:{}", "1050:0407"))),
        "the same selector must not leak twice"
    );
    assert!(!std::ptr::eq(first, pool.intern("pci:0000:01:00.0")));
}

#[test]
fn test_a_refused_grant_reads_as_authentication_not_failure() {
    let pair = Command::Pair {
        window_secs: 300,
        for_secs: None,
    };
    assert_eq!(
        notice(pair, "authentication required"),
        "Pair refused: authentication required"
    );
    assert_eq!(
        notice(
            Command::AllowLast { for_secs: None },
            "Authentication required: no polkit agent answered"
        ),
        "Allow last refused: authentication required"
    );
    // Revoking is not gated, so its refusals keep the daemon's own words.
    assert_eq!(
        notice(
            Command::Revoke("usb:1050:0407"),
            "no allowance for usb:1050:0407"
        ),
        "Revoke failed: no allowance for usb:1050:0407"
    );
}

#[test]
fn test_the_gated_commands_are_the_ones_that_can_wait_on_a_person() {
    assert!(Command::Disarm(60).is_gated());
    assert!(Command::Learn.is_gated());
    assert!(Command::Reload.is_gated());
    assert!(!Command::Arm.is_gated());
    assert!(!Command::Enforce.is_gated());
    assert!(Command::Pair {
        window_secs: 60,
        for_secs: None
    }
    .is_gated());
    assert!(Command::AllowLast { for_secs: None }.is_gated());
    // Closing a window takes a permission away, so the daemon answers it
    // at once rather than asking for a password.
    assert!(!Command::Pair {
        window_secs: 0,
        for_secs: None
    }
    .is_gated());
    assert!(!Command::Revoke("usb:1050:0407").is_gated());
    assert!(!Command::RevokeAll.is_gated());
}

#[test]
fn test_presets_are_ascending_and_within_the_daemon_limit() {
    let secs: Vec<u64> = DISARM_PRESETS.iter().map(|p| p.0).collect();
    assert!(secs.windows(2).all(|w| w[0] < w[1]));
    assert!(secs.iter().all(|&s| (1..=MAX_DISARM_SECS).contains(&s)));
}

#[test]
fn a_gated_command_says_that_it_waits() {
    assert_eq!(
        waiting(Command::Disarm(60)).as_deref(),
        Some("Disarm: waiting for the daemon")
    );
    assert_eq!(waiting(Command::Arm), None);
}

// ---- dashboard -----------------------------------------------------------

fn devices(pairs: &[(&str, bool, &[&str], u64)]) -> Devices {
    pairs
        .iter()
        .map(|&(key, watched, entries, more)| {
            let entries = entries.iter().map(|&e| DeviceEntry::bare(e)).collect();
            (
                key.to_string(),
                BusDevices {
                    watched,
                    entries,
                    more,
                },
            )
        })
        .collect()
}

#[test]
fn test_tooltip_counts_the_devices_it_lists() {
    let d = devices(&[(
        "usb",
        true,
        &["046d:c52b Logitech Receiver", "1d6b:0002"],
        0,
    )]);
    assert_eq!(
        bus_tooltip("usb_watching", "USB", &d),
        "USB, 2 devices\n046d:c52b Logitech Receiver\n1d6b:0002"
    );
    let one = devices(&[("usb", true, &["1d6b:0002"], 0)]);
    assert_eq!(
        bus_tooltip("usb_watching", "USB", &one),
        "USB, 1 device\n1d6b:0002"
    );
}

#[test]
fn test_tooltip_says_how_many_were_dropped() {
    let d = devices(&[("pci", true, &["0000:00:00.0", "0000:00:02.0"], 11)]);
    assert_eq!(
        bus_tooltip("pci_watching", "PCI", &d),
        "PCI, 13 devices\n0000:00:00.0\n0000:00:02.0\nand 11 more",
        "the header counts the whole live bus, listed plus dropped"
    );
}

#[test]
fn test_tooltip_for_an_empty_or_unwatched_bus() {
    let d = devices(&[("sdcard", true, &[], 0), ("network", false, &[], 0)]);
    assert_eq!(
        bus_tooltip("sdcard_watching", "SD card", &d),
        "SD card, no devices listed"
    );
    assert_eq!(
        bus_tooltip("network_watching", "Network", &d),
        "Network is not watched"
    );
    assert_eq!(
        bus_tooltip("display_watching", "Display", &d),
        "Display, device list unavailable",
        "a bus the daemon does not report must not claim it is unwatched"
    );
}

#[test]
fn test_tooltip_reads_a_live_state_as_a_state() {
    let d = devices(&[
        ("power", true, &["on AC"], 0),
        ("lid", true, &["closed"], 0),
        ("network", true, &["eth0: up", "wlan0: down"], 0),
    ]);
    assert_eq!(
        bus_tooltip("power_watching", "Power supply", &d),
        "Power supply, on AC"
    );
    assert_eq!(bus_tooltip("lid_watching", "Lid", &d), "Lid, closed");
    assert_eq!(
        bus_tooltip("network_watching", "Network", &d),
        "Network, 2 interfaces\neth0: up\nwlan0: down"
    );
}

/// A status with these keys over the ones every status has, as a reply would
/// carry it.
fn status(extra: &str) -> Status {
    let mut data = value(r#"{"armed": true, "mode": "enforce"}"#);
    for (k, v) in value(extra).as_object().unwrap() {
        data[k] = v.clone();
    }
    parse_response(json(&format!(r#"{{"ok": true, "data": {data}}}"#))).expect("status parses")
}

fn status_up(extra: &str) -> Status {
    let mut s = status(extra);
    s.uptime_secs = 7625;
    s
}

#[test]
fn test_armed_model_shows_presets_mode_and_tiles() {
    let s = status_up(
        r#"{
        "usb_watching": true, "usb_devices": 7, "power_watching": true, "power_state": "ac",
        "violations_logged": 1
    }"#,
    );
    let m = build(&TrayState::Armed, Some(&s), "plugkill-armed-symbolic");
    assert_eq!(m.icon, "plugkill-armed-symbolic");
    assert_eq!(m.pill, ("enforce", "pill-armed"));
    assert_eq!(m.mode_learn, Some(false));
    assert_eq!(m.body, Body::Presets);
    assert_eq!(m.watching, "Watching 2 of 8");
    assert_eq!(m.tiles.len(), 8);
    assert_eq!(
        m.tiles[0],
        Tile {
            icon: "plugkill-bus-usb-symbolic",
            name: "USB",
            value: "7".into(),
            watched: true
        }
    );
    assert!(m.tiles.contains(&Tile {
        icon: "plugkill-bus-power-symbolic",
        name: "Power",
        value: "on AC".into(),
        watched: true
    }));
    assert!(m.tiles.contains(&Tile {
        icon: "plugkill-bus-display-symbolic",
        name: "Display",
        value: "off".into(),
        watched: false
    }));
    assert_eq!(m.footer, "Up 2h 7m · 1 violation");
}

#[test]
fn test_every_bus_has_an_embedded_icon() {
    let embedded = [
        "plugkill-bus-usb-symbolic",
        "plugkill-bus-thunderbolt-symbolic",
        "plugkill-bus-sdcard-symbolic",
        "plugkill-bus-power-symbolic",
        "plugkill-bus-network-symbolic",
        "plugkill-bus-lid-symbolic",
        "plugkill-bus-pci-symbolic",
        "plugkill-bus-display-symbolic",
    ];
    for (key, _) in BUSES {
        let icon = bus_icon(key);
        assert!(
            embedded.iter().any(|n| *n == icon),
            "{key} maps to {icon}, which is not embedded"
        );
    }
}

#[test]
fn test_disarmed_ring_measures_against_the_covering_preset() {
    let s = status(r#"{"armed": false, "disarm_remaining_secs": 252}"#);
    let m = build(&TrayState::Disarmed { secs_left: 252 }, Some(&s), "i");
    assert_eq!(
        m.body,
        Body::Countdown {
            secs_left: 252,
            total_secs: 300
        }
    );
    assert_eq!(countdown_total(3600), 3600);
    assert_eq!(countdown_total(4000), 4000);
    assert_eq!(countdown_total(0), 60);
    // It jumps at every preset boundary, so the dashboard latches the
    // total for the life of one disarm instead of following this.
    assert_eq!(countdown_total(61), 300);
    assert_eq!(countdown_total(60), 60);
}

#[test]
fn the_ring_latches_its_total_and_drains() {
    let mut ring = Ring::new();
    let left = |secs_left| Body::Countdown {
        secs_left,
        total_secs: countdown_total(secs_left),
    };
    assert_eq!(ring.show(&left(252)), Some((252, 300)));
    assert_eq!(ring.show(&left(59)), Some((59, 300)));
    assert_eq!(ring.show(&Body::Presets), None);
    assert_eq!(ring.show(&left(59)), Some((59, 60)));
    assert_eq!(ring.show(&left(3000)), Some((3000, 3600)));
}

#[test]
fn test_kill_pending_says_how_to_cancel() {
    let state = TrayState::KillPending {
        bus: "power".into(),
        reason: "AC power removed".into(),
        secs_left: 23,
    };
    let m = build(&state, Some(&status("{}")), "plugkill-pending-symbolic");
    assert_eq!(
        m.icon, "plugkill-pending-symbolic",
        "the dashboard never blinks"
    );
    assert_eq!(
        m.body,
        Body::KillPending {
            secs_left: 23,
            reason: "AC power removed".into(),
            hint: "Plug the charger back in to cancel.".into()
        }
    );
    assert_eq!(cancel_hint("power"), "Plug the charger back in to cancel.");
}

#[test]
fn test_down_model_hides_mode_and_tiles() {
    let m = build(&TrayState::Down { stalled: false }, None, "i");
    assert_eq!(m.mode_learn, None);
    assert!(m.tiles.is_empty());
    assert!(m.watching.is_empty() && m.footer.is_empty());
    assert!(matches!(m.body, Body::Down { .. }));
}

#[test]
fn test_network_and_lid_tile_values() {
    let s = status(
        r#"{
        "network_watching": true, "network_links_down": 2,
        "lid_watching": true, "lid_state": "closed"
    }"#,
    );
    let m = build(&TrayState::Armed, Some(&s), "i");
    assert!(m.tiles.contains(&Tile {
        icon: "plugkill-bus-network-symbolic",
        name: "Network",
        value: "2 down".into(),
        watched: true
    }));
    assert!(m.tiles.contains(&Tile {
        icon: "plugkill-bus-lid-symbolic",
        name: "Lid",
        value: "closed".into(),
        watched: true
    }));
}

#[test]
fn test_clock_formats_minutes_and_seconds() {
    assert_eq!(clock(252), "4:12");
    assert_eq!(clock(5), "0:05");
    assert_eq!(clock(3600), "60:00");
}

// ---- placement -----------------------------------------------------------

const LEFT: Rect = Rect {
    x: 0,
    y: 0,
    width: 2560,
    height: 1440,
};
const RIGHT: Rect = Rect {
    x: 2560,
    y: 0,
    width: 1920,
    height: 1080,
};

#[test]
fn test_click_in_a_top_bar_opens_under_it_on_that_monitor() {
    let p = place(4200, 20, &[LEFT, RIGHT], 352).unwrap();
    assert_eq!(
        p,
        Placement {
            monitor: 1,
            top: true,
            right_margin: 280
        }
    );
}

#[test]
fn test_click_in_a_bottom_bar_anchors_to_the_bottom() {
    let p = place(2400, 1420, &[LEFT, RIGHT], 352).unwrap();
    assert_eq!(p.monitor, 0);
    assert!(!p.top);
    assert_eq!(p.right_margin, 160);
}

#[test]
fn test_window_stays_on_screen_near_either_edge() {
    let near_right = place(2555, 10, &[LEFT], 352).unwrap();
    assert_eq!(near_right.right_margin, INSET);
    let near_left = place(40, 10, &[LEFT], 352).unwrap();
    assert_eq!(near_left.right_margin, 2560 - 352 - INSET);
}

#[test]
fn test_unknown_position_opens_top_right_of_the_first_monitor() {
    let expected = Placement {
        monitor: 0,
        top: true,
        right_margin: INSET,
    };
    assert_eq!(place(0, 0, &[LEFT, RIGHT], 352), Some(expected));
    assert_eq!(place(-50, 9000, &[LEFT, RIGHT], 352), Some(expected));
}

#[test]
fn test_no_monitors_no_placement() {
    assert_eq!(place(10, 10, &[], 352), None);
}

// ---- poll ----------------------------------------------------------------

#[test]
fn test_blink_toggles_only_while_a_kill_is_pending() {
    let pending = TrayState::KillPending {
        bus: "lid".into(),
        reason: "lid closed".into(),
        secs_left: 3,
    };
    assert!(next_blink(&pending, false));
    assert!(!next_blink(&pending, true));
    assert!(!next_blink(&TrayState::Armed, false));
    assert!(
        !next_blink(&TrayState::Armed, true),
        "a stale blink phase must reset"
    );
}

#[test]
fn test_a_notice_drops_once_it_is_stale() {
    assert!(!notice_expired(0), "a fresh notice stays up");
    assert!(notice_expired(NOTICE_TTL_NANOS + 1_000_000_000));
}

#[test]
fn test_buses_are_walked_on_open_and_every_fourth_tick() {
    // (tick, dashboard, settings, was_dashboard, was_settings)
    assert_eq!(fetches(4, true, false, true, false), (true, false));
    assert_eq!(
        fetches(6, true, false, true, false),
        (false, false),
        "between the walk ticks"
    );
    assert_eq!(
        fetches(6, true, false, false, false),
        (true, false),
        "the tick the dashboard opens on"
    );
    assert_eq!(
        fetches(6, true, true, true, false),
        (true, true),
        "settings opening while the dashboard was already up"
    );
    assert_eq!(
        fetches(4, false, false, true, true),
        (false, false),
        "no window open walks nothing"
    );
    assert_eq!(
        fetches(4, true, true, true, true),
        (true, true),
        "both already open still walks on the walk tick"
    );
    assert!(fetches_status(2) && !fetches_status(3));
    assert_eq!(TICK_MS, 500);
}

#[test]
fn test_violations_are_only_asked_for_by_the_settings_window() {
    assert!(!fetches(4, true, false, true, false).1);
    assert!(fetches(4, false, true, false, true).1);
}

#[test]
fn the_poll_loop_blinks_fetches_and_walks() {
    let pending = TrayState::KillPending {
        bus: "lid".into(),
        reason: "lid closed".into(),
        secs_left: 3,
    };
    let mut p = Poller::new();
    let t = p.step(&pending, None, false, false);
    assert!(t.blink && t.fetch_status && !t.walk && !t.drop_notice);
    let t = p.step(&pending, Some(NOTICE_TTL_NANOS + 1), true, true);
    assert!(!t.blink && !t.fetch_status && !t.walk && t.drop_notice);
    let t = p.step(&pending, Some(0), true, true);
    assert!(t.blink && t.fetch_status && t.walk && t.violations && !t.drop_notice);
    p.step(&pending, None, true, true);
    assert!(p.step(&TrayState::Armed, None, true, false).walk, "every fourth");
    p.step(&TrayState::Armed, None, true, false);
    let t = p.step(&TrayState::Armed, None, true, false);
    assert!(t.fetch_status && !t.walk && !t.blink);
}

#[test]
fn a_body_names_its_page_and_its_lines() {
    let body = Body::KillPending {
        secs_left: 7,
        reason: "lid closed".into(),
        hint: "Open the lid to cancel.".into(),
    };
    assert_eq!(body.page(), "pending");
    assert_eq!(
        body.lines(),
        (
            "Kill in 7 s".to_string(),
            "lid closed. Open the lid to cancel.".to_string()
        )
    );
    assert_eq!(Body::Presets.page(), "presets");
    let body = Body::Countdown {
        secs_left: 252,
        total_secs: 300,
    };
    assert_eq!(body.page(), "countdown");
    assert_eq!(body.lines().0, "4:12");
    let body = Body::Down {
        message: "down".into(),
    };
    assert_eq!(body.page(), "down");
    assert_eq!(body.lines().1, "down");
}

// ---- status --------------------------------------------------------------

#[test]
fn test_uptime_drops_to_the_scale_that_matters() {
    assert_eq!(format_uptime(0), "0s");
    assert_eq!(format_uptime(42), "42s");
    assert_eq!(format_uptime(60), "1m");
    assert_eq!(format_uptime(3_599), "59m");
    assert_eq!(format_uptime(3_600), "1h 0m");
    assert_eq!(format_uptime(86_399), "23h 59m");
    assert_eq!(
        format_uptime(2 * 86_400 + 4 * 3_600 + 17 * 60 + 5),
        "2d 4h 17m"
    );
}

#[test]
fn test_parse_response_reads_old_and_new_fields() {
    let s = status(
        r#"{
        "uptime_secs": 7, "usb_devices": 4, "usb_watching": true, "lid_watching": false,
        "dry_run": true, "power_state": "ac",
        "pending_violation": {"bus": "lid", "reason": "lid closed", "secs_left": 9}
    }"#,
    );
    assert_eq!(s.uptime_secs, 7);
    assert_eq!(s.usb_devices, 4);
    assert!(s.dry_run);
    assert_eq!(s.power_state.as_deref(), Some("ac"));
    assert_eq!(s.pending_violation.unwrap().secs_left, 9);
    assert_eq!(s.rest.get_bool("usb_watching"), Some(true));
    assert!(s.rest.get("dry_run").is_none());
}

#[test]
fn test_parse_response_tolerates_an_older_daemon() {
    let s = status("{}");
    assert!(!s.dry_run);
    assert!(s.pending_violation.is_none());
    assert!(s.power_state.is_none());
}

#[test]
fn test_parse_response_rejects_a_refusal() {
    assert!(parse_response(json(r#"{"ok": false, "error": "nope"}"#)).is_none());
}

#[test]
fn a_status_of_the_wrong_kind_is_no_status() {
    let reads = |data: &str| parse_response(json(&format!(r#"{{"ok": true, "data": {data}}}"#)));
    assert!(reads(r#"{"armed": true, "mode": "enforce"}"#).is_some());
    assert!(reads(r#"{"armed": true}"#).is_none());
    assert!(reads(r#"{"armed": 1, "mode": "enforce"}"#).is_none());
    assert!(reads(r#"{"armed": true, "mode": "enforce", "uptime_secs": -1}"#).is_none());
    assert!(reads(r#"{"armed": true, "mode": "enforce", "uptime_secs": null}"#).is_none());
    assert!(reads(r#"{"armed": true, "mode": "enforce", "last_poll_ms_ago": null}"#).is_some());
    assert!(reads(r#"{"armed": true, "mode": "x", "pending_violation": {"bus": "a"}}"#).is_none());
    assert!(reads("[]").is_none());
}

#[test]
fn test_buses_follow_ipc_order_and_flags() {
    let s = status(r#"{"usb_watching": true, "pci_watching": true}"#);
    let buses = s.buses();
    assert_eq!(buses.len(), BUSES.len());
    assert_eq!(buses[0], ("usb_watching", "USB", true));
    assert_eq!(buses[1], ("thunderbolt_watching", "Thunderbolt", false));
    assert!(buses.contains(&("pci_watching", "PCI", true)));
}

#[test]
fn test_parse_devices_drops_only_the_key_it_cannot_read() {
    let resp = json(
        r#"{"ok": true, "data": {"buses": {
        "usb": {"watched": true, "entries": [
            {"text": "1050:0407 YubiKey", "path": "2-3.4"},
            {"text": "closed"}
        ], "more": 0},
        "sdcard": {"watched": true, "entries": ["0x03:0x5344 SD"], "more": 0},
        "lid": {"watched": true},
        "pci": "not an object"
    }}}"#,
    );
    let d = parse_devices(&resp).expect("devices parse");
    let bus = |key: &str| d.iter().find(|(k, _)| k == key).map(|(_, b)| b);
    assert_eq!(
        bus("usb").unwrap().entries,
        vec![
            DeviceEntry {
                text: "1050:0407 YubiKey".to_string(),
                path: "2-3.4".to_string(),
            },
            DeviceEntry {
                text: "closed".to_string(),
                path: String::new(),
            },
        ]
    );
    assert_eq!(
        bus("sdcard").unwrap().entries,
        vec![DeviceEntry::bare("0x03:0x5344 SD")]
    );
    assert_eq!(
        *bus("lid").unwrap(),
        BusDevices {
            watched: true,
            ..BusDevices::default()
        },
        "missing fields default"
    );
    assert!(bus("pci").is_none(), "an unreadable bus is dropped");
}

#[test]
fn test_parse_devices_rejects_a_refusal_or_an_older_daemon() {
    assert!(parse_devices(&json(r#"{"ok": false, "error": "nope"}"#)).is_none());
    assert!(parse_devices(&json(r#"{"ok": true, "data": {}}"#)).is_none());
}

#[test]
fn test_parse_violations_keeps_the_daemon_order_and_drops_a_bad_row() {
    let resp = json(
        r#"{"ok": true, "data": {"violations": [
        {"at_unix": 2, "bus": "usb", "selector": "1050:0407", "name": "YubiKey",
         "message": "new usb device"},
        "not a row",
        {"at_unix": 1, "bus": "lid", "selector": null, "name": null, "message": "lid closed"}
    ]}}"#,
    );
    let v = parse_violations(&resp).expect("violations parse");
    assert_eq!(v.len(), 2, "an unreadable row is dropped");
    assert_eq!(v[0].at_unix, 2, "newest first, as the daemon sends them");
    assert_eq!(v[0].selector.as_deref(), Some("1050:0407"));
    assert!(v[1].selector.is_none(), "an event names no device");
    assert_eq!(v[1].message, "lid closed");
}

#[test]
fn test_parse_violations_rejects_a_refusal_or_an_older_daemon() {
    assert!(parse_violations(&json(r#"{"ok": false, "error": "nope"}"#)).is_none());
    assert!(parse_violations(&json(r#"{"ok": true, "data": {}}"#)).is_none());
}

#[test]
fn test_status_carries_the_loaded_config_path_and_version() {
    let s = status(r#"{"config_path": "/etc/plugkill.toml", "version": "0.1.0"}"#);
    assert_eq!(s.config_path, "/etc/plugkill.toml");
    assert_eq!(s.version, "0.1.0");
    // An older daemon sends neither, and the window says so rather than
    // guessing a path.
    assert!(status("{}").config_path.is_empty());
}

#[test]
fn test_from_status_without_an_answer_is_down() {
    assert_eq!(
        TrayState::from_status(None),
        TrayState::Down { stalled: false }
    );
}

#[test]
fn test_from_status_disarmed_wins_over_a_stale_poll() {
    let s = status(
        r#"{"armed": false, "disarm_remaining_secs": 252, "last_poll_ms_ago": 90000}"#,
    );
    assert_eq!(
        TrayState::from_status(Some(&s)),
        TrayState::Disarmed { secs_left: 252 }
    );
}

#[test]
fn test_from_status_stale_poll_is_down_stalled() {
    let s = status(r#"{"last_poll_ms_ago": 45000}"#);
    assert_eq!(
        TrayState::from_status(Some(&s)),
        TrayState::Down { stalled: true }
    );
    // A dead poll thread leaves the grace record standing, so both arrive
    // together: the frozen countdown must not win over "not polling".
    let s = status(
        r#"{"last_poll_ms_ago": 90000,
        "pending_violation": {"bus": "power", "reason": "AC power removed", "secs_left": 7}}"#,
    );
    assert_eq!(
        TrayState::from_status(Some(&s)),
        TrayState::Down { stalled: true }
    );
}

#[test]
fn test_from_status_enforce_with_a_grace_is_kill_pending() {
    let s = status(
        r#"{"pending_violation": {"bus": "power", "reason": "AC power removed", "secs_left": 23}}"#,
    );
    assert_eq!(
        TrayState::from_status(Some(&s)),
        TrayState::KillPending {
            bus: "power".into(),
            reason: "AC power removed".into(),
            secs_left: 23
        }
    );
}

#[test]
fn test_from_status_a_grace_in_learn_mode_or_dry_run_is_not_a_kill() {
    let pending = r#"{"bus": "lid", "reason": "lid closed", "secs_left": 4}"#;
    let learn = status(&format!(
        r#"{{"mode": "learn", "pending_violation": {pending}}}"#
    ));
    let dry = status(&format!(
        r#"{{"dry_run": true, "pending_violation": {pending}}}"#
    ));
    assert_eq!(TrayState::from_status(Some(&learn)), TrayState::Learning);
    assert_eq!(TrayState::from_status(Some(&dry)), TrayState::DryRun);
}

#[test]
fn test_from_status_plain_enforce_is_armed() {
    let s = status(r#"{"last_poll_ms_ago": 180}"#);
    assert_eq!(TrayState::from_status(Some(&s)), TrayState::Armed);
}

#[test]
fn test_title_and_detail_wording() {
    let learning = status(r#"{"mode": "learn", "violations_logged": 3}"#);
    assert_eq!(
        TrayState::Learning.title_and_detail(Some(&learning)),
        ("Learning".to_string(), "3 violations logged".to_string())
    );
    assert_eq!(
        TrayState::Disarmed { secs_left: 252 }.title_and_detail(None),
        ("Disarmed".to_string(), "re-arms in 4m 12s".to_string())
    );
    let pending = TrayState::KillPending {
        bus: "power".into(),
        reason: "AC power removed".into(),
        secs_left: 23,
    };
    assert_eq!(
        pending.title_and_detail(None),
        ("Kill in 23 s".to_string(), "AC power removed".to_string())
    );
}

#[test]
fn test_needs_attention_only_when_unprotected_or_about_to_kill() {
    assert!(TrayState::Down { stalled: false }.needs_attention());
    assert!(TrayState::Down { stalled: true }.needs_attention());
    assert!(TrayState::Disarmed { secs_left: 1 }.needs_attention());
    assert!(TrayState::KillPending {
        bus: "power".into(),
        reason: "AC power removed".into(),
        secs_left: 5
    }
    .needs_attention());
    assert!(!TrayState::Armed.needs_attention());
    assert!(!TrayState::Learning.needs_attention());
    assert!(!TrayState::DryRun.needs_attention());
}

// ---- tray ----------------------------------------------------------------

#[test]
fn a_tray_without_a_daemon_asks_it_nothing() {
    let gone = TrayModel::poll_status(None);
    assert_eq!(gone.status, DaemonStatus::Disconnected);
    assert!(!gone.needs_attention());
    let commands = gone
        .menu()
        .iter()
        .filter(|l| matches!(l, MenuLine::Item { action: MenuAction::Send(_), enabled: true, .. }))
        .count();
    assert_eq!(commands, 0);
}

#[test]
fn a_tray_follows_the_daemons_answer() {
    let reply = json(
        r#"{"ok": true, "data": {"armed": true, "mode": "learn", "uptime_secs": 65,
            "usb_watching": true}}"#,
    );
    let t = TrayModel::poll_status(Some(&reply));
    assert!(!t.title().is_empty());
    assert!(t.tool_tip().contains("USB"), "{}", t.tool_tip());
    assert!(!t.menu().is_empty());
    assert_ne!(t.colour(), TrayModel::gone().colour());
}

#[test]
fn the_tray_names_every_bus_as_the_status_does() {
    let reply = json(
        r#"{"ok": true, "data": {"armed": true, "mode": "enforce", "power_watching": true,
            "pci_watching": true, "display_watching": true}}"#,
    );
    let t = TrayModel::poll_status(Some(&reply));
    assert_eq!(t.status, DaemonStatus::Armed);
    assert_eq!(t.violations, 0);
    assert_eq!(t.uptime_secs, None);
    assert_eq!(t.watching, ["Power supply", "PCI", "Display"]);
    assert_eq!(t.tool_tip(), "Watching: Power supply, PCI, Display");
}
