//! The control socket's requests, replies and printed forms.

use plugkill::gui::commands::{sent, Command};
use plugkill::ipc::{
    allowance_list, command_output, format_duration, format_status, human_response,
    is_gated_command, parse_duration_secs, parse_reply, read_timeout, reply_error, request_text,
    Refusal, Request, Response, AUTH_READ_TIMEOUT_SECS, BUSES, DEFAULT_SOCKET_PATH, GATED_COMMANDS,
    READ_TIMEOUT_SECS, VAR_SOCKET_PATH,
};
use plugkill::json::{prints, read, Json};
use plugkill::relay::trigger::kill_request;
use plugkill::render::{allowances_output, render_allowances, AllowanceOutput};
use plugkill::usb::{generate_whitelist_toml, UsbDeviceInfo};

fn json(text: &str) -> Json {
    read(text).expect("JSON should parse")
}

#[test]
fn test_kill_request_deserializes() {
    let line = r#"{"command":"kill","reason":"peer alpha lost AC power"}"#;
    let req = Request::read(&json(line)).unwrap();
    let Request::Kill { reason } = req else {
        panic!("expected Request::Kill");
    };
    assert_eq!(reason, "peer alpha lost AC power");
}

#[test]
fn test_kill_request_requires_reason() {
    let err = Request::read(&json(r#"{"command":"kill"}"#)).unwrap_err();
    assert_eq!(err, Refusal::Missing("reason"));
    assert!(format!("{err:?}").contains("reason"));
}

#[test]
fn test_send_command_errors_on_not_ok_envelope() {
    let line = r#"{"ok":false,"error":"timeout_secs must be > 0"}"#;
    let err = command_output(line, false).unwrap_err();
    assert_eq!(err, "timeout_secs must be > 0");
}

#[test]
fn test_send_command_accepts_ok_envelope() {
    let line = r#"{"ok":true,"data":{"message":"disarmed for 60s"}}"#;
    assert!(command_output(line, false).is_ok());
}

#[test]
fn test_send_request_returns_whole_envelope() {
    let resp = parse_reply(r#"{"ok":false,"error":"nope"}"#).unwrap();
    assert_eq!(resp.get_bool("ok"), Some(false));
    assert_eq!(resp.get_str("error"), Some("nope"));
}

#[test]
fn test_only_gated_commands_wait_for_a_password() {
    for command in GATED_COMMANDS {
        let req = json(&format!(
            r#"{{"command": "{command}", "timeout_secs": 60}}"#
        ));
        assert_eq!(read_timeout(&req), AUTH_READ_TIMEOUT_SECS, "{command}");
        assert!(is_gated_command(command));
    }
    for command in ["status", "devices", "arm", "enforce", "kill"] {
        let req = json(&format!(r#"{{"command": "{command}"}}"#));
        assert_eq!(read_timeout(&req), READ_TIMEOUT_SECS, "{command}");
    }
    // Nothing recognisable waits the long time either.
    assert_eq!(read_timeout(&json("{}")), READ_TIMEOUT_SECS);
}

#[test]
fn test_format_duration_units() {
    assert_eq!(format_duration(0), "0s");
    assert_eq!(format_duration(45), "45s");
    assert_eq!(format_duration(90), "1m 30s");
    assert_eq!(format_duration(3725), "1h 2m 5s");
}

#[test]
fn test_format_status_keeps_the_existing_lines() {
    let data = json(
        r#"{
        "armed": true, "mode": "enforce", "uptime_secs": 65,
        "usb_devices": 3, "thunderbolt_devices": 0, "sdcard_devices": 0, "pci_devices": 12,
        "usb_watching": true, "violations_logged": 0, "last_poll_ms_ago": 120
    }"#,
    );
    assert_eq!(
        format_status(&data),
        "Status:     armed (enforce mode)\n\
         Uptime:     1m 5s\n\
         Devices:    3 USB IDs, 0 Thunderbolt, 0 SD card, 12 PCI\n\
         Watching:   USB\n\
         Violations: 0\n\
         Last poll:  120ms ago"
    );
}

#[test]
fn test_format_status_shows_dry_run_pending_and_live_readings() {
    let data = json(
        r#"{
        "armed": true, "mode": "enforce", "dry_run": true,
        "pending_violation": {"bus": "power", "reason": "AC power removed", "secs_left": 23},
        "power_state": "battery", "lid_state": "open", "network_links_down": 0,
        "usb_devices": 0, "thunderbolt_devices": 0, "sdcard_devices": 0, "pci_devices": 0,
        "violations_logged": 0
    }"#,
    );
    let out = format_status(&data);
    assert!(
        out.contains("Dry run:    yes, violations are logged but nothing is killed"),
        "{out}"
    );
    assert!(
        out.contains("Pending:    power violation in 23s: AC power removed"),
        "{out}"
    );
    assert!(
        out.contains("Live:       on battery, lid open, all links up"),
        "{out}"
    );
}

#[test]
fn test_allowance_requests_deserialize() {
    let pair = Request::read(&json(r#"{"command":"pair","window_secs":60}"#)).unwrap();
    assert!(matches!(
        pair,
        Request::Pair {
            window_secs: 60,
            for_secs: None
        }
    ));
    let last = Request::read(&json(r#"{"command":"allow_last","for_secs":null}"#)).unwrap();
    assert!(matches!(last, Request::AllowLast { for_secs: None }));
    let revoke = Request::read(&json(
        r#"{"command":"revoke","selector":"usb:1d6b:0002"}"#,
    ))
    .unwrap();
    let Request::Revoke { selector } = revoke else {
        panic!("expected Request::Revoke");
    };
    assert_eq!(selector, "usb:1d6b:0002");
    assert!(matches!(
        Request::read(&json(r#"{"command":"revoke_all"}"#)).unwrap(),
        Request::RevokeAll
    ));
}

#[test]
fn test_granting_waits_for_a_password_and_revoking_does_not() {
    for command in ["pair", "allow_last"] {
        let req = json(&format!(r#"{{"command": "{command}"}}"#));
        assert_eq!(read_timeout(&req), AUTH_READ_TIMEOUT_SECS, "{command}");
    }
    for command in ["revoke", "revoke_all"] {
        let req = json(&format!(r#"{{"command": "{command}"}}"#));
        assert_eq!(read_timeout(&req), READ_TIMEOUT_SECS, "{command}");
    }
    // Closing a window takes a permission away, so the daemon answers it
    // without a prompt and the client must not wait two minutes for one.
    assert_eq!(
        read_timeout(&json(r#"{"command": "pair", "window_secs": 0}"#)),
        READ_TIMEOUT_SECS
    );
    assert_eq!(
        read_timeout(&json(r#"{"command": "pair", "window_secs": 300}"#)),
        AUTH_READ_TIMEOUT_SECS
    );
}

#[test]
fn test_parse_duration_secs_takes_suffixes_and_refuses_junk() {
    assert_eq!(parse_duration_secs("90"), Ok(90));
    assert_eq!(parse_duration_secs("30s"), Ok(30));
    assert_eq!(parse_duration_secs("10m"), Ok(600));
    assert_eq!(parse_duration_secs("2h"), Ok(7200));
    assert!(parse_duration_secs("soon").is_err());
    assert!(parse_duration_secs("-5").is_err());
    assert!(parse_duration_secs("").is_err());
}

fn allowance_text(selector: &str, name: &str, expires_in_secs: Option<u64>) -> String {
    format!(
        r#"{{"selector": "{selector}", "bus": "{}", "name": "{name}", "granted_by": "paired",
            "age_secs": 312, "expires_in_secs": {}}}"#,
        selector.split(':').next().unwrap(),
        expires_in_secs.map_or("null".to_string(), |n| n.to_string()),
    )
}

fn allowance(selector: &str, name: &str, expires_in_secs: Option<u64>) -> Json {
    json(&allowance_text(selector, name, expires_in_secs))
}

#[test]
fn test_allowance_table_says_so_when_there_are_none() {
    assert_eq!(
        render_allowances(&[], None, AllowanceOutput::Table),
        "No allowances.\n"
    );
}

#[test]
fn test_allowance_table_lists_one_per_row() {
    let list = [
        allowance("usb:1d6b:0002", "Kingston DataTraveler", None),
        allowance("pci:0000:01:00.0", "", Some(90)),
    ];
    let out = render_allowances(&list, None, AllowanceOutput::Table);
    let lines: Vec<&str> = out.lines().collect();
    assert!(lines[0].starts_with("SELECTOR"), "{out}");
    assert!(
        lines[1].contains("usb:1d6b:0002")
            && lines[1].contains("paired")
            && lines[1].contains("5m 12s")
            && lines[1].contains("never")
            && lines[1].contains("Kingston DataTraveler"),
        "{out}"
    );
    assert!(
        lines[2].contains("pci:0000:01:00.0") && lines[2].contains("1m 30s"),
        "{out}"
    );
    assert_eq!(lines.len(), 3, "{out}");
}

#[test]
fn test_allowance_toml_is_the_whitelist_emitter_text() {
    let list = [allowance("usb:1d6b:0002", "Kingston DataTraveler", None)];
    let out = render_allowances(&list, None, AllowanceOutput::Toml);
    let same = generate_whitelist_toml(&[UsbDeviceInfo {
        vendor_id: "1d6b".to_string(),
        product_id: "0002".to_string(),
        product: Some("Kingston DataTraveler".to_string()),
    }]);
    assert_eq!(out, same);
    assert!(!out.contains("thunderbolt_whitelist"), "{out}");
    assert!(!out.contains("[pci]"), "{out}");
}

#[test]
fn test_allowance_toml_carries_every_bus_it_can_express() {
    let list = [
        allowance("thunderbolt:uuid-aaa", "Dock", None),
        allowance("sdcard:0xdeadbeef", "SanDisk", None),
        allowance("pci:0000:01:00.0", "", None),
        allowance("display:SAM:772d:811021873", "U28E590", None),
    ];
    let out = render_allowances(&list, None, AllowanceOutput::Toml);
    assert!(out.contains("unique_id = \"uuid-aaa\""), "{out}");
    assert!(out.contains("serial = \"0xdeadbeef\""), "{out}");
    assert!(
        out.contains("[pci]\nignore = [\n    \"0000:01:00.0\",\n]"),
        "{out}"
    );
    // A monitor has no config form, so it is named rather than dropped.
    assert!(out.contains("# no config form"), "{out}");
    assert!(out.contains("SAM:772d:811021873"), "{out}");
}

#[test]
fn test_allowance_nix_emits_module_settings() {
    let list = [
        allowance("usb:1d6b:0002", "Kingston DataTraveler", None),
        allowance("pci:0000:01:00.0", "", None),
    ];
    let out = render_allowances(&list, None, AllowanceOutput::Nix);
    assert!(
        out.contains(
            "services.plugkill.settings.whitelist.devices = [\n  { vendor_id = \"1d6b\"; \
             product_id = \"0002\"; count = 1; }  # Kingston DataTraveler\n];"
        ),
        "{out}"
    );
    assert!(
        out.contains("services.plugkill.settings.pci.ignore = [\n  \"0000:01:00.0\"\n];"),
        "{out}"
    );
    assert!(!out.contains("sdcard_whitelist"), "{out}");
}

#[test]
fn test_allowance_json_is_the_raw_array() {
    let one = allowance_text("usb:1d6b:0002", "Kingston DataTraveler", None);
    let line = format!(r#"{{"ok": true, "data": {{"allowances": [{one}]}}}}"#);
    let out = allowances_output(&line, AllowanceOutput::Json).unwrap();
    let back: Vec<serde_json::Value> = serde_json::from_str(&out).unwrap();
    let list: Vec<serde_json::Value> = vec![serde_json::from_str(&one).unwrap()];
    assert_eq!(back, list);
}

#[test]
fn test_format_status_shows_allowances_and_an_open_pairing_window() {
    let one = allowance_text("usb:1d6b:0002", "Kingston DataTraveler", None);
    let data = json(&format!(
        r#"{{"armed": true, "mode": "enforce", "allowances": [{one}],
            "pairing_window_secs_left": 42, "violations_logged": 0}}"#
    ));
    let out = format_status(&data);
    assert!(out.contains("Pairing:    window closes in 42s"), "{out}");
    assert!(out.contains("Allowances: usb:1d6b:0002"), "{out}");
    assert_eq!(allowance_list(&data).len(), 1);
}

#[test]
fn every_request_is_read_and_every_flaw_is_named() {
    let err = |text: &str| Request::read(&json(text)).unwrap_err();
    assert_eq!(err("{}"), Refusal::Missing("command"));
    assert_eq!(err("[]"), Refusal::Missing("command"));
    assert_eq!(err("3"), Refusal::Shape);
    assert_eq!(err(r#"{"command":3}"#), Refusal::Invalid("command"));
    assert_eq!(
        err(r#"{"command":"explode"}"#),
        Refusal::Unknown("explode".to_string())
    );
    assert_eq!(
        err(r#"{"command":"disarm"}"#),
        Refusal::Missing("timeout_secs")
    );
    assert_eq!(
        err(r#"{"command":"disarm","timeout_secs":-1}"#),
        Refusal::Invalid("timeout_secs")
    );
    assert_eq!(
        err(r#"{"command":"pair","window_secs":1,"for_secs":"x"}"#),
        Refusal::Invalid("for_secs")
    );
    assert_eq!(
        err(r#"{"command":"pair","for_secs":"x"}"#),
        Refusal::Invalid("for_secs")
    );
    assert_eq!(err(r#"{"command":"pair"}"#), Refusal::Missing("window_secs"));
    assert_eq!(err(r#"["status", 1]"#), Refusal::TooMany);
    assert_eq!(err(r#"["disarm", "x", 1]"#), Refusal::Invalid("timeout_secs"));
    assert_eq!(
        Request::read(&json(r#"["disarm", 60]"#)),
        Ok(Request::Disarm { timeout_secs: 60 })
    );
    for (text, want) in [
        ("status", Request::Status),
        ("devices", Request::Devices),
        ("violations", Request::Violations),
        ("arm", Request::Arm),
        ("learn", Request::Learn),
        ("enforce", Request::Enforce),
        ("reload", Request::Reload),
    ] {
        assert_eq!(
            Request::read(&json(&format!(r#"{{"command":"{text}"}}"#))),
            Ok(want)
        );
    }
}

#[test]
fn replies_are_judged_and_printed() {
    assert_eq!(
        reply_error(&json(r#"{"ok":false}"#)).as_deref(),
        Some("unknown error")
    );
    assert_eq!(reply_error(&json(r#"{"ok":true}"#)), None);
    let reply = json(r#"{"ok":true,"data":{"message":"armed"}}"#);
    assert_eq!(human_response(&reply, None).as_deref(), Some("armed"));
    let raw = command_output(r#"{"ok":true,"data":{"message":"armed"}}"#, true)
        .unwrap()
        .unwrap();
    let back: serde_json::Value = serde_json::from_str(&raw).unwrap();
    assert_eq!(back["data"]["message"], "armed");
    assert!(parse_reply("not json").is_err());
    // What is no JSON cannot be judged, and is shown as it came.
    assert_eq!(
        command_output("not json", true).unwrap().as_deref(),
        Some("not json")
    );
    assert!(allowances_output("not json", AllowanceOutput::Table)
        .unwrap_err()
        .starts_with("invalid JSON response: "));
    assert_eq!(Response::err("no").error.as_deref(), Some("no"));
    assert!(Response::ok(json("{}")).ok);
    assert_eq!(BUSES.len(), 8);
}

#[test]
fn a_request_goes_out_as_one_line() {
    let line = request_text(&json(r#"{"command":"kill","reason":"x"}"#)).unwrap();
    assert_eq!(line, "{\"command\":\"kill\",\"reason\":\"x\"}\n");
}

#[test]
fn json_survives_reading_and_writing() {
    let text = r#"{"a":[1,-2,true,null,"x\ny"],"b":{"c":18446744073709551615}}"#;
    let j = json(text);
    assert_eq!(plugkill::json::write(&j).unwrap(), text);
    assert_eq!(j.get("b").unwrap().get_u64("c"), Some(u64::MAX));
    assert_eq!(j.get("a").unwrap().as_array().unwrap().len(), 5);
    assert_eq!(j.get("a").unwrap().as_array().unwrap()[4].as_str(), Some("x\ny"));
    assert!(matches!(json("1.5"), Json::Real(s) if s == "1.5"));
    assert!(read("{").is_err());
}

#[test]
fn the_daemon_reads_every_command_as_itself() {
    let read = |c: Command| Request::read(&c.request()).unwrap();
    assert_eq!(read(Command::Arm), Request::Arm);
    assert_eq!(read(Command::Disarm(60)), Request::Disarm { timeout_secs: 60 });
    assert_eq!(read(Command::Learn), Request::Learn);
    assert_eq!(read(Command::Enforce), Request::Enforce);
    assert_eq!(read(Command::Reload), Request::Reload);
    assert_eq!(
        read(Command::Pair {
            window_secs: 30,
            for_secs: Some(5)
        }),
        Request::Pair {
            window_secs: 30,
            for_secs: Some(5)
        }
    );
    assert_eq!(
        read(Command::AllowLast { for_secs: None }),
        Request::AllowLast { for_secs: None }
    );
    assert_eq!(
        read(Command::Revoke("usb:1d6b:0002")),
        Request::Revoke {
            selector: "usb:1d6b:0002".to_string()
        }
    );
    assert_eq!(read(Command::RevokeAll), Request::RevokeAll);
    assert_eq!(
        Request::read(&kill_request("lid closed")),
        Ok(Request::Kill {
            reason: "lid closed".to_string()
        })
    );
}

#[test]
fn a_number_is_worth_its_unit() {
    assert_eq!(parse_duration_secs("7"), Ok(7));
    assert_eq!(parse_duration_secs("7s"), Ok(7));
    assert_eq!(parse_duration_secs("7m"), Ok(420));
    assert_eq!(parse_duration_secs("7h"), Ok(25200));
    assert_eq!(parse_duration_secs("18446744073709551615s"), Ok(u64::MAX));
    assert!(parse_duration_secs("18446744073709551615m").is_err());
}

#[test]
fn a_refusal_reaches_the_client() {
    let reply = Response::err("not armed").envelope();
    assert_eq!(reply, json(r#"{"ok": false, "error": "not armed"}"#));
    assert_eq!(reply_error(&reply).as_deref(), Some("not armed"));
    assert_eq!(sent(Ok(reply)), Err("not armed".to_string()));

    let reply = Response::ok(json(r#"{"message": "armed"}"#)).envelope();
    assert_eq!(reply, json(r#"{"ok": true, "data": {"message": "armed"}}"#));
    assert_eq!(reply_error(&reply), None);
    assert_eq!(human_response(&reply, None).as_deref(), Some("armed"));
}

#[test]
fn each_platform_has_its_socket_path() {
    assert_eq!(DEFAULT_SOCKET_PATH, "/run/plugkill/plugkill.sock");
    assert_eq!(VAR_SOCKET_PATH, "/var/run/plugkill/plugkill.sock");
}

#[test]
fn only_ordered_whole_numbers_print() {
    assert!(prints(&json(r#"{"a": [1, -2, null], "b": {"c": "x"}}"#)));
    assert!(!prints(&json("[1.5]")));
    let pair = |a: &str, b: &str| {
        Json::Object(vec![
            (a.to_string(), Json::Null),
            (b.to_string(), Json::Uint(1)),
        ])
    };
    assert!(prints(&pair("a", "b")));
    assert!(!prints(&pair("b", "a")));
    assert!(!prints(&pair("a", "a")));
    assert!(!prints(&Json::Int(3)));
}
