//! The diagnostics panel.

use plugkill::gui::settings::diagnostics::{
    checks, env_var, facts as gathered, group_name, is_agent_comm, parse_gids,
    polkit_agent_running, report, rescans, socket_access, Check, Env, Facts, Process, Verdict,
};
use plugkill::gui::status::{Status, TrayState, STALL_MS};

fn find<'a>(checks: &'a [Check], label: &str) -> &'a Check {
    checks
        .iter()
        .find(|c| c.label == label)
        .expect("the panel has that line")
}

fn facts() -> Facts {
    Facts {
        socket: "/tmp/plugkill.sock".into(),
        reachable: true,
        socket_group: Some("plugkill".into()),
        in_socket_group: Some(true),
        require_auth: Some(true),
        polkit_agent: Some(true),
        seat: Some("seat0".into()),
        session: Some("3".into()),
        status: Some(Status {
            uptime_secs: 3_700,
            last_poll_ms_ago: Some(420),
            config_path: "/etc/plugkill.toml".into(),
            version: "0.1.0".into(),
            ..Status::default()
        }),
        ..Facts::default()
    }
}

#[test]
fn test_a_healthy_machine_has_nothing_to_fix() {
    let checks = checks(&facts(), "0.1.0");
    assert!(
        checks.iter().all(|c| c.verdict == Verdict::Fine),
        "{:?}",
        checks
            .iter()
            .filter(|c| c.verdict != Verdict::Fine)
            .collect::<Vec<_>>()
    );
    assert!(checks.iter().all(|c| c.fix.is_none()));
    assert_eq!(find(&checks, "Uptime").detail, "1h 1m");
    assert_eq!(find(&checks, "Last poll").detail, "420 ms ago");
    assert_eq!(find(&checks, "Config path").detail, "/etc/plugkill.toml");
    assert_eq!(find(&checks, "Daemon version").detail, "0.1.0");
    assert_eq!(find(&checks, "GUI version").detail, "0.1.0");
}

#[test]
fn test_nothing_answering_names_the_socket_and_says_what_to_run() {
    let f = Facts {
        reachable: false,
        status: None,
        ..facts()
    };
    let checks = checks(&f, "0.1.0");
    let daemon = find(&checks, "Daemon");
    assert_eq!(daemon.verdict, Verdict::Problem);
    assert!(daemon.detail.contains("/tmp/plugkill.sock"));
    assert!(daemon.fix.as_deref().unwrap().contains("systemctl start"));
    // Everything the status would have carried is unknown, not invented.
    for label in ["Last poll", "Uptime", "Config path", "Daemon version"] {
        assert_eq!(find(&checks, label).verdict, Verdict::Unknown, "{label}");
    }
}

#[test]
fn test_a_stalled_daemon_is_not_reported_as_absent() {
    let f = Facts {
        stalled: true,
        ..facts()
    };
    let daemon = find(&checks(&f, "0.1.0"), "Daemon").clone();
    assert_eq!(daemon.verdict, Verdict::Problem);
    assert!(daemon.detail.contains("poll loop has stopped"));
    assert!(daemon.fix.as_deref().unwrap().contains("journalctl"));
}

#[test]
fn test_being_out_of_the_socket_group_says_which_group() {
    let f = Facts {
        in_socket_group: Some(false),
        ..facts()
    };
    let check = find(&checks(&f, "0.1.0"), "Socket group").clone();
    assert_eq!(check.verdict, Verdict::Problem);
    assert!(check
        .fix
        .as_deref()
        .unwrap()
        .contains("usermod -aG plugkill"));
}

#[test]
fn test_an_unreadable_socket_is_unknown_not_a_refusal() {
    let f = Facts {
        socket_group: None,
        in_socket_group: None,
        ..facts()
    };
    assert_eq!(
        find(&checks(&f, "0.1.0"), "Socket group").verdict,
        Verdict::Unknown,
        "cannot tell is said, never guessed"
    );
}

#[test]
fn test_require_auth_is_reported_either_way_and_neither_is_a_fault() {
    for on in [true, false] {
        let f = Facts {
            require_auth: Some(on),
            ..facts()
        };
        assert_eq!(
            find(&checks(&f, "0.1.0"), "Authentication").verdict,
            Verdict::Fine
        );
    }
    let f = Facts {
        require_auth: None,
        ..facts()
    };
    assert_eq!(
        find(&checks(&f, "0.1.0"), "Authentication").verdict,
        Verdict::Unknown
    );
}

#[test]
fn test_a_missing_agent_only_matters_while_require_auth_is_on() {
    let on = Facts {
        polkit_agent: Some(false),
        require_auth: Some(true),
        ..facts()
    };
    let check = find(&checks(&on, "0.1.0"), "Polkit agent").clone();
    assert_eq!(check.verdict, Verdict::Problem);
    assert!(check.fix.is_some());

    let off = Facts {
        polkit_agent: Some(false),
        require_auth: Some(false),
        ..facts()
    };
    assert_eq!(
        find(&checks(&off, "0.1.0"), "Polkit agent").verdict,
        Verdict::Fine
    );

    let cannot_tell = Facts {
        polkit_agent: None,
        ..facts()
    };
    assert_eq!(
        find(&checks(&cannot_tell, "0.1.0"), "Polkit agent").verdict,
        Verdict::Unknown
    );
}

#[test]
fn test_a_seatless_session_is_a_problem_and_no_session_is_unknown() {
    let ssh = Facts {
        seat: None,
        session: Some("7".into()),
        ..facts()
    };
    assert_eq!(
        find(&checks(&ssh, "0.1.0"), "Session seat").verdict,
        Verdict::Problem
    );

    let none = Facts {
        seat: None,
        session: None,
        ..facts()
    };
    assert_eq!(
        find(&checks(&none, "0.1.0"), "Session seat").verdict,
        Verdict::Unknown
    );
}

#[test]
fn test_a_poll_older_than_the_stall_window_is_a_problem() {
    let mut f = facts();
    f.status.as_mut().unwrap().last_poll_ms_ago = Some(STALL_MS + 1);
    assert_eq!(
        find(&checks(&f, "0.1.0"), "Last poll").verdict,
        Verdict::Problem
    );

    // A disarmed daemon stops counting, and that is not a fault.
    let mut f = facts();
    f.status.as_mut().unwrap().last_poll_ms_ago = None;
    assert_eq!(
        find(&checks(&f, "0.1.0"), "Last poll").verdict,
        Verdict::Unknown
    );
}

#[test]
fn test_a_daemon_that_predates_the_fields_says_so_rather_than_guessing() {
    let mut f = facts();
    let status = f.status.as_mut().unwrap();
    status.config_path = String::new();
    status.version = String::new();
    let checks = checks(&f, "0.1.0");
    assert_eq!(find(&checks, "Config path").verdict, Verdict::Unknown);
    assert_eq!(find(&checks, "Daemon version").verdict, Verdict::Unknown);
}

#[test]
fn test_the_report_carries_every_line_and_its_fix() {
    let f = Facts {
        reachable: false,
        ..facts()
    };
    let checks = checks(&f, "0.1.0");
    let text = report(&checks);
    assert!(text.starts_with("plugkill diagnostics\n"));
    assert_eq!(
        text.lines().filter(|l| l.starts_with('[')).count(),
        checks.len(),
        "one line per check"
    );
    assert!(text.contains("[problem] Daemon: no answer on /tmp/plugkill.sock"));
    assert!(text.contains("    fix: start it: sudo systemctl start plugkill"));
}

#[test]
fn test_gids_come_off_the_status_file() {
    let status = "Name:\tplugkill-gui\nGid:\t1000\t1000\t1000\t1000\nGroups:\t27 100 989 \n";
    assert_eq!(parse_gids(status), vec![1000, 1000, 27, 100, 989]);
    assert!(parse_gids("Name:\tnothing\n").is_empty());
}

#[test]
fn test_a_group_is_named_by_its_gid() {
    let group = "root:x:0:\nplugkill:x:989:acid\nwheel:x:998:acid\n";
    assert_eq!(group_name(group, 989).as_deref(), Some("plugkill"));
    assert_eq!(group_name(group, 0).as_deref(), Some("root"));
    assert!(group_name(group, 1234).is_none());
}

#[test]
fn test_an_agent_is_recognised_by_its_process_name() {
    for comm in [
        "polkit-gnome-au",
        "polkit-kde-auth",
        "polkit-mate-aut",
        "lxpolkit",
        "lxqt-policykit",
        "hyprpolkitagent",
        // GNOME's agent is the shell itself: it owns no name of its own.
        "gnome-shell",
    ] {
        assert!(is_agent_comm(&format!("{comm}\n")), "{comm}");
    }
    // The daemon being asked, and the helper it spawns mid-prompt.
    assert!(!is_agent_comm("polkitd\n"));
    assert!(!is_agent_comm("polkit-agent-he\n"));
    assert!(!is_agent_comm("plugkill\n"));
}

#[test]
fn only_an_agent_of_this_user_counts() {
    let process = |name: &str, owner, comm: &str| Process {
        name: name.to_string(),
        owner,
        comm: Some(comm.to_string()),
    };
    let all = [
        process("self", Some(1000), "lxpolkit\n"),
        process("17", Some(0), "lxpolkit\n"),
        process("18", Some(1000), "bash\n"),
    ];
    assert_eq!(polkit_agent_running(Some(1000), Some(&all)), Some(false));
    assert_eq!(polkit_agent_running(Some(0), Some(&all)), Some(true));
    assert_eq!(polkit_agent_running(None, Some(&all)), None);
    assert_eq!(polkit_agent_running(Some(0), None), None);
}

#[test]
fn the_socket_group_is_named_or_numbered() {
    let status = "Gid:\t1000\t1000\t1000\t1000\nGroups:\t989 \n";
    let group = "plugkill:x:989:acid\n";
    assert_eq!(
        socket_access(Some(989), Some(status), Some(group)),
        (Some("plugkill".to_string()), Some(true))
    );
    assert_eq!(
        socket_access(Some(7), Some(status), None),
        (Some("gid 7".to_string()), Some(false))
    );
    assert_eq!(
        socket_access(Some(7), None, None),
        (Some("gid 7".to_string()), None)
    );
    assert_eq!(socket_access(None, Some(status), Some(group)), (None, None));
}

#[test]
fn facts_follow_the_state_and_the_environment() {
    assert_eq!(env_var(Some(String::new())), None);
    assert_eq!(env_var(Some("seat0".into())).as_deref(), Some("seat0"));
    assert!(rescans(0) && rescans(15) && !rescans(16));
    let f = gathered(
        "/s",
        &TrayState::Down { stalled: true },
        Env::default(),
        Some(true),
        None,
    );
    assert!(f.reachable && f.stalled);
    let f = gathered(
        "/s",
        &TrayState::Down { stalled: false },
        Env::default(),
        None,
        None,
    );
    assert!(!f.reachable && !f.stalled);
    assert_eq!(Verdict::Unknown.css(), "unsure");
    assert_eq!(Verdict::Problem.word(), "problem");
}
