//! Whether polkit lets a caller through.

use plugkill::authz::{
    after_check, after_id, after_owner, after_pid_lookup, display_session_id, from_check_reply,
    is_login_error, no_bus, no_polkit, no_user, refusal, route_pid_lookup, Authority,
    Authorization, BusError, BusFailure, NoPolkit, SubjectStep, ERR_NO_SESSION_FOR_PID,
    ERR_NO_SUCH_USER, METHOD_TIMEOUT_SECS, REASON_DENIED, REASON_MALFORMED, REASON_NO_AUTHORITY,
    REASON_NO_BUS, REASON_NO_DISPLAY_SESSION, REASON_NO_POLKIT, REASON_NO_SESSION, REASON_TIMEOUT,
};
use plugkill::ipc::AUTH_READ_TIMEOUT_SECS;

fn bus_error(failure: BusFailure, text: &str) -> BusError {
    BusError {
        failure,
        text: text.to_string(),
    }
}

fn method_error(name: &str) -> BusError {
    bus_error(BusFailure::Method(name.to_string()), name)
}

#[test]
fn authorized_reply_allows_and_anything_else_refuses() {
    assert_eq!(from_check_reply(true), Authorization::Allowed);
    assert_eq!(
        from_check_reply(false),
        Authorization::Refused(REASON_DENIED.to_string())
    );
}

#[test]
fn we_give_up_before_the_client_does() {
    assert!(METHOD_TIMEOUT_SECS < AUTH_READ_TIMEOUT_SECS);
}

#[test]
fn a_timeout_is_a_refusal_that_says_so() {
    let err = bus_error(BusFailure::TimedOut, "no reply");
    let refused = refusal(REASON_NO_AUTHORITY, &err);
    assert_ne!(refused, Authorization::Allowed);
    assert!(refused.reason().starts_with(REASON_TIMEOUT));
}

#[test]
fn an_unreadable_reply_is_a_malformed_refusal() {
    let err = bus_error(BusFailure::Unreadable, "incorrect type");
    assert!(refusal(REASON_NO_AUTHORITY, &err)
        .reason()
        .starts_with(REASON_MALFORMED));
    assert!(refusal(REASON_NO_SESSION, &err)
        .reason()
        .starts_with(REASON_MALFORMED));
}

#[test]
fn no_session_for_pid_routes_to_the_display_session() {
    assert_eq!(
        route_pid_lookup::<String>(Err(method_error(ERR_NO_SESSION_FOR_PID))),
        Err(None)
    );
    // Anything else from logind is a refusal that names the stage.
    let other = route_pid_lookup::<String>(Err(bus_error(BusFailure::Other, "gone")))
        .unwrap_err()
        .expect("anything but NoSessionForPID refuses");
    assert!(other.reason().starts_with(REASON_NO_SESSION));
    assert_eq!(route_pid_lookup(Ok("3")), Ok("3"));
}

#[test]
fn the_logind_error_names_are_the_ones_logind_sends() {
    assert_eq!(
        ERR_NO_SESSION_FOR_PID,
        "org.freedesktop.login1.NoSessionForPID"
    );
    assert_eq!(ERR_NO_SUCH_USER, "org.freedesktop.login1.NoSuchUser");
}

#[test]
fn a_user_with_no_display_session_is_refused_by_name() {
    assert_eq!(
        display_session_id(Ok(Some(String::new()))),
        Err(Authorization::Refused(
            REASON_NO_DISPLAY_SESSION.to_string()
        ))
    );
    assert_eq!(
        display_session_id(Ok(Some("3".to_string()))),
        Ok("3".to_string())
    );
}

#[test]
fn a_display_property_that_is_not_a_pair_is_malformed() {
    let refused = display_session_id(Ok(None)).unwrap_err();
    assert!(refused.reason().starts_with(REASON_MALFORMED));
    let refused = display_session_id(Err("incorrect type".to_string())).unwrap_err();
    assert_eq!(
        refused.reason(),
        format!("{REASON_MALFORMED}: incorrect type")
    );
}

#[test]
fn a_missing_authority_or_session_keeps_its_stage() {
    let err = bus_error(BusFailure::Other, "no such name");
    assert!(refusal(REASON_NO_AUTHORITY, &err)
        .reason()
        .starts_with(REASON_NO_AUTHORITY));
    assert!(refusal(REASON_NO_SESSION, &err)
        .reason()
        .starts_with(REASON_NO_SESSION));
}

#[test]
fn without_polkit_everything_is_refused() {
    let answer = no_polkit();
    assert_ne!(answer, Authorization::Allowed);
    assert_eq!(answer.reason(), REASON_NO_POLKIT);
    assert_eq!(NoPolkit.check("any", 0, 1).reason(), REASON_NO_POLKIT);
}

#[test]
fn allowed_reports_itself() {
    assert_eq!(Authorization::Allowed.reason(), "allowed");
}

#[test]
fn a_session_of_another_user_is_no_subject() {
    let step = after_owner("/s/3".to_string(), 1000, Ok(1001));
    assert_eq!(
        step,
        SubjectStep::Refuse(Authorization::Refused(REASON_NO_SESSION.to_string()))
    );
    assert_eq!(
        after_owner("/s/3".to_string(), 1000, Ok(1000)),
        SubjectStep::AskId("/s/3".to_string())
    );
    let unreadable = after_owner(
        "/s/3".to_string(),
        1000,
        Err(bus_error(BusFailure::Unreadable, "not a pair")),
    );
    match unreadable {
        SubjectStep::Refuse(a) => assert_eq!(a.reason(), format!("{REASON_MALFORMED}: not a pair")),
        other => panic!("{other:?}"),
    }
}

#[test]
fn the_pid_lookup_leads_to_the_owner_or_the_display() {
    assert_eq!(
        after_pid_lookup(Ok("/s/3".to_string())),
        SubjectStep::AskOwner("/s/3".to_string())
    );
    assert_eq!(
        after_pid_lookup(Err(method_error(ERR_NO_SESSION_FOR_PID))),
        SubjectStep::AskDisplay
    );
    match after_pid_lookup(Err(bus_error(BusFailure::Other, "gone"))) {
        SubjectStep::Refuse(a) => assert_eq!(a.reason(), format!("{REASON_NO_SESSION}: gone")),
        other => panic!("{other:?}"),
    }
}

#[test]
fn a_user_logind_does_not_know_has_no_session_at_all() {
    let e = method_error(ERR_NO_SUCH_USER);
    assert!(is_login_error(&e, ERR_NO_SUCH_USER));
    assert!(!is_login_error(&e, ERR_NO_SESSION_FOR_PID));
    assert_eq!(no_user(&e).reason(), REASON_NO_DISPLAY_SESSION);
    assert_eq!(
        no_user(&bus_error(BusFailure::Other, "gone")).reason(),
        format!("{REASON_NO_SESSION}: gone")
    );
}

#[test]
fn a_check_is_allowed_only_by_a_clear_yes() {
    assert_eq!(after_check(Ok(Ok(true))), Authorization::Allowed);
    assert_eq!(after_check(Ok(Ok(false))).reason(), REASON_DENIED);
    assert_eq!(
        after_check(Ok(Err(bus_error(BusFailure::Unreadable, "x")))).reason(),
        format!("{REASON_MALFORMED}: x")
    );
    assert_eq!(
        after_check(Err(bus_error(BusFailure::TimedOut, "x"))).reason(),
        format!("{REASON_TIMEOUT}: x")
    );
    assert_eq!(no_bus("x").reason(), format!("{REASON_NO_BUS}: x"));
    assert_eq!(after_id(Ok("3".to_string())), Ok("3".to_string()));
    assert_eq!(
        after_id(Err(bus_error(BusFailure::Other, "gone")))
            .unwrap_err()
            .reason(),
        format!("{REASON_NO_SESSION}: gone")
    );
}
