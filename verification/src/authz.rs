//! Answering one question: may this caller run this action?
//!
//! The daemon asks before it runs a gated command. The answer comes from
//! polkit over the system bus, with the caller's logind session as the subject.
//! The caller of this module talks to the bus; what its replies mean is decided
//! here.

use vstd::prelude::*;

use crate::text::{cat3, same};

verus! {

/// Polkit action ids for the gated commands.
pub const ACTION_DISARM: &'static str = "net.acidnetworks.plugkill.disarm";

pub const ACTION_LEARN: &'static str = "net.acidnetworks.plugkill.learn";

pub const ACTION_RELOAD: &'static str = "net.acidnetworks.plugkill.reload";

/// Granting a runtime allowance: pairing a device, or promoting the last
/// violation. Revoking one is never gated.
pub const ACTION_ALLOW: &'static str = "net.acidnetworks.plugkill.allow";

/// Said where polkit is not the authority, which is every platform but Linux.
pub const REASON_NO_POLKIT: &'static str = "polkit is not available on this platform";

/// Why a check was refused. Each reason names which failure it was, so the
/// journal answers "why did that disarm not go through" after the fact.
pub const REASON_DENIED: &'static str = "polkit denied the action";

pub const REASON_NO_BUS: &'static str = "no system bus";

pub const REASON_NO_SESSION: &'static str = "caller has no logind session";

/// The pid has no session of its own and the uid has no display session
/// either, so there is no subject to ask about. Distinct from
/// `REASON_NO_SESSION`, which is logind or the bus failing to answer.
pub const REASON_NO_DISPLAY_SESSION: &'static str =
    "caller has no logind session and no display session";

pub const REASON_NO_AUTHORITY: &'static str = "polkit authority did not answer";

pub const REASON_MALFORMED: &'static str = "polkit reply was malformed";

pub const REASON_TIMEOUT: &'static str = "polkit did not answer in time";

/// How many seconds a bus call may take. The call blocks while the person
/// types their password. Short of the client's own wait on purpose: an equal
/// value would expire after the client had already given up, and the user would
/// see a transport error instead of the refusal.
pub const METHOD_TIMEOUT_SECS: u64 = 110;

/// AllowUserInteraction, so the session's agent prompts.
pub const ALLOW_USER_INTERACTION: u32 = 1;

/// logind's error names that are acted on rather than just reported.
pub const ERR_NO_SESSION_FOR_PID: &'static str = "org.freedesktop.login1.NoSessionForPID";

pub const ERR_NO_SUCH_USER: &'static str = "org.freedesktop.login1.NoSuchUser";

/// The answer. Anything but `Allowed` is a refusal carrying a reason.
#[derive(Debug, Clone, PartialEq, Eq)]
pub enum Authorization {
    Allowed,
    Refused(String),
}

impl Authorization {
    /// Text for the journal and for the error the client sees.
    pub open spec fn words(self) -> Seq<char> {
        match self {
            Authorization::Allowed => "allowed"@,
            Authorization::Refused(reason) => reason@,
        }
    }

    /// Text for the journal and for the error the client sees.
    pub fn reason(&self) -> (r: &str)
        ensures
            r@ == self.words(),
    {
        match self {
            Authorization::Allowed => "allowed",
            Authorization::Refused(reason) => reason.as_str(),
        }
    }

    /// Whether this is a refusal for exactly this reason.
    pub open spec fn refuses(self, reason: Seq<char>) -> bool {
        self matches Authorization::Refused(r) && r@ == reason
    }
}

/// Answers whether a caller may run an action. Both the uid and the pid come
/// from the socket's peer credentials, never from anything the client said.
pub trait Authority: Send + Sync {
    fn check(&self, action: &str, caller_uid: u32, caller_pid: u32) -> Authorization;
}

/// The authority where polkit is not: it refuses everyone.
#[derive(Debug, PartialEq, Eq)]
pub struct NoPolkit;

impl Authority for NoPolkit {
    fn check(&self, action: &str, caller_uid: u32, caller_pid: u32) -> (r: Authorization)
        ensures
            r.refuses(REASON_NO_POLKIT@),
    {
        no_polkit()
    }
}

/// The refusal where polkit is not the authority.
pub fn no_polkit() -> (r: Authorization)
    ensures
        r.refuses(REASON_NO_POLKIT@),
{
    Authorization::Refused(REASON_NO_POLKIT.to_owned())
}

/// How a call on the bus failed.
#[derive(Debug, Clone, PartialEq, Eq)]
pub enum BusFailure {
    /// Nothing came back in time.
    TimedOut,
    /// What came back could not be read.
    Unreadable,
    /// The other side answered with an error of this name.
    Method(String),
    /// Anything else.
    Other,
}

/// A failed call on the bus, and the bus library's words for it.
#[derive(Debug, Clone, PartialEq, Eq)]
pub struct BusError {
    pub failure: BusFailure,
    pub text: String,
}

/// The reason for a failure at some stage: a timeout or a reply that cannot be
/// read names itself instead of the stage.
pub open spec fn reason_for(stage: Seq<char>, failure: BusFailure) -> Seq<char> {
    match failure {
        BusFailure::TimedOut => REASON_TIMEOUT@,
        BusFailure::Unreadable => REASON_MALFORMED@,
        _ => stage,
    }
}

/// Whether an error is the named one.
pub open spec fn names(err: BusError, name: Seq<char>) -> bool {
    err.failure matches BusFailure::Method(n) && n@ == name
}

/// Every bus failure is a refusal. `stage` says which call failed.
pub fn refusal(stage: &str, err: &BusError) -> (r: Authorization)
    ensures
        r.refuses(reason_for(stage@, err.failure) + ": "@ + err.text@),
{
    let reason = match err.failure {
        BusFailure::TimedOut => REASON_TIMEOUT,
        BusFailure::Unreadable => REASON_MALFORMED,
        _ => stage,
    };
    Authorization::Refused(cat3(reason, ": ", err.text.as_str()))
}

/// The refusal where the system bus could not be reached.
pub fn no_bus(text: &str) -> (r: Authorization)
    ensures
        r.refuses(REASON_NO_BUS@ + ": "@ + text@),
{
    Authorization::Refused(cat3(REASON_NO_BUS, ": ", text))
}

/// True for a named logind error, so the caller can act on it instead of just
/// reporting it.
pub fn is_login_error(err: &BusError, name: &str) -> (r: bool)
    ensures
        r == names(*err, name@),
{
    match &err.failure {
        BusFailure::Method(n) => same(n.as_str(), name),
        _ => false,
    }
}

/// "No session of its own", which falls back, against a real failure, which
/// refuses.
pub fn route_pid_lookup<T>(found: Result<T, BusError>) -> (r: Result<T, Option<Authorization>>)
    ensures
        match found {
            Ok(t) => r == Ok::<T, Option<Authorization>>(t),
            Err(e) => if names(e, ERR_NO_SESSION_FOR_PID@) {
                r == Err::<T, Option<Authorization>>(None)
            } else {
                r matches Err(Some(a)) && a.refuses(
                    reason_for(REASON_NO_SESSION@, e.failure) + ": "@ + e.text@,
                )
            },
        },
{
    match found {
        Ok(t) => Ok(t),
        Err(e) => if is_login_error(&e, ERR_NO_SESSION_FOR_PID) {
            Err(None)
        } else {
            Err(Some(refusal(REASON_NO_SESSION, &e)))
        },
    }
}

/// What to do next to find the session that polkit is asked about.
#[derive(Debug, PartialEq, Eq)]
pub enum SubjectStep {
    /// Ask logind who owns this session.
    AskOwner(String),
    /// Ask logind for the id of this session.
    AskId(String),
    /// Ask logind for the display session of the caller's uid.
    AskDisplay,
    /// There is no subject: refuse.
    Refuse(Authorization),
}

/// Whether a step is the one after a session was looked up by pid.
pub open spec fn found_step(r: SubjectStep, found: Result<String, BusError>) -> bool {
    match found {
        Ok(path) => r == SubjectStep::AskOwner(path),
        Err(e) => if names(e, ERR_NO_SESSION_FOR_PID@) {
            r is AskDisplay
        } else {
            r matches SubjectStep::Refuse(a) && a.refuses(
                reason_for(REASON_NO_SESSION@, e.failure) + ": "@ + e.text@,
            )
        },
    }
}

/// A pid started by the systemd user manager has no session of its own, so
/// logind answers that there is none and the subject is where that uid is
/// sitting. `found` is the object path of the pid's session.
pub fn after_pid_lookup(found: Result<String, BusError>) -> (r: SubjectStep)
    ensures
        match found {
            Ok(path) => r == SubjectStep::AskOwner(path),
            Err(e) => if names(e, ERR_NO_SESSION_FOR_PID@) {
                r is AskDisplay
            } else {
                r matches SubjectStep::Refuse(a) && a.refuses(
                    reason_for(REASON_NO_SESSION@, e.failure) + ": "@ + e.text@,
                )
            },
        },
        found_step(r, found),
{
    match route_pid_lookup(found) {
        Ok(path) => SubjectStep::AskOwner(path),
        Err(None) => SubjectStep::AskDisplay,
        Err(Some(refused)) => SubjectStep::Refuse(refused),
    }
}

/// Whether a step is the one after logind told who owns a session.
pub open spec fn owned_step(
    r: SubjectStep,
    path: String,
    uid: u32,
    owner: Result<u32, BusError>,
) -> bool {
    match owner {
        Ok(o) => if o == uid {
            r == SubjectStep::AskId(path)
        } else {
            r matches SubjectStep::Refuse(a) && a.refuses(REASON_NO_SESSION@)
        },
        Err(e) => r matches SubjectStep::Refuse(a) && a.refuses(
            reason_for(REASON_NO_SESSION@, e.failure) + ": "@ + e.text@,
        ),
    }
}

/// Looking a session up by pid pins nothing but the pid, so a pid reused since
/// the peer credentials were read would name a stranger's session: only a
/// session that the caller owns goes further.
pub fn after_owner(path: String, uid: u32, owner: Result<u32, BusError>) -> (r: SubjectStep)
    ensures
        match owner {
            Ok(o) => if o == uid {
                r == SubjectStep::AskId(path)
            } else {
                r matches SubjectStep::Refuse(a) && a.refuses(REASON_NO_SESSION@)
            },
            Err(e) => r matches SubjectStep::Refuse(a) && a.refuses(
                reason_for(REASON_NO_SESSION@, e.failure) + ": "@ + e.text@,
            ),
        },
        owned_step(r, path, uid, owner),
{
    match owner {
        Ok(o) => if o == uid {
            SubjectStep::AskId(path)
        } else {
            SubjectStep::Refuse(Authorization::Refused(REASON_NO_SESSION.to_owned()))
        },
        Err(e) => SubjectStep::Refuse(refusal(REASON_NO_SESSION, &e)),
    }
}

/// The session's id, or the refusal where logind did not give it.
pub fn after_id(id: Result<String, BusError>) -> (r: Result<String, Authorization>)
    ensures
        match id {
            Ok(s) => r == Ok::<String, Authorization>(s),
            Err(e) => r matches Err(a) && a.refuses(
                reason_for(REASON_NO_SESSION@, e.failure) + ": "@ + e.text@,
            ),
        },
{
    match id {
        Ok(s) => Ok(s),
        Err(e) => Err(refusal(REASON_NO_SESSION, &e)),
    }
}

/// The refusal where logind did not describe the user: it knows no such user,
/// who then has no display session, or it failed.
pub fn no_user(e: &BusError) -> (r: Authorization)
    ensures
        if names(*e, ERR_NO_SUCH_USER@) {
            r.refuses(REASON_NO_DISPLAY_SESSION@)
        } else {
            r.refuses(reason_for(REASON_NO_SESSION@, e.failure) + ": "@ + e.text@)
        },
{
    if is_login_error(e, ERR_NO_SUCH_USER) {
        Authorization::Refused(REASON_NO_DISPLAY_SESSION.to_owned())
    } else {
        refusal(REASON_NO_SESSION, e)
    }
}

/// The `Display` property of a user as it was read: why it is no structure, or
/// the text in its first field where there is one.
pub type DisplayField = Result<Option<String>, String>;

/// Whether a session is the one that a user's display property gives.
pub open spec fn display_step(r: Result<String, Authorization>, display: DisplayField) -> bool {
    match display {
        Err(what) => r matches Err(a) && a.refuses(REASON_MALFORMED@ + ": "@ + what@),
        Ok(None) => r matches Err(a) && a.refuses(
            REASON_MALFORMED@ + ": "@ + "Display is not a (session id, path) pair"@,
        ),
        Ok(Some(id)) => if id@.len() == 0 {
            r matches Err(a) && a.refuses(REASON_NO_DISPLAY_SESSION@)
        } else {
            r == Ok::<String, Authorization>(id)
        },
    }
}

/// `Display` is a (session id, object path) pair. An empty id is a user with no
/// display session at all.
pub fn display_session_id(display: DisplayField) -> (r: Result<String, Authorization>)
    ensures
        match display {
            Err(what) => r matches Err(a) && a.refuses(REASON_MALFORMED@ + ": "@ + what@),
            Ok(None) => r matches Err(a) && a.refuses(
                REASON_MALFORMED@ + ": "@ + "Display is not a (session id, path) pair"@,
            ),
            Ok(Some(id)) => if id@.len() == 0 {
                r matches Err(a) && a.refuses(REASON_NO_DISPLAY_SESSION@)
            } else {
                r == Ok::<String, Authorization>(id)
            },
        },
        display_step(r, display),
{
    match display {
        Err(what) => Err(Authorization::Refused(cat3(REASON_MALFORMED, ": ", what.as_str()))),
        Ok(None) => Err(
            Authorization::Refused(
                cat3(REASON_MALFORMED, ": ", "Display is not a (session id, path) pair"),
            ),
        ),
        Ok(Some(id)) => if id.as_str().is_empty() {
            Err(Authorization::Refused(REASON_NO_DISPLAY_SESSION.to_owned()))
        } else {
            Ok(id)
        },
    }
}

/// Only an explicit "authorized" is an allow.
pub fn from_check_reply(is_authorized: bool) -> (r: Authorization)
    ensures
        r is Allowed <==> is_authorized,
        !is_authorized ==> r.refuses(REASON_DENIED@),
{
    if is_authorized {
        Authorization::Allowed
    } else {
        Authorization::Refused(REASON_DENIED.to_owned())
    }
}

/// Whether an answer is what polkit's reply comes to.
pub open spec fn verdict(
    r: Authorization,
    reply: Result<Result<bool, BusError>, BusError>,
) -> bool {
    match reply {
        Ok(Ok(allowed)) => if allowed {
            r is Allowed
        } else {
            r.refuses(REASON_DENIED@)
        },
        Ok(Err(e)) => r.refuses(reason_for(REASON_MALFORMED@, e.failure) + ": "@ + e.text@),
        Err(e) => r.refuses(reason_for(REASON_NO_AUTHORITY@, e.failure) + ": "@ + e.text@),
    }
}

/// What polkit's answer to the check means: `reply` is how the call went, and
/// inside it whether the reply could be read. Allowed exactly when polkit said
/// so in a reply that could be read.
pub fn after_check(reply: Result<Result<bool, BusError>, BusError>) -> (r: Authorization)
    ensures
        r is Allowed <==> (reply matches Ok(Ok(true))),
        match reply {
            Ok(Ok(false)) => r.refuses(REASON_DENIED@),
            Ok(Ok(true)) => true,
            Ok(Err(e)) => r.refuses(
                reason_for(REASON_MALFORMED@, e.failure) + ": "@ + e.text@,
            ),
            Err(e) => r.refuses(reason_for(REASON_NO_AUTHORITY@, e.failure) + ": "@ + e.text@),
        },
        verdict(r, reply),
{
    match reply {
        Ok(Ok(is_authorized)) => from_check_reply(is_authorized),
        Ok(Err(e)) => refusal(REASON_MALFORMED, &e),
        Err(e) => refusal(REASON_NO_AUTHORITY, &e),
    }
}

/// A bus that did not answer in time, or not readably, is named as such whatever was
/// being asked; every other failure is named by what was being asked.
pub proof fn a_failure_is_named_by_what_it_was(stage: Seq<char>, failure: BusFailure)
    ensures
        failure is TimedOut ==> reason_for(stage, failure) == "polkit did not answer in time"@,
        failure is Unreadable ==> reason_for(stage, failure) == "polkit reply was malformed"@,
        failure is Method || failure is Other ==> reason_for(stage, failure) == stage,
{
}

/// An error has a name only where the other side answered with one.
pub proof fn only_an_answer_has_a_name(err: BusError, name: Seq<char>)
    ensures
        names(err, name) <==> (err.failure matches BusFailure::Method(n) && n@ == name),
{
}

// ---- what holds of answers -----------------------------------------------

/// An action is allowed exactly where polkit said yes in a reply that could be read. A
/// plain no is a denial, and everything else a refusal that is no denial.
pub proof fn only_a_yes_allows(r: Authorization, reply: Result<Result<bool, BusError>, BusError>)
    requires
        verdict(r, reply),
    ensures
        r is Allowed <==> reply == Ok::<Result<bool, BusError>, BusError>(
            Ok::<bool, BusError>(true),
        ),
        reply == Ok::<Result<bool, BusError>, BusError>(Ok::<bool, BusError>(false)) ==> (
        r matches Authorization::Refused(s) && s@ == "polkit denied the action"@),
        reply matches Ok(Err(e)) ==> (r matches Authorization::Refused(s) && (e.failure is Other ==> s@
            == "polkit reply was malformed"@ + ": "@ + e.text@)),
        reply matches Err(e) ==> (r matches Authorization::Refused(s) && (e.failure is Other ==> s@
            == "polkit authority did not answer"@ + ": "@ + e.text@) && (e.failure is TimedOut ==> s@
            == "polkit did not answer in time"@ + ": "@ + e.text@)),
{
    if let Ok(Ok(b)) = reply {
        assert(b == true || b == false);
    }
}

/// Only a session that logind says the caller owns goes further.
pub proof fn only_the_owner_goes_on(
    r: SubjectStep,
    path: String,
    uid: u32,
    owner: Result<u32, BusError>,
)
    requires
        owned_step(r, path, uid, owner),
    ensures
        r is Refuse <==> owner != Ok::<u32, BusError>(uid),
        owner == Ok::<u32, BusError>(uid) ==> r == SubjectStep::AskId(path),
        r matches SubjectStep::Refuse(a) ==> !(a is Allowed),
{
}

/// A process without a session of its own is looked for on its user's display, a session
/// that was found is asked for its owner, and any other failure refuses.
pub proof fn a_process_without_a_session_is_looked_for(
    r: SubjectStep,
    found: Result<String, BusError>,
)
    requires
        found_step(r, found),
    ensures
        found matches Ok(path) ==> r == SubjectStep::AskOwner(path),
        r is AskDisplay <==> (found matches Err(e) && (e.failure matches BusFailure::Method(n) && n@
            == "org.freedesktop.login1.NoSessionForPID"@)),
        r matches SubjectStep::Refuse(a) ==> found is Err && !(a is Allowed),
        !(r is AskId),
{
}

/// A user's display session is the one that logind names, and there is none where the
/// name is empty or the property is no pair.
pub proof fn a_display_session_has_a_name(r: Result<String, Authorization>, display: DisplayField)
    requires
        display_step(r, display),
    ensures
        r is Ok <==> (display matches Ok(Some(id)) && id@.len() > 0),
        display matches Ok(Some(id)) ==> (id@.len() > 0 ==> r == Ok::<String, Authorization>(id)),
        r matches Err(a) ==> !(a is Allowed),
{
}

/// The daemon asks for no more than polkit's own wait, a little short of two minutes,
/// and lets it prompt.
pub proof fn how_polkit_is_asked()
    ensures
        METHOD_TIMEOUT_SECS == 110,
        ALLOW_USER_INTERACTION == 1,
        ACTION_DISARM@ == "net.acidnetworks.plugkill.disarm"@,
        ACTION_LEARN@ == "net.acidnetworks.plugkill.learn"@,
        ACTION_RELOAD@ == "net.acidnetworks.plugkill.reload"@,
        ACTION_ALLOW@ == "net.acidnetworks.plugkill.allow"@,
{
}

} // verus!
