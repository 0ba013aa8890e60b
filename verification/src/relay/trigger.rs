//! Making the local daemon kill.

use vstd::prelude::*;

use crate::ipc::{
    command_of, refusal_of, rejection, reply_error, stamp, stamps_of_kinds, Request,
};
use crate::json::{signs_ok, Json};
use crate::order::precedes;
use crate::text::cat2;

verus! {

/// What the daemon's answer to a `kill` command means.
#[derive(Debug, PartialEq, Eq)]
pub enum Outcome {
    /// The daemon accepted the command and runs its configured kill sequence.
    Accepted,
    /// The daemon is unreachable or refused. The string is the log reason.
    Poweroff(String),
}

/// The request that makes the local daemon kill.
pub fn kill_request(reason: &str) -> (r: Json)
    ensures
        r matches Json::Object(e) && e@.len() == 2 && e@[0].0@ == "command"@ && e@[1].0@
            == "reason"@,
        r.text_at("command"@) == Some("kill"@),
        r.text_at("reason"@) == Some(reason@),
        r.integral(),
        r.ordered(),
        signs_ok(r),
{
    let mut e: Vec<(String, Json)> = Vec::new();
    e.push(("command".to_owned(), Json::Str("kill".to_owned())));
    e.push(("reason".to_owned(), Json::Str(reason.to_owned())));
    let r = Json::Object(e);
    proof {
        reveal_strlit("command");
        reveal_strlit("reason");
        assert("command"@[0] == 'c' && "reason"@[0] == 'r');
        assert(precedes("command"@, "reason"@));
        assert("command"@.len() != "reason"@.len());
        reveal_with_fuel(crate::json::entry, 3);
        assert(r->Object_0@[0].1.integral() && r->Object_0@[1].1.integral());
        assert(r->Object_0@[0].1.ordered() && r->Object_0@[1].1.ordered());
        assert(signs_ok(r->Object_0@[0].1) && signs_ok(r->Object_0@[1].1));
    }
    r
}

/// The daemon reads the request as a kill, for the reason that was given.
pub proof fn the_daemon_reads_a_kill(reason: Seq<char>, j: Json)
    requires
        j is Object,
        j.text_at("command"@) == Some("kill"@),
        j.text_at("reason"@) == Some(reason),
    ensures
        refusal_of(j) is None,
        forall|q: Request| #[trigger]
            q.is_in(j) ==> (q matches Request::Kill { reason: r } && r@ == reason),
{
    stamps_of_kinds();
    assert(command_of(j) == Some("kill"@));
    assert(stamp("kill"@) == (4nat, 'k', 'l'));
    assert forall|q: Request| #[trigger] q.is_in(j) implies (q matches Request::Kill { reason: r }
        && r@ == reason) by {
        assert(stamp(q.kind()) == stamp("kill"@));
    }
}

/// Map a `kill` response to an outcome. If the daemon is not running or will
/// not act, there is nothing to shred with and powering off is still the right
/// outcome; a response that does not read as success is not success.
pub fn classify(resp: Result<Json, String>) -> (r: Outcome)
    ensures
        r is Accepted <==> (resp matches Ok(v) && v.truth_at("ok"@) == Some(true)),
        match resp {
            Err(e) => r matches Outcome::Poweroff(why) && why@ == "failed to send kill command: "@
                + e@,
            Ok(v) => match rejection(v) {
                None => r is Accepted,
                Some(err) => r matches Outcome::Poweroff(why) && why@
                    == "daemon refused the kill command: "@ + err,
            },
        },
{
    match resp {
        Err(e) => Outcome::Poweroff(cat2("failed to send kill command: ", e.as_str())),
        Ok(v) => match reply_error(&v) {
            None => Outcome::Accepted,
            Some(err) => Outcome::Poweroff(
                cat2("daemon refused the kill command: ", err.as_str()),
            ),
        },
    }
}

} // verus!
