//! Watching the local daemon for violations.

use vstd::prelude::*;

use crate::json::Json;
use crate::text::same;

verus! {

/// The daemon's socket, and how many violations it had last time.
#[derive(Debug, PartialEq, Eq)]
pub struct Watcher {
    pub socket_path: String,
    pub last_violations: Option<u64>,
}

/// The data of a reply that says the request went well.
pub open spec fn answered(reply: Option<Json>) -> Option<Json> {
    match reply {
        Some(j) => if j.truth_at("ok"@) == Some(true) {
            j.at("data"@)
        } else {
            None
        },
        None => None,
    }
}

/// How many violations a status counts.
pub open spec fn counted(data: Json) -> u64 {
    match data.uint_at("violations_logged"@) {
        Some(n) => n,
        None => 0,
    }
}

/// Whether a status says that violations kill.
pub open spec fn enforcing(data: Json) -> bool {
    data.truth_at("armed"@) == Some(true) && data.text_at("mode"@) == Some("enforce"@)
}

/// A reply that may be missing.
pub open spec fn seen_reply(reply: Option<&Json>) -> Option<Json> {
    match reply {
        Some(j) => Some(*j),
        None => None,
    }
}

/// What a reply makes of the count so far: what is reported, and the count to
/// hold the next reply against.
pub open spec fn polled(last: Option<u64>, reply: Option<Json>) -> (Option<u64>, Option<u64>) {
    match answered(reply) {
        None => (None, last),
        Some(data) => (
            if enforcing(data) && (last matches Some(prev) && counted(data) > prev) {
                Some(counted(data))
            } else {
                None
            },
            Some(counted(data)),
        ),
    }
}

impl Watcher {
    /// Watch the daemon behind a socket.
    pub fn new(socket_path: &str) -> (r: Watcher)
        ensures
            r.socket_path@ == socket_path@,
            r.last_violations is None,
    {
        Watcher { socket_path: socket_path.to_owned(), last_violations: None }
    }

    /// Take in the daemon's reply to a status request, `None` where it did not
    /// answer. Returns the count on a new violation in enforce mode: the first
    /// answer only sets the baseline.
    pub fn poll(&mut self, reply: Option<&Json>) -> (r: Option<u64>)
        ensures
            final(self).socket_path == old(self).socket_path,
            (r, final(self).last_violations) == polled(
                old(self).last_violations,
                seen_reply(reply),
            ),
    {
        let reply = match reply {
            Some(j) => j,
            None => {
                return None;
            },
        };
        let mut ok = false;
        if let Some(b) = reply.get_bool("ok") {
            ok = b;
        }
        if !ok {
            return None;
        }
        let data = match reply.get("data") {
            Some(d) => d,
            None => {
                return None;
            },
        };
        let mut armed = false;
        if let Some(b) = data.get_bool("armed") {
            armed = b;
        }
        let enforce = match data.get_str("mode") {
            Some(m) => same(m, "enforce"),
            None => false,
        };
        let violations: u64 = match data.get_u64("violations_logged") {
            Some(n) => n,
            None => 0,
        };
        let mut result: Option<u64> = None;
        if armed && enforce {
            if let Some(prev) = self.last_violations {
                if violations > prev {
                    result = Some(violations);
                }
            }
        }
        self.last_violations = Some(violations);
        result
    }
}

/// A violation is reported once: the same answer again reports nothing.
pub proof fn a_violation_is_reported_once(last: Option<u64>, reply: Option<Json>)
    ensures
        polled(polled(last, reply).1, reply).0 is None,
{
}

/// The first answer only sets the baseline, whatever it counts.
pub proof fn the_first_answer_reports_nothing(reply: Option<Json>)
    ensures
        polled(None, reply).0 is None,
{
}

/// What was counted while the daemon did not enforce is never reported later: an
/// enforcing answer with the same count reports nothing.
pub proof fn learned_violations_stay_unreported(
    last: Option<u64>,
    earlier: Option<Json>,
    later: Option<Json>,
)
    requires
        answered(earlier) is Some,
        answered(later) matches Some(d) ==> counted(d) <= counted(answered(earlier)->0),
    ensures
        polled(polled(last, earlier).1, later).0 is None,
{
}

/// A new violation is reported exactly where the daemon answered, is armed and
/// enforces, and counts more than last time; what is reported is its count. Whatever it
/// answered, its count is what the next is held against.
pub proof fn a_new_violation_is_reported(last: Option<u64>, j: Json, data: Json)
    requires
        j.at("data"@) == Some(data),
    ensures
        j.at("ok"@) == Some(Json::Bool(true)) ==> {
            let n = match data.at("violations_logged"@) {
                Some(Json::Uint(n)) => n,
                _ => 0u64,
            };
            &&& polled(last, Some(j)).1 == Some(n)
            &&& polled(last, Some(j)).0 is Some <==> {
                &&& data.at("armed"@) == Some(Json::Bool(true))
                &&& data.at("mode"@) matches Some(Json::Str(s)) && s@ == "enforce"@
                &&& last matches Some(prev) && n > prev
            }
            &&& polled(last, Some(j)).0 matches Some(r) ==> r == n
        },
        j.at("ok"@) != Some(Json::Bool(true)) ==> polled(last, Some(j)) == (None::<u64>, last),
{
}

/// A daemon that does not answer, or answers without data, changes nothing.
pub proof fn silence_changes_nothing(last: Option<u64>, j: Json)
    ensures
        polled(last, None) == (None::<u64>, last),
        j.at("data"@) is None ==> polled(last, Some(j)) == (None::<u64>, last),
{
}

} // verus!
