//! Commands the tray and the dashboard send to the daemon.

use vstd::prelude::*;

use crate::ipc::{
    command_of, gated, is_gated_command, refusal_of, rejection, reply_error, stamp,
    stamps_of_kinds, wait_for, Request, AUTH_READ_TIMEOUT_SECS, AUTH_REQUIRED_ERROR,
};
use crate::json::{lookup_agrees, signs_ok, Json, JsonModel};
use crate::order::precedes;
use crate::text::{cat2, cat3, chars, contains_str, holds, lower, same, to_lower};

verus! {

/// Disarm durations offered everywhere: seconds, long label, short label.
pub const DISARM_PRESETS: [(u64, &'static str, &'static str); 5] = [
    (60, "1 minute", "1m"),
    (300, "5 minutes", "5m"),
    (900, "15 minutes", "15m"),
    (1800, "30 minutes", "30m"),
    (3600, "1 hour", "1h"),
];

/// The longest disarm the daemon accepts; it refuses anything above this.
pub const MAX_DISARM_SECS: u64 = 3600;

/// Every preset is a disarm the daemon takes, and longer than the one before it.
pub proof fn presets_are_in_range(i: int)
    requires
        0 <= i < DISARM_PRESETS@.len(),
    ensures
        0 < DISARM_PRESETS@[i].0 <= MAX_DISARM_SECS,
        i > 0 ==> DISARM_PRESETS@[i - 1].0 < DISARM_PRESETS@[i].0,
{
}

#[derive(Debug, Clone, Copy, PartialEq, Eq)]
pub enum Command {
    Arm,
    Disarm(u64),
    Learn,
    Enforce,
    Reload,
    /// Open a pairing window, or close an open one with 0 seconds.
    Pair { window_secs: u64, for_secs: Option<u64> },
    /// Allow the device behind the most recent violation.
    AllowLast { for_secs: Option<u64> },
    /// Drop one allowance. The selector is interned rather than owned, so the
    /// command stays `Copy` for the tray and the menu; see `Pool`.
    Revoke(&'static str),
    RevokeAll,
}

// ---- interned selectors --------------------------------------------------

/// `String::leak`: the same characters, for as long as the program runs.
#[verifier::external_body]
fn leak(s: String) -> (r: &'static str)
    ensures
        r@ == s@,
{
    s.leak()
}

/// The selectors that revoke commands carry. `Command` is `Copy`, so a string
/// in it has to be `'static`. The allowance table holds a handful of short
/// selectors and the same one is often clicked twice, so they are interned
/// once here rather than leaked once per click.
#[derive(Debug)]
pub struct Pool {
    strings: Vec<&'static str>,
}

impl View for Pool {
    type V = Seq<&'static str>;

    closed spec fn view(&self) -> Seq<&'static str> {
        self.strings@
    }
}

/// Where a selector stands in the pool, at or after position `i`.
pub open spec fn interned(pool: Seq<&'static str>, s: Seq<char>, i: int) -> Option<&'static str>
    decreases pool.len() - i,
{
    if i >= pool.len() || i < 0 {
        None
    } else if pool[i]@ == s {
        Some(pool[i])
    } else {
        interned(pool, s, i + 1)
    }
}

impl Pool {
    /// An empty pool.
    pub fn new() -> (r: Pool)
        ensures
            r@.len() == 0,
    {
        Pool { strings: Vec::new() }
    }

    /// A selector the revoke command can carry: the one in the pool where it
    /// holds it already, else a new one that goes in.
    pub fn intern(&mut self, selector: &str) -> (r: &'static str)
        ensures
            r@ == selector@,
            match interned(old(self)@, selector@, 0) {
                Some(s) => r == s && final(self)@ == old(self)@,
                None => final(self)@ == old(self)@.push(r),
            },
    {
        let mut i: usize = 0;
        while i < self.strings.len()
            invariant
                i <= self.strings@.len(),
                *self == *old(self),
                interned(self@, selector@, 0) == interned(self@, selector@, i as int),
            decreases self.strings@.len() - i,
        {
            if same(self.strings[i], selector) {
                return self.strings[i];
            }
            i += 1;
        }
        let leaked = leak(selector.to_owned());
        self.strings.push(leaked);
        leaked
    }
}

/// A selector that was interned once is found again, however the pool has grown
/// since.
pub proof fn interning_is_stable(pool: Seq<&'static str>, s: Seq<char>, i: int, more: &'static str)
    requires
        0 <= i,
        interned(pool, s, i) is Some,
    ensures
        interned(pool.push(more), s, i) == interned(pool, s, i),
    decreases pool.len() - i,
{
    if i < pool.len() && pool[i]@ != s {
        assert(pool.push(more)[i] == pool[i]);
        interning_is_stable(pool, s, i + 1, more);
    }
}

/// A selector that goes in is the one found afterwards.
pub proof fn interning_finds_what_it_put_in(pool: Seq<&'static str>, s: Seq<char>, i: int, r:
    &'static str)
    requires
        0 <= i <= pool.len(),
        interned(pool, s, i) is None,
        r@ == s,
    ensures
        interned(pool.push(r), s, i) == Some(r),
    decreases pool.len() - i,
{
    if i < pool.len() {
        assert(pool.push(r)[i] == pool[i]);
        interning_finds_what_it_put_in(pool, s, i + 1, r);
    }
}

// ---- requests ------------------------------------------------------------

impl Command {
    /// The command's word on the socket.
    pub open spec fn word(self) -> Seq<char> {
        match self {
            Command::Arm => "arm"@,
            Command::Disarm(_) => "disarm"@,
            Command::Learn => "learn"@,
            Command::Enforce => "enforce"@,
            Command::Reload => "reload"@,
            Command::Pair { window_secs, for_secs } => "pair"@,
            Command::AllowLast { for_secs } => "allow_last"@,
            Command::Revoke(_) => "revoke"@,
            Command::RevokeAll => "revoke_all"@,
        }
    }

    /// The request the control socket expects, keys in ascending order.
    /// `for_secs` is null when no expiry was asked for, which the daemon reads
    /// as the default: an allowance that lasts this uptime.
    pub open spec fn request_model(self) -> JsonModel {
        let head = seq![("command"@, JsonModel::Str(self.word()))];
        JsonModel::Object(
            match self {
                Command::Disarm(secs) => head.push(("timeout_secs"@, JsonModel::Uint(secs))),
                Command::Pair { window_secs, for_secs } => head.push(
                    ("for_secs"@, number_or_null(for_secs)),
                ).push(("window_secs"@, JsonModel::Uint(window_secs))),
                Command::AllowLast { for_secs } => head.push(
                    ("for_secs"@, number_or_null(for_secs)),
                ),
                Command::Revoke(selector) => head.push(
                    ("selector"@, JsonModel::Str(selector@)),
                ),
                _ => head,
            },
        )
    }

    /// The command's word on the socket.
    fn command_word(self) -> (r: &'static str)
        ensures
            r@ == self.word(),
    {
        match self {
            Command::Arm => "arm",
            Command::Disarm(_) => "disarm",
            Command::Learn => "learn",
            Command::Enforce => "enforce",
            Command::Reload => "reload",
            Command::Pair { window_secs: _, for_secs: _ } => "pair",
            Command::AllowLast { for_secs: _ } => "allow_last",
            Command::Revoke(_) => "revoke",
            Command::RevokeAll => "revoke_all",
        }
    }

    /// The request the control socket expects.
    pub fn request(self) -> (r: Json)
        ensures
            r.model() == self.request_model(),
            r.text_at("command"@) == Some(self.word()),
            self matches Command::Pair { window_secs, for_secs } ==> r.uint_at("window_secs"@)
                == Some(window_secs),
            r.integral(),
            r.ordered(),
            signs_ok(r),
    {
        let mut e: Vec<(String, Json)> = Vec::new();
        e.push(("command".to_owned(), Json::Str(self.command_word().to_owned())));
        match self {
            Command::Disarm(secs) => {
                e.push(("timeout_secs".to_owned(), Json::Uint(secs)));
            },
            Command::Pair { window_secs, for_secs } => {
                e.push(("for_secs".to_owned(), uint_or_null(for_secs)));
                e.push(("window_secs".to_owned(), Json::Uint(window_secs)));
            },
            Command::AllowLast { for_secs } => {
                e.push(("for_secs".to_owned(), uint_or_null(for_secs)));
            },
            Command::Revoke(selector) => {
                e.push(("selector".to_owned(), Json::Str(selector.to_owned())));
            },
            _ => {},
        }
        let r = Json::Object(e);
        proof {
            keys_ascend();
            reveal_with_fuel(crate::json::entry, 4);
            assert(e@[0].1.model() == JsonModel::Str(self.word()));
            if e@.len() > 1 {
                assert(e@[1].1.model() == self.request_model()->Object_0[1].1);
            }
            if e@.len() > 2 {
                assert(e@[2].1.model() == self.request_model()->Object_0[2].1);
            }
            assert(r.model()->Object_0 =~= self.request_model()->Object_0);
            assert forall|i: int| 0 <= i < e@.len() implies (#[trigger] e@[i]).1.integral()
                && e@[i].1.ordered() && signs_ok(e@[i].1) by {}
            assert forall|i: int, j: int| 0 <= i < j < e@.len() implies precedes(
                (#[trigger] e@[i]).0@,
                (#[trigger] e@[j]).0@,
            ) by {}
            if self is Pair {
                assert(e@[0].0@ != "window_secs"@ && e@[1].0@ != "window_secs"@);
            }
        }
        r
    }

    /// Whether this one may wait on a person.
    pub open spec fn waits(self) -> bool {
        gated(self.word()) && !(self matches Command::Pair { window_secs, for_secs }
            && window_secs == 0)
    }

    /// Whether the daemon may put this one behind a password prompt. Status
    /// carries no `require_auth`, so this only says the command can wait on a
    /// person, not that it will. Closing a pairing window removes a permission
    /// the way revoke does, and the daemon does not gate it.
    pub fn is_gated(self) -> (r: bool)
        ensures
            r == self.waits(),
    {
        if let Command::Pair { window_secs, for_secs: _ } = self {
            if window_secs == 0 {
                return false;
            }
        }
        is_gated_command(self.command_word())
    }

    /// The command as a person reads it.
    pub open spec fn title(self) -> Seq<char> {
        match self {
            Command::Arm => "Arm"@,
            Command::Disarm(_) => "Disarm"@,
            Command::Learn => "Learn mode"@,
            Command::Enforce => "Enforce mode"@,
            Command::Reload => "Reload"@,
            Command::Pair { window_secs, for_secs } => if window_secs == 0 {
                "Close pairing"@
            } else {
                "Pair"@
            },
            Command::AllowLast { for_secs } => "Allow last"@,
            Command::Revoke(_) => "Revoke"@,
            Command::RevokeAll => "Revoke all"@,
        }
    }

    /// The command as a person reads it, for a message about it.
    pub fn name(self) -> (r: &'static str)
        ensures
            r@ == self.title(),
    {
        match self {
            Command::Arm => "Arm",
            Command::Disarm(_) => "Disarm",
            Command::Learn => "Learn mode",
            Command::Enforce => "Enforce mode",
            Command::Reload => "Reload",
            Command::Pair { window_secs, for_secs: _ } => if window_secs == 0 {
                "Close pairing"
            } else {
                "Pair"
            },
            Command::AllowLast { for_secs: _ } => "Allow last",
            Command::Revoke(_) => "Revoke",
            Command::RevokeAll => "Revoke all",
        }
    }
}

/// A number that may be missing, null where it is.
pub open spec fn number_or_null(n: Option<u64>) -> JsonModel {
    match n {
        Some(n) => JsonModel::Uint(n),
        None => JsonModel::Null,
    }
}

fn uint_or_null(n: Option<u64>) -> (r: Json)
    ensures
        r.model() == number_or_null(n),
        r is Uint || r is Null,
{
    match n {
        Some(n) => Json::Uint(n),
        None => Json::Null,
    }
}

/// The keys of a request in ascending order.
proof fn keys_ascend()
    ensures
        precedes("command"@, "for_secs"@),
        precedes("command"@, "selector"@),
        precedes("command"@, "timeout_secs"@),
        precedes("command"@, "window_secs"@),
        precedes("for_secs"@, "window_secs"@),
        "command"@ != "window_secs"@,
        "for_secs"@ != "window_secs"@,
{
    reveal_strlit("command");
    reveal_strlit("for_secs");
    reveal_strlit("selector");
    reveal_strlit("timeout_secs");
    reveal_strlit("window_secs");
    assert("command"@[0] == 'c' && "for_secs"@[0] == 'f' && "selector"@[0] == 's');
    assert("timeout_secs"@[0] == 't' && "window_secs"@[0] == 'w');
}

impl Command {
    /// Whether a request asks for this command.
    pub open spec fn is_asked(self, q: Request) -> bool {
        match self {
            Command::Arm => q is Arm,
            Command::Disarm(secs) => q == Request::Disarm { timeout_secs: secs },
            Command::Learn => q is Learn,
            Command::Enforce => q is Enforce,
            Command::Reload => q is Reload,
            Command::Pair { window_secs, for_secs } => q == Request::Pair { window_secs, for_secs },
            Command::AllowLast { for_secs } => q == Request::AllowLast { for_secs },
            Command::Revoke(s) => q matches Request::Revoke { selector } && selector@ == s@,
            Command::RevokeAll => q is RevokeAll,
        }
    }
}

/// Whatever is asked, the daemon reads as just that: the value that a command makes
/// is a request, and it asks for the command.
pub proof fn the_daemon_reads_what_was_asked(c: Command, j: Json)
    requires
        j.model() == c.request_model(),
    ensures
        refusal_of(j) is None,
        forall|q: Request| #[trigger] q.is_in(j) ==> c.is_asked(q),
{
    keys_ascend();
    stamps_of_kinds();
    reveal_strlit("command");
    reveal_strlit("for_secs");
    reveal_strlit("selector");
    reveal_strlit("timeout_secs");
    assert("command"@[0] == 'c' && "for_secs"@[0] == 'f');
    assert("selector"@[0] == 's' && "timeout_secs"@[0] == 't');
    reveal_with_fuel(crate::json::model_entry, 4);
    lookup_agrees(j, "command"@);
    lookup_agrees(j, "for_secs"@);
    lookup_agrees(j, "selector"@);
    lookup_agrees(j, "timeout_secs"@);
    lookup_agrees(j, "window_secs"@);
    let e = j.model()->Object_0;
    assert(e[0] == ("command"@, JsonModel::Str(c.word())));
    assert(command_of(j) == Some(c.word()));
    assert forall|q: Request| #[trigger] q.is_in(j) implies c.is_asked(q) by {
        assert(stamp(q.kind()) == stamp(c.word()));
    }
}

/// The client waits for a person exactly on the commands that can wait on one.
pub proof fn the_wait_follows_the_gate(c: Command, request: Json)
    requires
        request.text_at("command"@) == Some(c.word()),
        c matches Command::Pair { window_secs, for_secs } ==> request.uint_at("window_secs"@)
            == Some(window_secs),
    ensures
        (wait_for(request) == AUTH_READ_TIMEOUT_SECS) == c.waits(),
{
    reveal_strlit("pair");
    reveal_strlit("disarm");
    reveal_strlit("arm");
    reveal_strlit("learn");
    reveal_strlit("enforce");
    reveal_strlit("reload");
    reveal_strlit("allow_last");
    reveal_strlit("revoke");
    reveal_strlit("revoke_all");
    assert(c is Pair || c.word().len() != "pair"@.len());
}

/// Whether a refusal asks for authentication, however the daemon words it. Lowering
/// the ASCII letters is enough: the only other letter that lowers to one of the
/// phrase's own, a capital I with a dot, keeps the dot as a character of its own.
pub open spec fn asks_for_password(error: Seq<char>) -> bool {
    holds(lower(error), AUTH_REQUIRED_ERROR@)
}

/// The one line the tray menu and the dashboard show when a command did not
/// run. A daemon that wants a password is named as that and not as a failure;
/// the state on screen stays whatever the daemon reports, which after a
/// refused disarm is still armed.
///
/// The match is loose on purpose: the daemon words the refusal, the clients
/// only have to recognise it.
pub fn notice(command: Command, error: &str) -> (r: String)
    ensures
        r@ == if asks_for_password(error@) {
            command.title() + " refused: authentication required"@
        } else {
            command.title() + " failed: "@ + error@
        },
{
    let all = chars(error);
    let low = to_lower(all.as_slice());
    if contains_str(low.as_str(), AUTH_REQUIRED_ERROR) {
        cat2(command.name(), " refused: authentication required")
    } else {
        cat3(command.name(), " failed: ", error)
    }
}

/// What is shown before a gated command is sent. It can sit on a password prompt
/// for two minutes, and everything clicked after it waits behind it; the result
/// overwrites this. Any other command says nothing.
pub fn waiting(command: Command) -> (r: Option<String>)
    ensures
        match r {
            Some(s) => command.waits() && s@ == command.title() + ": waiting for the daemon"@,
            None => !command.waits(),
        },
{
    if command.is_gated() {
        Some(cat2(command.name(), ": waiting for the daemon"))
    } else {
        None
    }
}

/// What the daemon's reply to a command means: it ran, or why it did not.
pub fn sent(reply: Result<Json, String>) -> (r: Result<(), String>)
    ensures
        match reply {
            Err(e) => r == Err::<(), String>(e),
            Ok(j) => match rejection(j) {
                None => r is Ok,
                Some(e) => r matches Err(s) && s@ == e,
            },
        },
{
    match reply {
        Err(e) => Err(e),
        Ok(j) => match reply_error(&j) {
            None => Ok(()),
            Some(e) => Err(e),
        },
    }
}

/// A person is asked to authenticate by the commands that are gated: disarming, learning,
/// reloading, pairing and allowing the last violation, but not by closing a window.
pub proof fn a_command_waits_where_it_is_gated(c: Command)
    ensures
        c.waits() <==> match c {
            Command::Disarm(_) => true,
            Command::Learn => true,
            Command::Reload => true,
            Command::AllowLast { for_secs } => true,
            Command::Pair { window_secs, for_secs } => window_secs != 0,
            _ => false,
        },
{
    crate::ipc::gated_ones(c.word());
    crate::ipc::stamps_of_kinds();
    assert(stamp("disarm"@) == (6nat, 'd', 's') && stamp("learn"@) == (5nat, 'l', 'a') && stamp(
        "reload"@,
    ) == (6nat, 'r', 'l') && stamp("pair"@) == (4nat, 'p', 'i') && stamp("allow_last"@) == (
        10nat,
        'a',
        'l',
    ));
    assert(stamp("arm"@) == (3nat, 'a', 'm') && stamp("enforce"@) == (7nat, 'e', 'f') && stamp(
        "revoke"@,
    ) == (6nat, 'r', 'v') && stamp("revoke_all"@) == (10nat, 'r', 'v'));
}

/// The presets of a disarm, from one minute to an hour.
pub proof fn a_disarm_is_offered_for(i: int)
    ensures
        DISARM_PRESETS@.len() == 5,
        DISARM_PRESETS@[0].0 == 60,
        DISARM_PRESETS@[4].0 == 3600,
        MAX_DISARM_SECS == 3600,
{
}

/// An error asks for a password exactly where it says so, in whatever letters.
pub proof fn an_error_asks_for_a_password_exactly_when(error: Seq<char>)
    ensures
        asks_for_password(error) <==> holds(lower(error), "authentication required"@),
{
}

/// Each command is titled for what it does, and pairing for nought seconds closes the
/// window.
pub proof fn a_command_is_titled_for_what_it_does(secs: u64, n: Option<u64>)
    ensures
        Command::Arm.title() == "Arm"@ && Command::Disarm(secs).title() == "Disarm"@,
        Command::Learn.title() == "Learn mode"@ && Command::Enforce.title() == "Enforce mode"@,
        (Command::Pair { window_secs: 0, for_secs: n }).title() == "Close pairing"@,
        secs > 0 ==> (Command::Pair { window_secs: secs, for_secs: n }).title() == "Pair"@,
        Command::RevokeAll.title() == "Revoke all"@ && Command::Reload.title() == "Reload"@,
        (Command::AllowLast { for_secs: n }).title() == "Allow last"@,
{
}

} // verus!
