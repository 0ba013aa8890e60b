//! The control socket's protocol: requests, replies, and how a reply reads to
//! a person.

use vstd::prelude::*;

use crate::decode::{
    field, field_of, held, is_record, maybe_number, read_maybe_number, record, told,
};
use crate::json::{
    self, from_value, json_compact, json_pretty, json_read, parse_value, pretty_text, signs_ok,
    value_get, Json, JsonModel,
};
use crate::number::{
    dec, dec_is_unsigned, dec_reads_back, decimal, digit_value, read, unsigned,
};
use crate::text::{
    begins, cat2, cat3, cat4, cat5, chars, is_space, join, joined, part, same, trim, trimmed, views,
};

verus! {

/// Default control-socket path on Linux: `/run`, the systemd RuntimeDirectory.
pub const DEFAULT_SOCKET_PATH: &'static str = "/run/plugkill/plugkill.sock";

/// Default control-socket path on FreeBSD and others, which have no `/run`.
pub const VAR_SOCKET_PATH: &'static str = "/var/run/plugkill/plugkill.sock";

/// The commands the daemon can put behind polkit when `require_auth` is set.
/// Here with the protocol so the daemon and the clients cannot drift apart.
pub const GATED_COMMANDS: [&'static str; 5] = ["disarm", "learn", "reload", "pair", "allow_last"];

/// What the daemon answers when a gated command was not authorized. Clients
/// match on it to say "authentication required" rather than "failed".
pub const AUTH_REQUIRED_ERROR: &'static str = "authentication required";

/// How many seconds a client waits for an answer. A gated command does not
/// return until the person has answered the polkit prompt, or it has timed out.
pub const READ_TIMEOUT_SECS: u64 = 5;

pub const AUTH_READ_TIMEOUT_SECS: u64 = 120;

/// The watched buses, in one place: the key the daemon reports each bus under
/// in a status response, and the name a person sees. The CLI status output and
/// the tray menu both read this list, so a bus cannot end up named two ways, and
/// a bus added here cannot be silently missed by one of them. The order is the
/// order everything prints in.
pub const BUSES: [(&'static str, &'static str); 8] = [
    ("usb_watching", "USB"),
    ("thunderbolt_watching", "Thunderbolt"),
    ("sdcard_watching", "SD card"),
    ("power_watching", "Power supply"),
    ("network_watching", "Network"),
    ("lid_watching", "Lid"),
    ("pci_watching", "PCI"),
    ("display_watching", "Display"),
];

/// Whether a command is one of the gated ones.
pub open spec fn gated(command: Seq<char>) -> bool {
    exists|i: int| 0 <= i < 5 && (#[trigger] GATED_COMMANDS@[i])@ == command
}

/// Whether a command is one of the gated ones.
pub fn is_gated_command(command: &str) -> (r: bool)
    ensures
        r == gated(command@),
{
    let mut i: usize = 0;
    while i < 5
        invariant
            i <= 5,
            forall|k: int| 0 <= k < i ==> (#[trigger] GATED_COMMANDS@[k])@ != command@,
        decreases 5 - i,
    {
        if same(GATED_COMMANDS[i], command) {
            return true;
        }
        i += 1;
    }
    false
}

/// The client's wait for an answer to a request. Closing a pairing window is
/// the one "pair" the daemon never gates: it takes a permission away.
pub open spec fn wait_for(request: Json) -> u64 {
    match request.text_at("command"@) {
        Some(c) => if c == "pair"@ && request.uint_at("window_secs"@) == Some(0u64) {
            READ_TIMEOUT_SECS
        } else if gated(c) {
            AUTH_READ_TIMEOUT_SECS
        } else {
            READ_TIMEOUT_SECS
        },
        None => READ_TIMEOUT_SECS,
    }
}

/// How many seconds to wait, read off the request itself, not passed in: no
/// caller can pick the wrong one, and a command added to `GATED_COMMANDS` gets
/// the long wait for free.
pub fn read_timeout(request: &Json) -> (r: u64)
    ensures
        r == wait_for(*request),
{
    match request.get_str("command") {
        Some(command) => {
            if same(command, "pair") {
                if let Some(n) = request.get_u64("window_secs") {
                    if n == 0 {
                        return READ_TIMEOUT_SECS;
                    }
                }
            }
            if is_gated_command(command) {
                AUTH_READ_TIMEOUT_SECS
            } else {
                READ_TIMEOUT_SECS
            }
        },
        None => READ_TIMEOUT_SECS,
    }
}

/// The daemon gives a polkit prompt up before the client gives the daemon up,
/// so an unanswered prompt reaches the person as a refusal.
pub proof fn the_daemon_gives_up_first(request: Json)
    requires
        request.text_at("command"@) matches Some(c) && gated(c) && (c == "pair"@
            ==> request.uint_at("window_secs"@) != Some(0u64)),
    ensures
        crate::authz::METHOD_TIMEOUT_SECS < wait_for(request),
{
}

/// JSON request from a client.
#[derive(Debug, Clone, PartialEq, Eq)]
pub enum Request {
    Status,
    /// What each bus currently sees, one short line per device.
    Devices,
    /// The violations the daemon remembers, newest first.
    Violations,
    Disarm { timeout_secs: u64 },
    Arm,
    Learn,
    Enforce,
    Reload,
    /// Open a pairing window: the next new device on a watched bus is recorded
    /// as an allowance instead of firing the kill sequence. `window_secs` 0
    /// closes an open window.
    Pair {
        window_secs: u64,
        /// Expiry for what the window admits. None never expires.
        for_secs: Option<u64>,
    },
    /// Allow the device behind the most recent recorded violation.
    AllowLast { for_secs: Option<u64> },
    /// Drop one allowance, named by its selector.
    Revoke { selector: String },
    /// Drop every allowance.
    RevokeAll,
    /// Run the configured kill sequence. Sent by the relay when a
    /// signature-verified KILL arrives from a trusted peer.
    Kill { reason: String },
}

/// The kind of a request: what stands under `command`, or first in a list.
pub open spec fn command_of(j: Json) -> Option<Seq<char>> {
    match field(j, "command"@, 0) {
        Some(v) => v.text(),
        None => None,
    }
}

/// A number that is owed.
pub open spec fn owed_number(j: Option<Json>) -> Option<u64> {
    match j {
        Some(v) => v.uint(),
        None => None,
    }
}

/// A text that is owed.
pub open spec fn owed_text(j: Option<Json>) -> Option<Seq<char>> {
    match j {
        Some(v) => v.text(),
        None => None,
    }
}

/// How many fields a request may list, its kind counted, or `None` for a kind that
/// nobody knows.
pub open spec fn request_fields(command: Seq<char>) -> Option<int> {
    if command == "status"@ || command == "devices"@ || command == "violations"@ || command
        == "arm"@ || command == "learn"@ || command == "enforce"@ || command == "reload"@
        || command == "revoke_all"@ {
        Some(1)
    } else if command == "disarm"@ || command == "allow_last"@ || command == "revoke"@ || command
        == "kill"@ {
        Some(2)
    } else if command == "pair"@ {
        Some(3)
    } else {
        None
    }
}

/// Why a value is no request.
#[derive(Debug, Clone, PartialEq, Eq)]
pub enum Refusal {
    /// It is neither an object nor a list.
    Shape,
    /// Its kind is none that the daemon knows.
    Unknown(String),
    /// It does not have a field that it owes, or says no kind.
    Missing(&'static str),
    /// A field holds a value of the wrong kind.
    Invalid(&'static str),
    /// It lists more than its kind has fields.
    TooMany,
}

/// Why a value is no request, by the characters.
pub enum RefusalModel {
    Shape,
    Unknown(Seq<char>),
    Missing(Seq<char>),
    Invalid(Seq<char>),
    TooMany,
}

impl View for Refusal {
    type V = RefusalModel;

    open spec fn view(&self) -> RefusalModel {
        match self {
            Refusal::Shape => RefusalModel::Shape,
            Refusal::Unknown(c) => RefusalModel::Unknown(c@),
            Refusal::Missing(f) => RefusalModel::Missing(f@),
            Refusal::Invalid(f) => RefusalModel::Invalid(f@),
            Refusal::TooMany => RefusalModel::TooMany,
        }
    }
}

/// What is wrong with a field that is owed.
pub open spec fn owed_refusal(name: Seq<char>, sent: bool, reads: bool) -> Option<RefusalModel> {
    if reads {
        None
    } else if sent {
        Some(RefusalModel::Invalid(name))
    } else {
        Some(RefusalModel::Missing(name))
    }
}

/// What is wrong with the fields of a request of a known kind. A value of the wrong
/// kind is found before a field that is missing.
pub open spec fn fields_refusal(j: Json, c: Seq<char>) -> Option<RefusalModel> {
    if c == "disarm"@ {
        let f = field(j, "timeout_secs"@, 1);
        owed_refusal("timeout_secs"@, f is Some, owed_number(f) is Some)
    } else if c == "pair"@ {
        let f = field(j, "window_secs"@, 1);
        let g = field(j, "for_secs"@, 2);
        if f is Some && owed_number(f) is None {
            Some(RefusalModel::Invalid("window_secs"@))
        } else if maybe_number(g) is None {
            Some(RefusalModel::Invalid("for_secs"@))
        } else if f is None {
            Some(RefusalModel::Missing("window_secs"@))
        } else {
            None
        }
    } else if c == "allow_last"@ {
        if maybe_number(field(j, "for_secs"@, 1)) is None {
            Some(RefusalModel::Invalid("for_secs"@))
        } else {
            None
        }
    } else if c == "revoke"@ {
        let f = field(j, "selector"@, 1);
        owed_refusal("selector"@, f is Some, owed_text(f) is Some)
    } else if c == "kill"@ {
        let f = field(j, "reason"@, 1);
        owed_refusal("reason"@, f is Some, owed_text(f) is Some)
    } else {
        None
    }
}

/// Why a value is no request, `None` where it is one: a request is an object or a
/// list, is of a known kind, has every field that it owes and lists no more.
pub open spec fn refusal_of(j: Json) -> Option<RefusalModel> {
    if !(j is Object || j is Array) {
        Some(RefusalModel::Shape)
    } else {
        match command_of(j) {
            None => Some(
                if field(j, "command"@, 0) is Some {
                    RefusalModel::Invalid("command"@)
                } else {
                    RefusalModel::Missing("command"@)
                },
            ),
            Some(c) => match request_fields(c) {
                None => Some(RefusalModel::Unknown(c)),
                Some(n) => if fields_refusal(j, c) is Some {
                    fields_refusal(j, c)
                } else if !record(j, n) {
                    Some(RefusalModel::TooMany)
                } else {
                    None
                },
            },
        }
    }
}

fn bad_field(name: &'static str, sent: bool) -> (r: Refusal)
    ensures
        owed_refusal(name@, sent, false) == Some(r@),
{
    if sent {
        Refusal::Invalid(name)
    } else {
        Refusal::Missing(name)
    }
}

impl Request {
    /// The kind of this request.
    pub open spec fn kind(self) -> Seq<char> {
        match self {
            Request::Status => "status"@,
            Request::Devices => "devices"@,
            Request::Violations => "violations"@,
            Request::Disarm { .. } => "disarm"@,
            Request::Arm => "arm"@,
            Request::Learn => "learn"@,
            Request::Enforce => "enforce"@,
            Request::Reload => "reload"@,
            Request::Pair { .. } => "pair"@,
            Request::AllowLast { .. } => "allow_last"@,
            Request::Revoke { .. } => "revoke"@,
            Request::RevokeAll => "revoke_all"@,
            Request::Kill { .. } => "kill"@,
        }
    }

    /// Whether this is the request a value holds.
    pub open spec fn is_in(self, j: Json) -> bool {
        &&& command_of(j) == Some(self.kind())
        &&& match self {
            Request::Disarm { timeout_secs } => owed_number(field(j, "timeout_secs"@, 1)) == Some(
                timeout_secs,
            ),
            Request::Pair { window_secs, for_secs } => owed_number(field(j, "window_secs"@, 1))
                == Some(window_secs) && maybe_number(field(j, "for_secs"@, 2)) == Some(for_secs),
            Request::AllowLast { for_secs } => maybe_number(field(j, "for_secs"@, 1)) == Some(
                for_secs,
            ),
            Request::Revoke { selector } => owed_text(field(j, "selector"@, 1)) == Some(selector@),
            Request::Kill { reason } => owed_text(field(j, "reason"@, 1)) == Some(reason@),
            _ => true,
        }
    }

    /// The request a value holds, or why it is none.
    pub fn read(j: &Json) -> (r: Result<Request, Refusal>)
        ensures
            match r {
                Ok(q) => refusal_of(*j) is None && q.is_in(*j),
                Err(e) => refusal_of(*j) == Some(e@),
            },
    {
        proof {
            kinds_differ();
        }
        match j {
            Json::Object(_) => {},
            Json::Array(_) => {},
            _ => {
                return Err(Refusal::Shape);
            },
        }
        let c = match field_of(j, "command", 0) {
            Some(v) => match v.as_str() {
                Some(c) => c,
                None => {
                    return Err(Refusal::Invalid("command"));
                },
            },
            None => {
                return Err(Refusal::Missing("command"));
            },
        };
        let bare = if same(c, "status") {
            Some(Request::Status)
        } else if same(c, "devices") {
            Some(Request::Devices)
        } else if same(c, "violations") {
            Some(Request::Violations)
        } else if same(c, "arm") {
            Some(Request::Arm)
        } else if same(c, "learn") {
            Some(Request::Learn)
        } else if same(c, "enforce") {
            Some(Request::Enforce)
        } else if same(c, "reload") {
            Some(Request::Reload)
        } else if same(c, "revoke_all") {
            Some(Request::RevokeAll)
        } else {
            None
        };
        if let Some(q) = bare {
            return if is_record(j, 1) {
                Ok(q)
            } else {
                Err(Refusal::TooMany)
            };
        }
        if same(c, "pair") {
            return Request::read_pair(j);
        }
        let q = if same(c, "disarm") {
            let f = field_of(j, "timeout_secs", 1);
            match owed_u64(f) {
                Some(timeout_secs) => Request::Disarm { timeout_secs },
                None => {
                    return Err(bad_field("timeout_secs", f.is_some()));
                },
            }
        } else if same(c, "allow_last") {
            match read_maybe_number(field_of(j, "for_secs", 1)) {
                Some(for_secs) => Request::AllowLast { for_secs },
                None => {
                    return Err(Refusal::Invalid("for_secs"));
                },
            }
        } else if same(c, "revoke") {
            let f = field_of(j, "selector", 1);
            match owed_str(f) {
                Some(selector) => Request::Revoke { selector },
                None => {
                    return Err(bad_field("selector", f.is_some()));
                },
            }
        } else if same(c, "kill") {
            let f = field_of(j, "reason", 1);
            match owed_str(f) {
                Some(reason) => Request::Kill { reason },
                None => {
                    return Err(bad_field("reason", f.is_some()));
                },
            }
        } else {
            return Err(Refusal::Unknown(c.to_owned()));
        };
        if is_record(j, 2) {
            Ok(q)
        } else {
            Err(Refusal::TooMany)
        }
    }

    fn read_pair(j: &Json) -> (r: Result<Request, Refusal>)
        requires
            j is Object || j is Array,
            command_of(*j) == Some("pair"@),
        ensures
            match r {
                Ok(q) => refusal_of(*j) is None && q.is_in(*j),
                Err(e) => refusal_of(*j) == Some(e@),
            },
    {
        proof {
            kinds_differ();
        }
        let f = field_of(j, "window_secs", 1);
        let window = owed_u64(f);
        if f.is_some() && window.is_none() {
            return Err(Refusal::Invalid("window_secs"));
        }
        let for_secs = match read_maybe_number(field_of(j, "for_secs", 2)) {
            Some(n) => n,
            None => {
                return Err(Refusal::Invalid("for_secs"));
            },
        };
        match window {
            None => Err(Refusal::Missing("window_secs")),
            Some(window_secs) => if is_record(j, 3) {
                Ok(Request::Pair { window_secs, for_secs })
            } else {
                Err(Refusal::TooMany)
            },
        }
    }
}

fn owed_u64(j: Option<&Json>) -> (r: Option<u64>)
    ensures
        r == owed_number(held(j)),
{
    match j {
        Some(v) => v.as_u64(),
        None => None,
    }
}

fn owed_str(j: Option<&Json>) -> (r: Option<String>)
    ensures
        told(r) == owed_text(held(j)),
{
    match j {
        Some(v) => match v.as_str() {
            Some(s) => Some(s.to_owned()),
            None => None,
        },
        None => None,
    }
}

/// A kind that takes fields is spelled like no other.
proof fn kinds_differ()
    ensures
        forall|c: Seq<char>|
            #![trigger request_fields(c)]
            request_fields(c) == Some(1int) ==> c != "disarm"@ && c != "pair"@ && c != "allow_last"@
                && c != "revoke"@ && c != "kill"@,
        "disarm"@ != "pair"@ && "disarm"@ != "allow_last"@ && "disarm"@ != "revoke"@ && "disarm"@
            != "kill"@,
        "pair"@ != "allow_last"@ && "pair"@ != "revoke"@ && "pair"@ != "kill"@,
        "allow_last"@ != "revoke"@ && "allow_last"@ != "kill"@,
        "revoke"@ != "kill"@,
{
    stamps_of_kinds();
}

/// What a kind is told apart by: its length, its first and its third character.
pub open spec fn stamp(kind: Seq<char>) -> (nat, char, char) {
    (kind.len(), kind[0], kind[2])
}

/// No two kinds share a stamp.
pub(crate) proof fn stamps_of_kinds()
    ensures
        stamp("status"@) == (6nat, 's', 'a'),
        stamp("devices"@) == (7nat, 'd', 'v'),
        stamp("violations"@) == (10nat, 'v', 'o'),
        stamp("disarm"@) == (6nat, 'd', 's'),
        stamp("arm"@) == (3nat, 'a', 'm'),
        stamp("learn"@) == (5nat, 'l', 'a'),
        stamp("enforce"@) == (7nat, 'e', 'f'),
        stamp("reload"@) == (6nat, 'r', 'l'),
        stamp("pair"@) == (4nat, 'p', 'i'),
        stamp("allow_last"@) == (10nat, 'a', 'l'),
        stamp("revoke"@) == (6nat, 'r', 'v'),
        stamp("revoke_all"@) == (10nat, 'r', 'v'),
        stamp("kill"@) == (4nat, 'k', 'l'),
{
    reveal_strlit("status");
    reveal_strlit("devices");
    reveal_strlit("violations");
    reveal_strlit("disarm");
    reveal_strlit("arm");
    reveal_strlit("learn");
    reveal_strlit("enforce");
    reveal_strlit("reload");
    reveal_strlit("pair");
    reveal_strlit("allow_last");
    reveal_strlit("revoke");
    reveal_strlit("revoke_all");
    reveal_strlit("kill");
}

/// JSON response to a client.
#[derive(Debug, PartialEq, Eq)]
pub struct Response {
    pub ok: bool,
    pub data: Option<Json>,
    pub error: Option<String>,
}

impl Response {
    /// A command that ran.
    pub fn ok(data: Json) -> (r: Response)
        ensures
            r == (Response { ok: true, data: Some(data), error: None }),
    {
        Response { ok: true, data: Some(data), error: None }
    }

    /// A command that did not run, and why.
    pub fn err(msg: &str) -> (r: Response)
        ensures
            !r.ok,
            r.data is None,
            r.error matches Some(e) && e@ == msg@,
    {
        Response { ok: false, data: None, error: Some(msg.to_owned()) }
    }
}

impl Response {
    /// What goes out on the socket, keys in ascending order: a part that is missing
    /// is left out.
    pub open spec fn envelope_model(self) -> JsonModel {
        let data = match self.data {
            Some(d) => seq![("data"@, d.model())],
            None => Seq::empty(),
        };
        let error = match self.error {
            Some(e) => seq![("error"@, JsonModel::Str(e@))],
            None => Seq::empty(),
        };
        JsonModel::Object(data + error + seq![("ok"@, JsonModel::Bool(self.ok))])
    }

    /// The value that goes out on the socket.
    pub fn envelope(self) -> (r: Json)
        ensures
            r.model() == self.envelope_model(),
    {
        let mut e: Vec<(String, Json)> = Vec::new();
        if let Some(data) = self.data {
            e.push(("data".to_owned(), data));
        }
        if let Some(error) = self.error {
            let item = Json::Str(error);
            assert(item.model() == JsonModel::Str(error@));
            e.push(("error".to_owned(), item));
        }
        let item = Json::Bool(self.ok);
        assert(item.model() == JsonModel::Bool(self.ok));
        e.push(("ok".to_owned(), item));
        let r = Json::Object(e);
        proof {
            let want = self.envelope_model()->Object_0;
            let got = r.model()->Object_0;
            assert(got.len() == want.len());
            assert forall|i: int| 0 <= i < got.len() implies got[i] == want[i] by {
                assert(got[i] == (e@[i].0@, e@[i].1.model()));
            }
            assert(got =~= want);
        }
        r
    }
}

/// What a reply holds: the data that was sent, and a refusal exactly where the
/// command did not run, in the daemon's own words.
pub proof fn a_reply_reads_back(sent: Response, reply: Json)
    requires
        reply.model() == sent.envelope_model(),
    ensures
        sent.ok ==> rejection(reply) is None,
        !sent.ok ==> rejection(reply) == Some(
            match sent.error {
                Some(e) => e@,
                None => "unknown error"@,
            },
        ),
        match sent.data {
            Some(d) => reply.at("data"@) matches Some(x) && x.model() == d.model(),
            None => reply.at("data"@) is None,
        },
{
    reveal_strlit("data");
    reveal_strlit("error");
    reveal_strlit("ok");
    assert("data"@.len() == 4 && "error"@.len() == 5 && "ok"@.len() == 2);
    reveal_with_fuel(json::model_entry, 4);
    json::lookup_agrees(reply, "data"@);
    json::lookup_agrees(reply, "error"@);
    json::lookup_agrees(reply, "ok"@);
}

// ---- requests and replies ------------------------------------------------

/// A request as the line that goes out on the socket.
pub fn request_text(request: &Json) -> (r: Result<String, String>)
    requires
        request.integral(),
        request.ordered(),
        signs_ok(*request),
    ensures
        match (r, json_compact(request.model())) {
            (Ok(line), Ok(s)) => line@ == s.push('\n'),
            (Err(e), Err(m)) => e@ == "JSON error: "@ + m,
            _ => false,
        },
{
    match json::write(request) {
        Ok(line) => {
            let mut line = line;
            line.push('\n');
            Ok(line)
        },
        Err(e) => Err(cat2("JSON error: ", e.as_str())),
    }
}

/// The reply on a line, or why it is none. The whole envelope comes back,
/// `ok: false` included.
pub fn parse_reply(line: &str) -> (r: Result<Json, String>)
    ensures
        match (r, json_read(line@)) {
            (Ok(j), Ok(m)) => j.model() == m,
            (Err(e), Err(m)) => e@ == "invalid JSON response: "@ + m,
            _ => false,
        },
{
    match json::read(line) {
        Ok(j) => Ok(j),
        Err(e) => Err(cat2("invalid JSON response: ", e.as_str())),
    }
}

/// Why the daemon rejected a command, `None` when it did not.
pub open spec fn rejection(reply: Json) -> Option<Seq<char>> {
    if reply.truth_at("ok"@) == Some(true) {
        None
    } else {
        Some(
            match reply.text_at("error"@) {
                Some(e) => e,
                None => "unknown error"@,
            },
        )
    }
}

/// Why the daemon rejected a command, `None` when it did not.
pub fn reply_error(reply: &Json) -> (r: Option<String>)
    ensures
        match r {
            Some(e) => rejection(*reply) == Some(e@),
            None => rejection(*reply) is None,
        },
{
    if let Some(ok) = reply.get_bool("ok") {
        if ok {
            return None;
        }
    }
    match reply.get_str("error") {
        Some(e) => Some(e.to_owned()),
        None => Some("unknown error".to_owned()),
    }
}

/// How a successful reply reads: the status report, the message, or the data
/// pretty-printed. Nothing where the data cannot be printed.
pub open spec fn human(reply: Json, pretty: Option<Seq<char>>) -> Option<Seq<char>> {
    match reply.at("data"@) {
        None => Some("OK"@),
        Some(data) => if data.truth_at("armed"@) is Some {
            Some(status_text(data))
        } else if data.text_at("message"@) is Some {
            data.text_at("message"@)
        } else {
            pretty
        },
    }
}

/// How a successful reply reads. `pretty` is its data, pretty-printed.
pub fn human_response(reply: &Json, pretty: Option<&str>) -> (r: Option<String>)
    ensures
        match r {
            Some(s) => human(*reply, seen(pretty)) == Some(s@),
            None => human(*reply, seen(pretty)) is None,
        },
{
    match reply.get("data") {
        None => Some("OK".to_owned()),
        Some(data) => {
            if data.get_bool("armed").is_some() {
                return Some(format_status(data));
            }
            if let Some(msg) = data.get_str("message") {
                return Some(msg.to_owned());
            }
            match pretty {
                Some(p) => Some(p.to_owned()),
                None => None,
            }
        },
    }
}

/// A text that may be missing, as its characters.
pub open spec fn seen(s: Option<&str>) -> Option<Seq<char>> {
    match s {
        Some(t) => Some(t@),
        None => None,
    }
}

/// The pretty-printed form of part of a value, where there is one.
pub open spec fn pretty_of(m: Option<JsonModel>) -> Option<Seq<char>> {
    match m {
        Some(x) => match json_pretty(x) {
            Ok(s) => Some(s),
            Err(_) => None,
        },
        None => None,
    }
}

/// What a client prints for the line that came back: the daemon's error where
/// it rejected the command, else the line as JSON or in words.
pub fn command_output(line: &str, raw_json: bool) -> (r: Result<Option<String>, String>)
    ensures
        match json_read(line@) {
            Err(_) => r matches Ok(Some(s)) && s@ == line@,
            Ok(m) => exists|reply: Json| #[trigger]
                reply.model() == m && match rejection(reply) {
                    Some(e) => r matches Err(s) && s@ == e,
                    None => if raw_json {
                        r matches Ok(Some(s)) && s@ == match json_pretty(m) {
                            Ok(p) => p,
                            Err(_) => line@,
                        }
                    } else {
                        match (r, human(reply, pretty_of(json::model_at(m, "data"@)))) {
                            (Ok(Some(s)), Some(h)) => s@ == h,
                            (Ok(None), None) => true,
                            _ => false,
                        }
                    },
                },
        },
{
    let value = match parse_value(line) {
        Ok(v) => v,
        Err(_) => {
            return Ok(Some(line.to_owned()));
        },
    };
    let reply = from_value(&value);
    let ghost m = json_read(line@)->Ok_0;
    assert(reply.model() == m);
    if let Some(e) = reply_error(&reply) {
        return Err(e);
    }
    if raw_json {
        return match pretty_text(&value) {
            Ok(p) => Ok(Some(p)),
            Err(_) => Ok(Some(line.to_owned())),
        };
    }
    let pretty: Option<String> = match value_get(&value, "data") {
        Some(data) => match pretty_text(data) {
            Ok(p) => Some(p),
            Err(_) => None,
        },
        None => None,
    };
    let shown: Option<&str> = match &pretty {
        Some(p) => Some(p.as_str()),
        None => None,
    };
    assert(seen(shown) == pretty_of(json::model_at(m, "data"@)));
    Ok(human_response(&reply, shown))
}

// ---- durations -----------------------------------------------------------

/// A whole-second duration in hours, minutes and seconds, without the empty
/// leading units.
pub open spec fn duration_text(secs: u64) -> Seq<char> {
    let h = secs as nat / 3600;
    let m = secs as nat % 3600 / 60;
    let s = secs as nat % 60;
    if h > 0 {
        dec(h) + "h "@ + dec(m) + "m "@ + dec(s) + "s"@
    } else if m > 0 {
        dec(m) + "m "@ + dec(s) + "s"@
    } else {
        dec(s) + "s"@
    }
}

/// Render a whole-second duration as `1h 2m 5s`, dropping empty leading units.
pub fn format_duration(secs: u64) -> (r: String)
    ensures
        r@ == duration_text(secs),
{
    let h = decimal(secs / 3600);
    let m = decimal(secs % 3600 / 60);
    let s = decimal(secs % 60);
    if secs / 3600 > 0 {
        let mut out = cat5(h.as_str(), "h ", m.as_str(), "m ", s.as_str());
        out.push_str("s");
        out
    } else if secs % 3600 / 60 > 0 {
        cat4(m.as_str(), "m ", s.as_str(), "s")
    } else {
        cat2(s.as_str(), "s")
    }
}

/// The unit that a trimmed duration ends in: its seconds, and how many
/// characters it takes.
pub open spec fn unit_of(s: Seq<char>) -> (nat, int) {
    if s.len() == 0 {
        (1, 0)
    } else if s.last() == 's' {
        (1, 1)
    } else if s.last() == 'm' {
        (60, 1)
    } else if s.last() == 'h' {
        (3600, 1)
    } else {
        (1, 0)
    }
}

/// What a duration is worth in seconds, when it is one that a `u64` holds.
pub open spec fn duration_value(input: Seq<char>) -> Option<u64> {
    let s = trimmed(input);
    let (unit, n) = unit_of(s);
    match unsigned(trimmed(s.take(s.len() - n)), 10, u64::MAX as nat) {
        Some(v) => if v * unit <= u64::MAX {
            Some((v * unit) as u64)
        } else {
            None
        },
        None => None,
    }
}

/// A number behind its unit is worth that many of it, and a bare number that many
/// seconds, as far as a `u64` goes.
pub proof fn a_number_is_worth_its_unit(n: u64, unit: char)
    requires
        unit == 's' || unit == 'm' || unit == 'h',
    ensures
        duration_value(dec(n as nat)) == Some(n),
        duration_value(dec(n as nat).push(unit)) == {
            let secs = n * unit_of(seq![unit]).0;
            if secs <= u64::MAX {
                Some(secs as u64)
            } else {
                None
            }
        },
{
    let d = dec(n as nat);
    dec_reads_back(n as nat);
    dec_is_unsigned(n as nat, u64::MAX as nat);
    let s = d.push(unit);
    let (first, last) = (d[0], d.last());
    assert(digit_value(first) < 10 && digit_value(last) < 10);
    assert(!is_space(first) && !is_space(last) && !is_space(unit));
    assert(last != 's' && last != 'm' && last != 'h');
    assert(trimmed(d) == d);
    assert(s[0] == first && s.last() == unit);
    assert(trimmed(s) == s);
    assert(s.take(s.len() - 1) =~= d);
    assert(unit_of(d) == (1nat, 0int));
    assert(d.take(d.len() - unit_of(d).1) =~= d);
    assert(n as nat * unit_of(d).0 == n);
}

/// `--for` takes `30s`, `10m`, `2h`, or a bare number of seconds.
pub fn parse_duration_secs(input: &str) -> (r: Result<u64, String>)
    ensures
        match r {
            Ok(n) => duration_value(input@) == Some(n),
            Err(e) => duration_value(input@) is None && e@ == "'"@ + input@
                + "' is not a duration like 30s, 10m or 2h"@,
        },
{
    let all = chars(input);
    let s = trim(all.as_slice());
    let mut unit: u64 = 1;
    let mut n: usize = s.len();
    if s.len() > 0 {
        let last = s[s.len() - 1];
        if last == 's' {
            n = s.len() - 1;
        } else if last == 'm' {
            unit = 60;
            n = s.len() - 1;
        } else if last == 'h' {
            unit = 3600;
            n = s.len() - 1;
        }
    }
    let digits = part(s, 0, n);
    assert(digits@ =~= s@.take(s@.len() - unit_of(s@).1));
    if let Some(v) = read(trim(digits), 10, u64::MAX) {
        let total: u128 = (v as u128) * (unit as u128);
        if total <= u64::MAX as u128 {
            return Ok(total as u64);
        }
    }
    Err(cat3("'", input, "' is not a duration like 30s, 10m or 2h"))
}

// ---- the status report ---------------------------------------------------

/// A line that may be missing, as a list of none or one.
pub open spec fn line_if(line: Option<Seq<char>>) -> Seq<Seq<char>> {
    match line {
        Some(s) => seq![s],
        None => Seq::empty(),
    }
}

/// Add a line where there is one.
pub fn push_line(out: &mut Vec<String>, line: Option<String>)
    ensures
        views(final(out)@) == views(old(out)@) + line_if(
            match line {
                Some(s) => Some(s@),
                None => None,
            },
        ),
{
    let ghost before = out@;
    match line {
        Some(s) => {
            out.push(s);
            assert(views(out@) =~= views(before) + seq![s@]);
        },
        None => {
            assert(views(out@) =~= views(before) + Seq::<Seq<char>>::empty());
        },
    }
}

/// A text under a key, or another where there is none.
pub open spec fn text_or(data: Json, key: Seq<char>, other: Seq<char>) -> Seq<char> {
    match data.text_at(key) {
        Some(s) => s,
        None => other,
    }
}

/// A number under a key, zero where there is none.
pub open spec fn uint_or_zero(data: Json, key: Seq<char>) -> u64 {
    match data.uint_at(key) {
        Some(n) => n,
        None => 0,
    }
}

/// A text under a key, or another where there is none.
pub(crate) fn get_text_or<'a>(data: &'a Json, key: &str, other: &'a str) -> (r: &'a str)
    ensures
        r@ == text_or(*data, key@, other@),
{
    match data.get_str(key) {
        Some(s) => s,
        None => other,
    }
}

/// A number under a key, zero where there is none.
pub(crate) fn get_uint_or_zero(data: &Json, key: &str) -> (r: u64)
    ensures
        r == uint_or_zero(*data, key@),
{
    match data.get_u64(key) {
        Some(n) => n,
        None => 0,
    }
}

/// "Status: ..."
pub open spec fn status_line(data: Json) -> Seq<char> {
    "Status:     "@ + (if data.truth_at("armed"@) == Some(true) {
        "armed"@
    } else {
        "disarmed"@
    }) + " ("@ + text_or(data, "mode"@, "unknown"@) + " mode)"@
}

/// "Uptime: ..."
pub open spec fn uptime_line(data: Json) -> Option<Seq<char>> {
    match data.uint_at("uptime_secs"@) {
        Some(secs) => Some("Uptime:     "@ + duration_text(secs)),
        None => None,
    }
}

/// "Re-arms in: ...", while a disarm is running.
pub open spec fn rearm_line(data: Json) -> Option<Seq<char>> {
    match data.uint_at("disarm_remaining_secs"@) {
        Some(secs) => if secs > 0 {
            Some("Re-arms in: "@ + duration_text(secs))
        } else {
            None
        },
        None => None,
    }
}

/// "Dry run: ..."
pub open spec fn dry_run_line(data: Json) -> Option<Seq<char>> {
    if data.truth_at("dry_run"@) == Some(true) {
        Some("Dry run:    yes, violations are logged but nothing is killed"@)
    } else {
        None
    }
}

/// "Pending: ...", while a grace period is running.
pub open spec fn pending_line(data: Json) -> Option<Seq<char>> {
    match data.at("pending_violation"@) {
        Some(p) => if p is Object {
            Some(
                "Pending:    "@ + text_or(p, "bus"@, "unknown"@) + " violation in "@
                    + duration_text(uint_or_zero(p, "secs_left"@)) + ": "@ + text_or(
                    p,
                    "reason"@,
                    ""@,
                ),
            )
        } else {
            None
        },
        None => None,
    }
}

/// "Devices: ..."
pub open spec fn devices_line(data: Json) -> Seq<char> {
    "Devices:    "@ + dec(uint_or_zero(data, "usb_devices"@) as nat) + " USB IDs, "@ + dec(
        uint_or_zero(data, "thunderbolt_devices"@) as nat,
    ) + " Thunderbolt, "@ + dec(uint_or_zero(data, "sdcard_devices"@) as nat) + " SD card, "@
        + dec(uint_or_zero(data, "pci_devices"@) as nat) + " PCI"@
}

/// The names of the first `n` buses that are watched.
pub open spec fn watching(data: Json, n: int) -> Seq<Seq<char>>
    decreases n,
{
    if n <= 0 {
        Seq::empty()
    } else if data.truth_at(BUSES@[n - 1].0@) == Some(true) {
        watching(data, n - 1).push(BUSES@[n - 1].1@)
    } else {
        watching(data, n - 1)
    }
}

/// "Watching: ...", when any bus is.
pub open spec fn watching_line(data: Json) -> Option<Seq<char>> {
    if watching(data, 8).len() > 0 {
        Some("Watching:   "@ + joined(watching(data, 8), ", "@))
    } else {
        None
    }
}

/// "Pairing: ...", while a window is open.
pub open spec fn pairing_line(data: Json) -> Option<Seq<char>> {
    match data.uint_at("pairing_window_secs_left"@) {
        Some(secs) => Some("Pairing:    window closes in "@ + duration_text(secs)),
        None => None,
    }
}

/// The allowances in a status response's data, none where it lists none.
pub open spec fn allowances_of(data: Json) -> Seq<Json> {
    match data.at("allowances"@) {
        Some(j) => match j.items() {
            Some(v) => v,
            None => Seq::empty(),
        },
        None => Seq::empty(),
    }
}

/// The selectors of the allowances.
pub open spec fn selectors_of(list: Seq<Json>) -> Seq<Seq<char>> {
    list.map_values(|a: Json| text_or(a, "selector"@, ""@))
}

/// "Allowances: ...", when there are any.
pub open spec fn allowances_line(data: Json) -> Option<Seq<char>> {
    let list = allowances_of(data);
    if list.len() > 0 {
        Some("Allowances: "@ + joined(selectors_of(list), ", "@))
    } else {
        None
    }
}

/// How the power supply reads.
pub open spec fn power_words(data: Json) -> Option<Seq<char>> {
    match data.text_at("power_state"@) {
        Some(s) => if s == "ac"@ {
            Some("on AC"@)
        } else if s == "battery"@ {
            Some("on battery"@)
        } else {
            Some("power "@ + s)
        },
        None => None,
    }
}

/// How the lid reads.
pub open spec fn lid_words(data: Json) -> Option<Seq<char>> {
    match data.text_at("lid_state"@) {
        Some(s) => Some("lid "@ + s),
        None => None,
    }
}

/// How the network links read.
pub open spec fn links_words(data: Json) -> Option<Seq<char>> {
    match data.uint_at("network_links_down"@) {
        Some(n) => if n == 0 {
            Some("all links up"@)
        } else {
            Some(dec(n as nat) + " link(s) down"@)
        },
        None => None,
    }
}

/// "Live: ...", when anything is read live.
pub open spec fn live_line(data: Json) -> Option<Seq<char>> {
    let live = line_if(power_words(data)) + line_if(lid_words(data)) + line_if(links_words(data));
    if live.len() > 0 {
        Some("Live:       "@ + joined(live, ", "@))
    } else {
        None
    }
}

/// "Last poll: ..."
pub open spec fn poll_line(data: Json) -> Option<Seq<char>> {
    match data.uint_at("last_poll_ms_ago"@) {
        Some(ms) => Some("Last poll:  "@ + dec(ms as nat) + "ms ago"@),
        None => None,
    }
}

/// The lines of a status report.
pub open spec fn status_lines(data: Json) -> Seq<Seq<char>> {
    Seq::<Seq<char>>::empty() + line_if(Some(status_line(data))) + line_if(uptime_line(data))
        + line_if(rearm_line(data)) + line_if(dry_run_line(data)) + line_if(pending_line(data))
        + line_if(Some(devices_line(data))) + line_if(watching_line(data)) + line_if(
        pairing_line(data),
    ) + line_if(allowances_line(data)) + line_if(live_line(data)) + line_if(
        Some("Violations: "@ + dec(uint_or_zero(data, "violations_logged"@) as nat)),
    ) + line_if(poll_line(data))
}

/// A status report.
pub open spec fn status_text(data: Json) -> Seq<char> {
    joined(status_lines(data), "\n"@)
}

/// The views of no strings.
proof fn no_views(v: Seq<String>)
    requires
        v.len() == 0,
    ensures
        views(v) == Seq::<Seq<char>>::empty(),
{
    assert(views(v) =~= Seq::<Seq<char>>::empty());
}

/// The names of the buses that are watched.
fn watched_names(data: &Json) -> (r: Vec<String>)
    ensures
        views(r@) == watching(*data, 8),
{
    let mut out: Vec<String> = Vec::new();
    let mut i: usize = 0;
    proof {
        no_views(out@);
    }
    while i < 8
        invariant
            i <= 8,
            views(out@) == watching(*data, i as int),
        decreases 8 - i,
    {
        let ghost before = out@;
        let bus = BUSES[i];
        let mut on = false;
        if let Some(b) = data.get_bool(bus.0) {
            on = b;
        }
        if on {
            out.push(bus.1.to_owned());
            assert(views(out@) =~= views(before).push(bus.1@));
        }
        i += 1;
    }
    out
}

/// The `allowances` array of a status response's data, empty when absent.
pub fn allowance_list(data: &Json) -> (r: &[Json])
    ensures
        r@ == allowances_of(*data),
{
    if let Some(j) = data.get("allowances") {
        if let Some(v) = j.as_array() {
            return v;
        }
    }
    let none: &[Json] = &[];
    assert(none@ =~= Seq::<Json>::empty());
    none
}

/// The selectors of the allowances.
fn selector_texts(list: &[Json]) -> (r: Vec<String>)
    ensures
        views(r@) == selectors_of(list@),
{
    let mut out: Vec<String> = Vec::new();
    let mut i: usize = 0;
    proof {
        no_views(out@);
        assert(selectors_of(list@).take(0) =~= Seq::<Seq<char>>::empty());
    }
    while i < list.len()
        invariant
            i <= list@.len(),
            views(out@) == selectors_of(list@).take(i as int),
        decreases list@.len() - i,
    {
        let ghost before = out@;
        let s = get_text_or(&list[i], "selector", "");
        out.push(s.to_owned());
        assert(views(out@) =~= views(before).push(s@));
        assert(selectors_of(list@).take(i + 1) =~= selectors_of(list@).take(i as int).push(s@));
        i += 1;
    }
    assert(selectors_of(list@).take(i as int) =~= selectors_of(list@));
    out
}

/// What is read live: power, lid and links.
fn live_words(data: &Json) -> (r: Vec<String>)
    ensures
        views(r@) == line_if(power_words(*data)) + line_if(lid_words(*data)) + line_if(
            links_words(*data),
        ),
{
    let mut live: Vec<String> = Vec::new();
    proof {
        no_views(live@);
        assert(views(live@) + line_if(power_words(*data)) =~= line_if(power_words(*data)));
    }
    let power: Option<String> = match data.get_str("power_state") {
        Some(s) => if same(s, "ac") {
            Some("on AC".to_owned())
        } else if same(s, "battery") {
            Some("on battery".to_owned())
        } else {
            Some(cat2("power ", s))
        },
        None => None,
    };
    push_line(&mut live, power);
    let lid: Option<String> = match data.get_str("lid_state") {
        Some(s) => Some(cat2("lid ", s)),
        None => None,
    };
    push_line(&mut live, lid);
    let links: Option<String> = match data.get_u64("network_links_down") {
        Some(n) => if n == 0 {
            Some("all links up".to_owned())
        } else {
            Some(cat2(decimal(n).as_str(), " link(s) down"))
        },
        None => None,
    };
    push_line(&mut live, links);
    live
}

/// The first lines of a status report: armed or not, and what is running.
fn state_lines(data: &Json) -> (r: Vec<String>)
    ensures
        views(r@) == Seq::<Seq<char>>::empty() + line_if(Some(status_line(*data))) + line_if(
            uptime_line(*data),
        ) + line_if(rearm_line(*data)) + line_if(dry_run_line(*data)) + line_if(
            pending_line(*data),
        ),
{
    let mut out: Vec<String> = Vec::new();
    proof {
        no_views(out@);
    }
    let mut armed = false;
    if let Some(b) = data.get_bool("armed") {
        armed = b;
    }
    let word = if armed {
        "armed"
    } else {
        "disarmed"
    };
    let mode = get_text_or(data, "mode", "unknown");
    push_line(&mut out, Some(cat5("Status:     ", word, " (", mode, " mode)")));
    let uptime: Option<String> = match data.get_u64("uptime_secs") {
        Some(secs) => Some(cat2("Uptime:     ", format_duration(secs).as_str())),
        None => None,
    };
    push_line(&mut out, uptime);
    let rearm: Option<String> = match data.get_u64("disarm_remaining_secs") {
        Some(secs) => if secs > 0 {
            Some(cat2("Re-arms in: ", format_duration(secs).as_str()))
        } else {
            None
        },
        None => None,
    };
    push_line(&mut out, rearm);
    let mut dry = false;
    if let Some(b) = data.get_bool("dry_run") {
        dry = b;
    }
    let dry_run: Option<String> = if dry {
        Some("Dry run:    yes, violations are logged but nothing is killed".to_owned())
    } else {
        None
    };
    push_line(&mut out, dry_run);
    let pending: Option<String> = match data.get("pending_violation") {
        Some(p) => if p.is_object() {
            let left = format_duration(get_uint_or_zero(p, "secs_left"));
            let mut line = cat5(
                "Pending:    ",
                get_text_or(p, "bus", "unknown"),
                " violation in ",
                left.as_str(),
                ": ",
            );
            line.push_str(get_text_or(p, "reason", ""));
            Some(line)
        } else {
            None
        },
        None => None,
    };
    push_line(&mut out, pending);
    out
}

/// A status response's `data` as the lines `--status` prints. Kept apart from
/// the printing so the wording is testable.
pub fn format_status(data: &Json) -> (r: String)
    ensures
        r@ == status_text(*data),
{
    let mut out = state_lines(data);
    let usb = decimal(get_uint_or_zero(data, "usb_devices"));
    let tb = decimal(get_uint_or_zero(data, "thunderbolt_devices"));
    let sd = decimal(get_uint_or_zero(data, "sdcard_devices"));
    let pci = decimal(get_uint_or_zero(data, "pci_devices"));
    let mut devices = cat5("Devices:    ", usb.as_str(), " USB IDs, ", tb.as_str(), " Thunderbolt, ");
    devices.push_str(sd.as_str());
    devices.push_str(" SD card, ");
    devices.push_str(pci.as_str());
    devices.push_str(" PCI");
    push_line(&mut out, Some(devices));
    let names = watched_names(data);
    assert(views(names@).len() == names@.len());
    let watched: Option<String> = if names.len() > 0 {
        Some(cat2("Watching:   ", join(names.as_slice(), ", ").as_str()))
    } else {
        None
    };
    push_line(&mut out, watched);
    let pairing: Option<String> = match data.get_u64("pairing_window_secs_left") {
        Some(secs) => Some(cat2("Pairing:    window closes in ", format_duration(secs).as_str())),
        None => None,
    };
    push_line(&mut out, pairing);
    let list = allowance_list(data);
    let allowed: Option<String> = if list.len() > 0 {
        let selectors = selector_texts(list);
        Some(cat2("Allowances: ", join(selectors.as_slice(), ", ").as_str()))
    } else {
        None
    };
    push_line(&mut out, allowed);
    let live = live_words(data);
    assert(views(live@).len() == live@.len());
    let live_now: Option<String> = if live.len() > 0 {
        Some(cat2("Live:       ", join(live.as_slice(), ", ").as_str()))
    } else {
        None
    };
    push_line(&mut out, live_now);
    let logged = decimal(get_uint_or_zero(data, "violations_logged"));
    push_line(&mut out, Some(cat2("Violations: ", logged.as_str())));
    let poll: Option<String> = match data.get_u64("last_poll_ms_ago") {
        Some(ms) => Some(cat3("Last poll:  ", decimal(ms).as_str(), "ms ago")),
        None => None,
    };
    push_line(&mut out, poll);
    join(out.as_slice(), "\n")
}

// ---- what holds of the protocol ------------------------------------------

/// A client waits two minutes for the commands that a person may have to confirm, and
/// five seconds for all others, and for closing a pairing window.
pub proof fn a_gated_command_waits_for_the_person(request: Json)
    ensures
        wait_for(request) == match request.text_at("command"@) {
            Some(c) => if c == "disarm"@ || c == "learn"@ || c == "reload"@ || c == "allow_last"@ || (
            c == "pair"@ && request.uint_at("window_secs"@) != Some(0u64)) {
                120u64
            } else {
                5u64
            },
            None => 5u64,
        },
{
    reveal_strlit("disarm");
    reveal_strlit("learn");
    reveal_strlit("reload");
    reveal_strlit("pair");
    reveal_strlit("allow_last");
    assert("disarm"@.len() == 6 && "learn"@.len() == 5 && "reload"@.len() == 6 && "pair"@.len() == 4
        && "allow_last"@.len() == 10);
    if let Some(c) = request.text_at("command"@) {
        gated_ones(c);
    }
}

/// The commands that need authorization, by name.
pub proof fn gated_ones(c: Seq<char>)
    ensures
        gated(c) <==> c == "disarm"@ || c == "learn"@ || c == "reload"@ || c == "pair"@ || c
            == "allow_last"@,
{
    let all = GATED_COMMANDS@;
    assert(all[0]@ == "disarm"@ && all[1]@ == "learn"@ && all[2]@ == "reload"@ && all[3]@ == "pair"@
        && all[4]@ == "allow_last"@);
    if gated(c) {
        let i = choose|i: int| 0 <= i < 5 && (#[trigger] GATED_COMMANDS@[i])@ == c;
        assert(i == 0 || i == 1 || i == 2 || i == 3 || i == 4);
    }
}

/// A reply is a success only where it says so in so many words; anything else is a
/// rejection, with the error it gives or one that says there was none.
pub proof fn only_an_ok_is_a_success(reply: Json)
    ensures
        rejection(reply) is None <==> reply.at("ok"@) == Some(Json::Bool(true)),
        reply.at("ok"@) != Some(Json::Bool(true)) ==> rejection(reply) == Some(
            match reply.at("error"@) {
                Some(Json::Str(e)) => e@,
                _ => "unknown error"@,
            },
        ),
{
}

/// What a person sees of a reply: a status where the data tells whether it is armed, the
/// message where there is one, the data as it is otherwise, and a plain word where there
/// is no data.
pub proof fn a_reply_is_shown_so(reply: Json, pretty: Option<Seq<char>>)
    ensures
        reply.at("data"@) is None ==> human(reply, pretty) == Some("OK"@),
        reply.at("data"@) matches Some(d) ==> {
            &&& d.at("armed"@) matches Some(Json::Bool(_)) ==> human(reply, pretty) == Some(
                status_text(d),
            )
            &&& !(d.at("armed"@) matches Some(Json::Bool(_))) && (d.at("message"@) matches Some(
                Json::Str(m),
            )) ==> human(reply, pretty) == d.text_at("message"@)
            &&& !(d.at("armed"@) matches Some(Json::Bool(_))) && !(d.at("message"@) matches Some(
                Json::Str(_),
            )) ==> human(reply, pretty) == pretty
        },
{
}

/// A duration is printed in hours, minutes and seconds that add up to it, without the
/// hours where there are none, and without the minutes where there are neither.
pub proof fn a_duration_is_printed_in_parts(h: nat, m: nat, s: nat)
    requires
        m < 60,
        s < 60,
        3600 * h + 60 * m + s <= u64::MAX,
    ensures
        h > 0 ==> duration_text((3600 * h + 60 * m + s) as u64) == dec(h) + "h "@ + dec(m) + "m "@
            + dec(s) + "s"@,
        h == 0 && m > 0 ==> duration_text((60 * m + s) as u64) == dec(m) + "m "@ + dec(s) + "s"@,
        h == 0 && m == 0 ==> duration_text(s as u64) == dec(s) + "s"@,
{
    let all = (3600 * h + 60 * m + s) as nat;
    assert(all / 3600 == h);
    assert(all % 3600 == 60 * m + s);
    assert(all % 3600 / 60 == m);
    assert(all % 60 == s);
}

/// A number is worth as many seconds, with `s` behind it too, sixty times as many with
/// `m`, and sixty times that with `h`; what does not fit is no duration.
pub proof fn a_duration_is_worth_its_unit(n: u64)
    ensures
        duration_value(dec(n as nat)) == Some(n),
        duration_value(dec(n as nat).push('s')) == Some(n),
        n * 60 <= u64::MAX ==> duration_value(dec(n as nat).push('m')) == Some((n * 60) as u64),
        n * 60 > u64::MAX ==> duration_value(dec(n as nat).push('m')) is None,
        n * 3600 <= u64::MAX ==> duration_value(dec(n as nat).push('h')) == Some((n * 3600) as u64),
        n * 3600 > u64::MAX ==> duration_value(dec(n as nat).push('h')) is None,
{
    a_number_is_worth_its_unit(n, 's');
    a_number_is_worth_its_unit(n, 'm');
    a_number_is_worth_its_unit(n, 'h');
    assert(unit_of(seq!['s']).0 == 1 && unit_of(seq!['m']).0 == 60 && unit_of(seq!['h']).0 == 3600);
    assert(n * unit_of(seq!['s']).0 == n);
}

/// A request in an object is the one that its command names, with the fields of that
/// command.
pub proof fn a_request_is_read_from_its_fields(j: Json, q: Request)
    requires
        j is Object,
    ensures
        q.is_in(j) <==> match q {
            Request::Status => j.text_at("command"@) == Some("status"@),
            Request::Devices => j.text_at("command"@) == Some("devices"@),
            Request::Violations => j.text_at("command"@) == Some("violations"@),
            Request::Disarm { timeout_secs } => j.text_at("command"@) == Some("disarm"@)
                && j.uint_at("timeout_secs"@) == Some(timeout_secs),
            Request::Arm => j.text_at("command"@) == Some("arm"@),
            Request::Learn => j.text_at("command"@) == Some("learn"@),
            Request::Enforce => j.text_at("command"@) == Some("enforce"@),
            Request::Reload => j.text_at("command"@) == Some("reload"@),
            Request::Pair { window_secs, for_secs } => j.text_at("command"@) == Some("pair"@)
                && j.uint_at("window_secs"@) == Some(window_secs) && match for_secs {
                Some(n) => j.at("for_secs"@) == Some(Json::Uint(n)),
                None => j.at("for_secs"@) is None || j.at("for_secs"@) == Some(Json::Null),
            },
            Request::AllowLast { for_secs } => j.text_at("command"@) == Some("allow_last"@)
                && match for_secs {
                Some(n) => j.at("for_secs"@) == Some(Json::Uint(n)),
                None => j.at("for_secs"@) is None || j.at("for_secs"@) == Some(Json::Null),
            },
            Request::Revoke { selector } => j.text_at("command"@) == Some("revoke"@) && j.text_at(
                "selector"@,
            ) == Some(selector@),
            Request::RevokeAll => j.text_at("command"@) == Some("revoke_all"@),
            Request::Kill { reason } => j.text_at("command"@) == Some("kill"@) && j.text_at(
                "reason"@,
            ) == Some(reason@),
        },
{
}

/// An object is refused exactly where it is no request: its command is none of the
/// known, or a field that the command needs is missing or of another kind.
pub proof fn what_is_no_request_is_refused(j: Json)
    requires
        j is Object,
    ensures
        refusal_of(j) is None <==> (j.text_at("command"@) matches Some(c) && {
            ||| c == "status"@ || c == "devices"@ || c == "violations"@ || c == "arm"@ || c
                == "learn"@ || c == "enforce"@ || c == "reload"@ || c == "revoke_all"@
            ||| c == "disarm"@ && j.uint_at("timeout_secs"@) is Some
            ||| c == "pair"@ && j.uint_at("window_secs"@) is Some && (match j.at("for_secs"@) {
                None => true,
                Some(Json::Null) => true,
                Some(Json::Uint(_)) => true,
                _ => false,
            })
            ||| c == "allow_last"@ && (match j.at("for_secs"@) {
                None => true,
                Some(Json::Null) => true,
                Some(Json::Uint(_)) => true,
                _ => false,
            })
            ||| c == "revoke"@ && j.text_at("selector"@) is Some
            ||| c == "kill"@ && j.text_at("reason"@) is Some
        }),
{
    kinds_differ();
    if let Some(c) = j.text_at("command"@) {
        assert(request_fields(c) is Some || request_fields(c) is None);
    }
}

/// A status has its first line, the devices and the violations always, and one line more
/// for each thing that was told: the uptime, a disarm that ends, a dry run, a pending
/// violation, buses watched, a pairing window, allowances, live states, the last poll.
pub proof fn a_line_for_each_thing_told(data: Json)
    ensures
        status_lines(data).len() == 3 + (if data.uint_at("uptime_secs"@) is Some {
            1int
        } else {
            0
        }) + (if data.uint_at("disarm_remaining_secs"@) matches Some(n) && n > 0 {
            1int
        } else {
            0
        }) + (if data.at("dry_run"@) == Some(Json::Bool(true)) {
            1int
        } else {
            0
        }) + (if data.at("pending_violation"@) matches Some(Json::Object(_)) {
            1int
        } else {
            0
        }) + (if watching(data, 8).len() > 0 {
            1int
        } else {
            0
        }) + (if data.uint_at("pairing_window_secs_left"@) is Some {
            1int
        } else {
            0
        }) + (if data.at("allowances"@) matches Some(Json::Array(v)) && v@.len() > 0 {
            1int
        } else {
            0
        }) + (if data.text_at("power_state"@) is Some || data.text_at("lid_state"@) is Some
            || data.uint_at("network_links_down"@) is Some {
            1int
        } else {
            0
        }) + (if data.uint_at("last_poll_ms_ago"@) is Some {
            1int
        } else {
            0
        }),
        data.at("armed"@) == Some(Json::Bool(true)) ==> begins(
            status_lines(data)[0],
            "Status:     armed ("@,
        ),
        data.at("armed"@) != Some(Json::Bool(true)) ==> begins(
            status_lines(data)[0],
            "Status:     disarmed ("@,
        ),
{
    reveal_strlit("Status:     ");
    reveal_strlit("armed");
    reveal_strlit("disarmed");
    reveal_strlit(" (");
    reveal_strlit("Status:     armed (");
    reveal_strlit("Status:     disarmed (");
    let line = status_line(data);
    assert(status_lines(data)[0] == line);
    assert("Status:     armed ("@ =~= "Status:     "@ + "armed"@ + " ("@);
    assert("Status:     disarmed ("@ =~= "Status:     "@ + "disarmed"@ + " ("@);
    let head = "Status:     "@ + (if data.truth_at("armed"@) == Some(true) {
        "armed"@
    } else {
        "disarmed"@
    }) + " ("@;
    assert(line.take(head.len() as int) =~= head);
}

/// A bus is named as watched exactly where the daemon reports it so.
pub proof fn a_bus_is_named_where_it_is_watched(data: Json)
    ensures
        watching(data, 8) == buses_if(data.at("usb_watching"@), "USB"@) + buses_if(
            data.at("thunderbolt_watching"@),
            "Thunderbolt"@,
        ) + buses_if(data.at("sdcard_watching"@), "SD card"@) + buses_if(
            data.at("power_watching"@),
            "Power supply"@,
        ) + buses_if(data.at("network_watching"@), "Network"@) + buses_if(
            data.at("lid_watching"@),
            "Lid"@,
        ) + buses_if(data.at("pci_watching"@), "PCI"@) + buses_if(
            data.at("display_watching"@),
            "Display"@,
        ),
{
    assert(watching(data, 0) =~= Seq::<Seq<char>>::empty());
    one_more_bus(data, 1);
    one_more_bus(data, 2);
    one_more_bus(data, 3);
    one_more_bus(data, 4);
    one_more_bus(data, 5);
    one_more_bus(data, 6);
    one_more_bus(data, 7);
    one_more_bus(data, 8);
    let usb = buses_if(data.at("usb_watching"@), "USB"@);
    assert(watching(data, 0) + usb =~= usb);
}

proof fn one_more_bus(data: Json, n: int)
    requires
        1 <= n <= 8,
    ensures
        watching(data, n) == watching(data, n - 1) + buses_if(
            data.at(BUSES@[n - 1].0@),
            BUSES@[n - 1].1@,
        ),
{
    assert(watching(data, n) =~= watching(data, n - 1) + buses_if(
        data.at(BUSES@[n - 1].0@),
        BUSES@[n - 1].1@,
    ));
}

/// A name, where a report is a plain yes.
pub open spec fn buses_if(report: Option<Json>, name: Seq<char>) -> Seq<Seq<char>> {
    if report == Some(Json::Bool(true)) {
        seq![name]
    } else {
        Seq::empty()
    }
}

/// What the live line says of the power, the lid and the links.
pub proof fn the_live_line_says_so(data: Json)
    ensures
        data.text_at("power_state"@) == Some("ac"@) ==> power_words(data) == Some("on AC"@),
        data.text_at("power_state"@) == Some("battery"@) ==> power_words(data) == Some("on battery"@),
        data.text_at("power_state"@) is None ==> power_words(data) is None,
        data.text_at("lid_state"@) matches Some(l) ==> lid_words(data) == Some("lid "@ + l),
        data.uint_at("network_links_down"@) == Some(0u64) ==> links_words(data) == Some(
            "all links up"@,
        ),
        data.uint_at("network_links_down"@) matches Some(n) ==> (n > 0 ==> links_words(data) == Some(
            dec(n as nat) + " link(s) down"@,
        )),
        data.text_at("lid_state"@) is None && data.uint_at("network_links_down"@) is None ==> (
        power_words(data) matches Some(p) ==> live_line(data) == Some("Live:       "@ + p)),
{
    reveal_strlit("ac");
    reveal_strlit("battery");
    assert("ac"@.len() != "battery"@.len());
    if let Some(p) = power_words(data) {
        if data.text_at("lid_state"@) is None && data.uint_at("network_links_down"@) is None {
            let live = line_if(power_words(data)) + line_if(lid_words(data)) + line_if(
                links_words(data),
            );
            assert(live =~= seq![p]);
            crate::text::one_more_part_is_joined(Seq::empty(), p, ", "@);
        }
    }
}

/// What the other lines of a status say.
pub proof fn the_lines_of_a_status_say_so(data: Json, n: u64)
    ensures
        data.uint_at("uptime_secs"@) == Some(n) ==> uptime_line(data) == Some(
            "Uptime:     "@ + duration_text(n),
        ),
        data.uint_at("disarm_remaining_secs"@) == Some(n) && n > 0 ==> rearm_line(data) == Some(
            "Re-arms in: "@ + duration_text(n),
        ),
        data.uint_at("disarm_remaining_secs"@) == Some(0u64) ==> rearm_line(data) is None,
        data.uint_at("pairing_window_secs_left"@) == Some(n) ==> pairing_line(data) == Some(
            "Pairing:    window closes in "@ + duration_text(n),
        ),
        data.uint_at("last_poll_ms_ago"@) == Some(n) ==> poll_line(data) == Some(
            "Last poll:  "@ + dec(n as nat) + "ms ago"@,
        ),
        watching(data, 8).len() > 0 ==> watching_line(data) == Some(
            "Watching:   "@ + joined(watching(data, 8), ", "@),
        ),
        data.at("dry_run"@) == Some(Json::Bool(true)) ==> dry_run_line(data) == Some(
            "Dry run:    yes, violations are logged but nothing is killed"@,
        ),
        devices_line(data) == "Devices:    "@ + dec(uint_or_zero(data, "usb_devices"@) as nat)
            + " USB IDs, "@ + dec(uint_or_zero(data, "thunderbolt_devices"@) as nat)
            + " Thunderbolt, "@ + dec(uint_or_zero(data, "sdcard_devices"@) as nat) + " SD card, "@ + dec(
            uint_or_zero(data, "pci_devices"@) as nat,
        ) + " PCI"@,
        data.at("allowances"@) matches Some(Json::Array(v)) ==> (v@.len() > 0 ==> allowances_line(data)
            == Some("Allowances: "@ + joined(selectors_of(v@), ", "@))),
        data.at("pending_violation"@) matches Some(p) ==> (p is Object ==> pending_line(data) == Some(
            "Pending:    "@ + text_or(p, "bus"@, "unknown"@) + " violation in "@ + duration_text(
                uint_or_zero(p, "secs_left"@),
            ) + ": "@ + text_or(p, "reason"@, ""@),
        )),
        status_text(data) == joined(status_lines(data), "\n"@),
{
}

/// What a status leaves out counts as nought, or is said in the words that stand in for
/// it; the violations are always said.
pub proof fn what_is_left_out_counts_as_nought(data: Json, key: Seq<char>, other: Seq<char>)
    ensures
        !(data.at(key) matches Some(Json::Uint(_))) ==> uint_or_zero(data, key) == 0,
        data.at(key) matches Some(Json::Uint(n)) ==> uint_or_zero(data, key) == n,
        !(data.at(key) matches Some(Json::Str(_))) ==> text_or(data, key, other) == other,
        data.at(key) matches Some(Json::Str(s)) ==> text_or(data, key, other) == s@,
        data.uint_at("last_poll_ms_ago"@) is None ==> status_lines(data).last() == "Violations: "@ + dec(
            uint_or_zero(data, "violations_logged"@) as nat,
        ),
        data.uint_at("last_poll_ms_ago"@) is Some ==> status_lines(data)[status_lines(data).len() - 2]
            == "Violations: "@ + dec(uint_or_zero(data, "violations_logged"@) as nat),
{
}

} // verus!
