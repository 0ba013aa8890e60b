//! The diagnostics panel: the questions that cost an evening.
//!
//! Every answer comes from what is already on this machine: the status the
//! poll loop fetched, the socket's own permissions, this process's groups,
//! the session environment and a walk of /proc. Nothing here talks to the
//! daemon, and nothing here writes.

use vstd::prelude::*;

use crate::gui::status::{format_uptime, uptime_text, Status, TrayState, STALL_MS};
use crate::number::{all_digits, dec, decimal, digits_only, read, unsigned};
use crate::text::{
    after, before, begins, cat2, cat3, chars, contains_str, fields, holds, is, lines,
    lines_of, slice_views, split, split_once, stands_at, starts_with, text, trim, trimmed,
    words, words_of,
};

verus! {

/// Updates between two walks of /proc. The window updates about once a second;
/// a polkit agent started since it opened should turn up without a restart,
/// but not at the price of a walk every second.
pub const RESCAN_EVERY: u64 = 15;

/// What a check found.
#[derive(Debug, Clone, Copy, PartialEq, Eq, Structural)]
pub enum Verdict {
    Fine,
    /// Something to fix, and the check says what.
    Problem,
    /// We could not find out. Said as that, never guessed at.
    Unknown,
}

impl Verdict {
    /// The word for a verdict.
    pub open spec fn spelled(self) -> Seq<char> {
        match self {
            Verdict::Fine => "ok"@,
            Verdict::Problem => "problem"@,
            Verdict::Unknown => "unknown"@,
        }
    }

    /// The word in the panel and in the pasted report.
    pub fn word(self) -> (r: &'static str)
        ensures
            r@ == self.spelled(),
    {
        match self {
            Verdict::Fine => "ok",
            Verdict::Problem => "problem",
            Verdict::Unknown => "unknown",
        }
    }

    /// Which colour the word wears.
    pub fn css(self) -> (r: &'static str)
        ensures
            r@ == match self {
                Verdict::Fine => "ok"@,
                Verdict::Problem => "bad"@,
                Verdict::Unknown => "unsure"@,
            },
    {
        match self {
            Verdict::Fine => "ok",
            Verdict::Problem => "bad",
            Verdict::Unknown => "unsure",
        }
    }
}

/// One line of the panel: a question, a plain verdict, and where it fails the
/// one thing to do about it.
#[derive(Debug, Clone, PartialEq, Eq)]
pub struct Check {
    pub label: &'static str,
    pub verdict: Verdict,
    pub detail: String,
    pub fix: Option<String>,
}

/// What a check says.
pub struct Finding {
    pub label: Seq<char>,
    pub verdict: Verdict,
    pub detail: Seq<char>,
    pub fix: Option<Seq<char>>,
}

impl View for Check {
    type V = Finding;

    open spec fn view(&self) -> Finding {
        Finding {
            label: self.label@,
            verdict: self.verdict,
            detail: self.detail@,
            fix: match self.fix {
                Some(f) => Some(f@),
                None => None,
            },
        }
    }
}

/// Nothing to fix.
pub open spec fn fine(label: Seq<char>, detail: Seq<char>) -> Finding {
    Finding { label, verdict: Verdict::Fine, detail, fix: None }
}

/// Something to fix, and how.
pub open spec fn wrong(label: Seq<char>, detail: Seq<char>, fix: Seq<char>) -> Finding {
    Finding { label, verdict: Verdict::Problem, detail, fix: Some(fix) }
}

/// Could not be found out.
pub open spec fn unsure(label: Seq<char>, detail: Seq<char>) -> Finding {
    Finding { label, verdict: Verdict::Unknown, detail, fix: None }
}

fn ok(label: &'static str, detail: String) -> (r: Check)
    ensures
        r@ == fine(label@, detail@),
{
    Check { label, verdict: Verdict::Fine, detail, fix: None }
}

fn problem(label: &'static str, detail: String, fix: String) -> (r: Check)
    ensures
        r@ == wrong(label@, detail@, fix@),
{
    Check { label, verdict: Verdict::Problem, detail, fix: Some(fix) }
}

fn unknown(label: &'static str, detail: String) -> (r: Check)
    ensures
        r@ == unsure(label@, detail@),
{
    Check { label, verdict: Verdict::Unknown, detail, fix: None }
}

/// Everything the checks are computed from. Gathered off the widgets so the
/// verdicts are a function of it and need no bus, no socket and no display.
#[derive(Debug, PartialEq, Eq)]
pub struct Facts {
    pub socket: String,
    /// The daemon answered the last status fetch.
    pub reachable: bool,
    /// It answers, but its poll loop has stopped.
    pub stalled: bool,
    /// The group that owns the socket, named where /etc/group names it.
    pub socket_group: Option<String>,
    /// Whether this process holds that group. None when either side could not
    /// be read.
    pub in_socket_group: Option<bool>,
    /// From the config the daemon says it loaded. None when it reports no path
    /// or the file could not be read.
    pub require_auth: Option<bool>,
    /// None when /proc could not be walked, which is "cannot tell".
    pub polkit_agent: Option<bool>,
    pub seat: Option<String>,
    pub session: Option<String>,
    /// The last status the poll loop got, for the fields it carries.
    pub status: Option<Status>,
}

impl Default for Facts {
    fn default() -> (r: Facts)
        ensures
            r.socket@.len() == 0 && !r.reachable && !r.stalled,
            r.socket_group is None && r.in_socket_group is None && r.require_auth is None,
            r.polkit_agent is None && r.seat is None && r.session is None && r.status is None,
    {
        Facts {
            socket: String::new(),
            reachable: false,
            stalled: false,
            socket_group: None,
            in_socket_group: None,
            require_auth: None,
            polkit_agent: None,
            seat: None,
            session: None,
            status: None,
        }
    }
}

/// Whether the daemon answers.
pub open spec fn daemon_finding(f: Facts) -> Finding {
    if f.stalled {
        wrong(
            "Daemon"@,
            f.socket@ + " answers, but the poll loop has stopped"@,
            "look at why it stopped: journalctl -u plugkill -n 50"@,
        )
    } else if f.reachable {
        fine("Daemon"@, "answering on "@ + f.socket@)
    } else {
        wrong(
            "Daemon"@,
            "no answer on "@ + f.socket@,
            "start it: sudo systemctl start plugkill"@,
        )
    }
}

fn daemon(f: &Facts) -> (r: Check)
    ensures
        r@ == daemon_finding(*f),
{
    if f.stalled {
        return problem(
            "Daemon",
            cat2(f.socket.as_str(), " answers, but the poll loop has stopped"),
            "look at why it stopped: journalctl -u plugkill -n 50".to_owned(),
        );
    }
    if f.reachable {
        ok("Daemon", cat2("answering on ", f.socket.as_str()))
    } else {
        problem(
            "Daemon",
            cat2("no answer on ", f.socket.as_str()),
            "start it: sudo systemctl start plugkill".to_owned(),
        )
    }
}

/// Whether this process may talk to the socket.
pub open spec fn socket_group_finding(f: Facts) -> Finding {
    match f.socket_group {
        None => unsure("Socket group"@, "cannot read "@ + f.socket@),
        Some(group) => match f.in_socket_group {
            Some(true) => fine(
                "Socket group"@,
                "you are in "@ + group@ + ", which owns the socket"@,
            ),
            Some(false) => wrong(
                "Socket group"@,
                "you are not in "@ + group@ + ", which owns the socket"@,
                "sudo usermod -aG "@ + group@ + " $USER, then log out and back in"@,
            ),
            None => unsure(
                "Socket group"@,
                group@ + " owns the socket; your own groups are unreadable"@,
            ),
        },
    }
}

fn socket_group(f: &Facts) -> (r: Check)
    ensures
        r@ == socket_group_finding(*f),
{
    let group = match &f.socket_group {
        Some(group) => group.as_str(),
        None => {
            return unknown("Socket group", cat2("cannot read ", f.socket.as_str()));
        },
    };
    match f.in_socket_group {
        Some(true) => ok("Socket group", cat3("you are in ", group, ", which owns the socket")),
        Some(false) => problem(
            "Socket group",
            cat3("you are not in ", group, ", which owns the socket"),
            cat3("sudo usermod -aG ", group, " $USER, then log out and back in"),
        ),
        None => unknown(
            "Socket group",
            cat2(group, " owns the socket; your own groups are unreadable"),
        ),
    }
}

/// Whether commands ask for authentication. Both settings are the maintainer's
/// to make, so neither is a problem.
pub open spec fn require_auth_finding(f: Facts) -> Finding {
    match f.require_auth {
        Some(true) => fine(
            "Authentication"@,
            "require_auth is on: disarm, learn, reload and allow ask polkit"@,
        ),
        Some(false) => fine(
            "Authentication"@,
            "require_auth is off: every command runs unchallenged"@,
        ),
        None => unsure("Authentication"@, "the loaded config could not be read"@),
    }
}

fn require_auth(f: &Facts) -> (r: Check)
    ensures
        r@ == require_auth_finding(*f),
{
    match f.require_auth {
        Some(true) => ok(
            "Authentication",
            "require_auth is on: disarm, learn, reload and allow ask polkit".to_owned(),
        ),
        Some(false) => ok(
            "Authentication",
            "require_auth is off: every command runs unchallenged".to_owned(),
        ),
        None => unknown("Authentication", "the loaded config could not be read".to_owned()),
    }
}

/// Whether somebody can be asked. Without `require_auth` nothing ever prompts, so
/// a missing agent costs nothing and is not reported as a fault.
pub open spec fn polkit_agent_finding(f: Facts) -> Finding {
    match f.polkit_agent {
        Some(true) => fine("Polkit agent"@, "one is running for your user"@),
        Some(false) => if f.require_auth == Some(true) {
            wrong(
                "Polkit agent"@,
                "none found, and require_auth is on, so gated commands will be refused"@,
                "start your desktop's polkit agent, or run gated commands as root"@,
            )
        } else {
            fine("Polkit agent"@, "none found; nothing asks for one while require_auth is off"@)
        },
        None => unsure("Polkit agent"@, "/proc could not be walked to look for one"@),
    }
}

fn polkit_agent(f: &Facts) -> (r: Check)
    ensures
        r@ == polkit_agent_finding(*f),
{
    match f.polkit_agent {
        Some(true) => ok("Polkit agent", "one is running for your user".to_owned()),
        Some(false) => if let Some(true) = f.require_auth {
            problem(
                "Polkit agent",
                "none found, and require_auth is on, so gated commands will be refused".to_owned(),
                "start your desktop's polkit agent, or run gated commands as root".to_owned(),
            )
        } else {
            ok(
                "Polkit agent",
                "none found; nothing asks for one while require_auth is off".to_owned(),
            )
        },
        None => unknown(
            "Polkit agent",
            "/proc could not be walked to look for one".to_owned(),
        ),
    }
}

/// Whether the session has a seat to prompt on.
pub open spec fn seat_finding(f: Facts) -> Finding {
    match f.seat {
        Some(seat) => fine("Session seat"@, "this session is on "@ + seat@),
        None => match f.session {
            Some(id) => wrong(
                "Session seat"@,
                "session "@ + id@ + " has no seat, so polkit has nowhere to prompt"@,
                "run gated commands as root, or from a seated session"@,
            ),
            None => unsure("Session seat"@, "no logind session here: XDG_SESSION_ID is unset"@),
        },
    }
}

fn seat(f: &Facts) -> (r: Check)
    ensures
        r@ == seat_finding(*f),
{
    match &f.seat {
        Some(seat) => ok("Session seat", cat2("this session is on ", seat.as_str())),
        None => match &f.session {
            Some(id) => problem(
                "Session seat",
                cat3("session ", id.as_str(), " has no seat, so polkit has nowhere to prompt"),
                "run gated commands as root, or from a seated session".to_owned(),
            ),
            None => unknown(
                "Session seat",
                "no logind session here: XDG_SESSION_ID is unset".to_owned(),
            ),
        },
    }
}

/// How long ago the daemon last polled. It stops counting while it is disarmed,
/// so it then reports none.
pub open spec fn last_poll_finding(f: Facts) -> Finding {
    match f.status {
        None => unsure("Last poll"@, "the daemon has not answered"@),
        Some(s) => match s.last_poll_ms_ago {
            None => unsure("Last poll"@, "the daemon reports none"@),
            Some(ms) => if ms > STALL_MS {
                wrong(
                    "Last poll"@,
                    uptime_text(ms / 1000) + " ago, past the "@ + dec(STALL_MS as nat / 1000)
                        + " s a pass should ever take"@,
                    "look at why it stopped: journalctl -u plugkill -n 50"@,
                )
            } else {
                fine("Last poll"@, dec(ms as nat) + " ms ago"@)
            },
        },
    }
}

fn last_poll(f: &Facts) -> (r: Check)
    ensures
        r@ == last_poll_finding(*f),
{
    let status = match &f.status {
        Some(s) => s,
        None => {
            return unknown("Last poll", "the daemon has not answered".to_owned());
        },
    };
    match status.last_poll_ms_ago {
        None => unknown("Last poll", "the daemon reports none".to_owned()),
        Some(ms) => if ms > STALL_MS {
            let mut detail = cat3(
                format_uptime(ms / 1000).as_str(),
                " ago, past the ",
                decimal(STALL_MS / 1000).as_str(),
            );
            detail.push_str(" s a pass should ever take");
            problem(
                "Last poll",
                detail,
                "look at why it stopped: journalctl -u plugkill -n 50".to_owned(),
            )
        } else {
            ok("Last poll", cat2(decimal(ms).as_str(), " ms ago"))
        },
    }
}

/// How long the daemon has been up.
pub open spec fn uptime_finding(f: Facts) -> Finding {
    match f.status {
        Some(s) => fine("Uptime"@, uptime_text(s.uptime_secs)),
        None => unsure("Uptime"@, "the daemon has not answered"@),
    }
}

fn uptime(f: &Facts) -> (r: Check)
    ensures
        r@ == uptime_finding(*f),
{
    match &f.status {
        Some(s) => ok("Uptime", format_uptime(s.uptime_secs)),
        None => unknown("Uptime", "the daemon has not answered".to_owned()),
    }
}

/// The file the daemon loaded. One that does not report it says so: a guess here
/// is exactly the guess the field exists to remove.
pub open spec fn config_path_finding(f: Facts) -> Finding {
    match f.status {
        Some(s) => if s.config_path@.len() > 0 {
            fine("Config path"@, s.config_path@)
        } else {
            unsure("Config path"@, "this daemon does not report the file it loaded"@)
        },
        None => unsure("Config path"@, "the daemon has not answered"@),
    }
}

fn config_path(f: &Facts) -> (r: Check)
    ensures
        r@ == config_path_finding(*f),
{
    match &f.status {
        Some(s) => if !s.config_path.as_str().is_empty() {
            ok("Config path", s.config_path.clone())
        } else {
            unknown("Config path", "this daemon does not report the file it loaded".to_owned())
        },
        None => unknown("Config path", "the daemon has not answered".to_owned()),
    }
}

/// The daemon's version.
pub open spec fn daemon_version_finding(f: Facts) -> Finding {
    match f.status {
        Some(s) => if s.version@.len() > 0 {
            fine("Daemon version"@, s.version@)
        } else {
            unsure("Daemon version"@, "this daemon does not report its version"@)
        },
        None => unsure("Daemon version"@, "the daemon has not answered"@),
    }
}

fn daemon_version(f: &Facts) -> (r: Check)
    ensures
        r@ == daemon_version_finding(*f),
{
    match &f.status {
        Some(s) => if !s.version.as_str().is_empty() {
            ok("Daemon version", s.version.clone())
        } else {
            unknown("Daemon version", "this daemon does not report its version".to_owned())
        },
        None => unknown("Daemon version", "the daemon has not answered".to_owned()),
    }
}

/// The lines of the panel, top to bottom.
pub open spec fn findings(f: Facts, gui_version: Seq<char>) -> Seq<Finding> {
    seq![
        daemon_finding(f),
        socket_group_finding(f),
        require_auth_finding(f),
        polkit_agent_finding(f),
        seat_finding(f),
        last_poll_finding(f),
        uptime_finding(f),
        config_path_finding(f),
        daemon_version_finding(f),
        fine("GUI version"@, gui_version),
    ]
}

/// What checks say.
pub open spec fn said(checks: Seq<Check>) -> Seq<Finding> {
    checks.map_values(|c: Check| c@)
}

/// The panel, top to bottom. Same facts, same lines.
pub fn checks(f: &Facts, gui_version: &str) -> (r: Vec<Check>)
    ensures
        said(r@) == findings(*f, gui_version@),
{
    let mut out: Vec<Check> = Vec::new();
    out.push(daemon(f));
    out.push(socket_group(f));
    out.push(require_auth(f));
    out.push(polkit_agent(f));
    out.push(seat(f));
    out.push(last_poll(f));
    out.push(uptime(f));
    out.push(config_path(f));
    out.push(daemon_version(f));
    out.push(ok("GUI version", gui_version.to_owned()));
    assert(said(out@) =~= findings(*f, gui_version@));
    out
}

/// What a check takes up in the report.
pub open spec fn finding_text(c: Finding) -> Seq<char> {
    let line = "["@ + c.verdict.spelled() + "] "@ + c.label + ": "@ + c.detail + "\n"@;
    match c.fix {
        Some(fix) => line + "    fix: "@ + fix + "\n"@,
        None => line,
    }
}

/// The report of the first `n` checks.
pub open spec fn report_of(found: Seq<Finding>, n: int) -> Seq<char>
    decreases n,
{
    if n <= 0 {
        "plugkill diagnostics\n"@
    } else {
        report_of(found, n - 1) + finding_text(found[n - 1])
    }
}

/// The whole panel as text, for pasting into a bug report.
pub fn report(checks: &[Check]) -> (r: String)
    ensures
        r@ == report_of(said(checks@), checks@.len() as int),
{
    let mut out = "plugkill diagnostics\n".to_owned();
    let mut i: usize = 0;
    while i < checks.len()
        invariant
            i <= checks@.len(),
            out@ == report_of(said(checks@), i as int),
        decreases checks@.len() - i,
    {
        let check = &checks[i];
        let ghost sofar = out@;
        assert(said(checks@)[i as int] == check@);
        out.push_str("[");
        out.push_str(check.verdict.word());
        out.push_str("] ");
        out.push_str(check.label);
        out.push_str(": ");
        out.push_str(check.detail.as_str());
        out.push_str("\n");
        if let Some(fix) = &check.fix {
            out.push_str("    fix: ");
            out.push_str(fix.as_str());
            out.push_str("\n");
        }
        assert(out@ =~= sofar + finding_text(check@));
        i += 1;
    }
    out
}

/// The numbers among the first `n` words.
pub open spec fn numbers(words: Seq<Seq<char>>, n: int) -> Seq<u32>
    decreases n,
{
    if n <= 0 {
        Seq::empty()
    } else {
        match unsigned(words[n - 1], 10, u32::MAX as nat) {
            Some(v) => numbers(words, n - 1).push(v as u32),
            None => numbers(words, n - 1),
        }
    }
}

/// The gids on one line. Gid is real, effective, saved and fs; the first two are
/// what a file check uses.
pub open spec fn gids_on(line: Seq<char>) -> Seq<u32> {
    let found = words_of(after(line, ':'));
    if !line.contains(':') {
        Seq::empty()
    } else if before(line, ':') == "Gid"@ {
        numbers(
            found,
            if found.len() < 2 {
                found.len() as int
            } else {
                2
            },
        )
    } else if before(line, ':') == "Groups"@ {
        numbers(found, found.len() as int)
    } else {
        Seq::empty()
    }
}

/// The gids on the first `n` lines.
pub open spec fn gids_in(all: Seq<Seq<char>>, n: int) -> Seq<u32>
    decreases n,
{
    if n <= 0 {
        Seq::empty()
    } else {
        gids_in(all, n - 1) + gids_on(all[n - 1])
    }
}

/// The gids this process holds.
pub open spec fn gids_of(status: Seq<char>) -> Seq<u32> {
    gids_in(lines_of(status), lines_of(status).len() as int)
}

fn push_numbers(out: &mut Vec<u32>, found: &[&[char]], n: usize)
    requires
        n <= found@.len(),
    ensures
        final(out)@ == old(out)@ + numbers(slice_views(found@), n as int),
{
    let ghost start = out@;
    let ghost all = slice_views(found@);
    let mut i: usize = 0;
    assert(out@ =~= start + numbers(all, 0));
    while i < n
        invariant
            i <= n <= found@.len(),
            all == slice_views(found@),
            out@ == start + numbers(all, i as int),
        decreases n - i,
    {
        let ghost sofar = out@;
        assert(all[i as int] == found@[i as int]@);
        if let Some(v) = read(found[i], 10, u32::MAX as u64) {
            out.push(v as u32);
            assert(out@ =~= start + numbers(all, i as int).push(v as u32));
        }
        i += 1;
    }
}

/// The gids this process holds, as /proc/self/status lists them: its real and
/// effective gid, then its supplementary groups.
pub fn parse_gids(status: &str) -> (r: Vec<u32>)
    ensures
        r@ == gids_of(status@),
{
    let all_chars = chars(status);
    let all = lines(all_chars.as_slice());
    let ghost want = lines_of(status@);
    let mut gids: Vec<u32> = Vec::new();
    let mut i: usize = 0;
    assert(gids@ =~= gids_in(want, 0));
    while i < all.len()
        invariant
            i <= all@.len(),
            slice_views(all@) == want,
            want.len() == all@.len(),
            gids@ == gids_in(want, i as int),
        decreases all@.len() - i,
    {
        let line = all[i];
        let ghost sofar = gids@;
        assert(want[i as int] == line@);
        if let Some((key, rest)) = split_once(line, ':') {
            let found = words(rest);
            assert(slice_views(found@).len() == found@.len());
            if is(key, "Gid") {
                let n = if found.len() < 2 {
                    found.len()
                } else {
                    2
                };
                push_numbers(&mut gids, found.as_slice(), n);
            } else if is(key, "Groups") {
                push_numbers(&mut gids, found.as_slice(), found.len());
            }
        }
        assert(gids@ =~= sofar + gids_on(line@));
        i += 1;
    }
    gids
}

/// Whether a line of /etc/group names a gid: name:password:gid:members.
pub open spec fn names_gid(line: Seq<char>, gid: u32) -> bool {
    let f = fields(line, ':');
    f.len() >= 3 && unsigned(f[2], 10, u32::MAX as nat) == Some(gid as nat)
}

/// The name of a gid, from line `i` on.
pub open spec fn group_from(all: Seq<Seq<char>>, gid: u32, i: int) -> Option<Seq<char>>
    decreases all.len() - i,
{
    if i >= all.len() || i < 0 {
        None
    } else if names_gid(all[i], gid) {
        Some(fields(all[i], ':')[0])
    } else {
        group_from(all, gid, i + 1)
    }
}

/// The name of a gid, out of /etc/group. Only the name is wanted: it is what
/// the fix line has to tell a person to type.
pub fn group_name(etc_group: &str, gid: u32) -> (r: Option<String>)
    ensures
        match r {
            Some(name) => group_from(lines_of(etc_group@), gid, 0) == Some(name@),
            None => group_from(lines_of(etc_group@), gid, 0) is None,
        },
{
    let all_chars = chars(etc_group);
    let all = lines(all_chars.as_slice());
    let ghost want = lines_of(etc_group@);
    let mut i: usize = 0;
    while i < all.len()
        invariant
            i <= all@.len(),
            want == lines_of(etc_group@),
            slice_views(all@) == want,
            want.len() == all@.len(),
            group_from(want, gid, 0) == group_from(want, gid, i as int),
        decreases all@.len() - i,
    {
        let line = all[i];
        assert(want[i as int] == line@);
        let found = split(line, ':');
        assert(slice_views(found@).len() == found@.len());
        assert(slice_views(found@)[0] == found@[0]@);
        if found.len() >= 3 {
            assert(slice_views(found@)[2] == found@[2]@);
            if let Some(n) = read(found[2], 10, u32::MAX as u64) {
                if n == gid as u64 {
                    return Some(text(found[0]));
                }
            }
        }
        i += 1;
    }
    None
}

/// Whether a process name, as /proc spells it, is a polkit authentication agent.
pub open spec fn agent_comm(comm: Seq<char>) -> bool {
    let c = trimmed(comm);
    if c == "polkitd"@ || begins(c, "polkit-agent-he"@) {
        false
    } else {
        holds(c, "polkit"@) || holds(c, "policykit"@) || c == "gnome-shell"@
    }
}

/// Whether a process name is a polkit authentication agent.
///
/// /proc rather than the bus: the agent GNOME ships lives inside the shell and
/// owns no bus name of its own, so a name check would call it missing. polkitd
/// is the daemon being asked, not an agent, and polkit-agent-helper-1 is what
/// polkitd spawns mid-prompt, so neither counts.
pub fn is_agent_comm(comm: &str) -> (r: bool)
    ensures
        r == agent_comm(comm@),
{
    let all = chars(comm);
    let c = trim(all.as_slice());
    if is(c, "polkitd") || starts_with(c, "polkit-agent-he") {
        return false;
    }
    let name = text(c);
    contains_str(name.as_str(), "polkit") || contains_str(name.as_str(), "policykit") || is(
        c,
        "gnome-shell",
    )
}

/// One directory of /proc: its name, and the owner and the process name where
/// they could be read.
#[derive(Debug, Clone, PartialEq, Eq)]
pub struct Process {
    pub name: String,
    pub owner: Option<u32>,
    pub comm: Option<String>,
}

impl Process {
    /// Whether this is an agent that can prompt for a user. Another user's agent
    /// cannot prompt for this session.
    pub open spec fn is_agent_of(self, me: u32) -> bool {
        &&& all_digits(self.name@, 10)
        &&& self.owner == Some(me)
        &&& self.comm is Some && agent_comm(self.comm->0@)
    }
}

/// Whether one of these processes is an agent that can prompt for a user.
pub open spec fn has_agent(all: Seq<Process>, me: u32) -> bool {
    exists|i: int| 0 <= i < all.len() && (#[trigger] all[i]).is_agent_of(me)
}

/// Whether this user runs a polkit agent. None where /proc cannot be walked,
/// which is an answer of "cannot tell" rather than "no".
pub fn polkit_agent_running(me: Option<u32>, found: Option<&[Process]>) -> (r: Option<bool>)
    ensures
        match (me, found) {
            (Some(uid), Some(all)) => r == Some(has_agent(all@, uid)),
            _ => r is None,
        },
{
    let uid: u32 = match me {
        Some(uid) => uid,
        None => {
            return None;
        },
    };
    let all = match found {
        Some(all) => all,
        None => {
            return None;
        },
    };
    let mut i: usize = 0;
    while i < all.len()
        invariant
            i <= all@.len(),
            me == Some(uid),
            found == Some(all),
            forall|k: int| 0 <= k < i ==> !(#[trigger] all@[k]).is_agent_of(uid),
        decreases all@.len() - i,
    {
        let p = &all[i];
        let digits = chars(p.name.as_str());
        let mine = match p.owner {
            Some(o) => o == uid,
            None => false,
        };
        if mine && digits_only(digits.as_slice(), 10) {
            if let Some(comm) = &p.comm {
                if is_agent_comm(comm.as_str()) {
                    assert(all@[i as int].is_agent_of(uid));
                    return Some(true);
                }
            }
        }
        i += 1;
    }
    Some(false)
}

/// What does not come from the daemon. Read fresh every `RESCAN_EVERY`
/// updates, because an agent can start while the window is open.
#[derive(Debug, Clone, PartialEq, Eq)]
pub struct Env {
    pub socket_group: Option<String>,
    pub in_socket_group: Option<bool>,
    pub polkit_agent: Option<bool>,
    pub seat: Option<String>,
    pub session: Option<String>,
}

impl Default for Env {
    fn default() -> (r: Env)
        ensures
            r.socket_group is None && r.in_socket_group is None && r.polkit_agent is None,
            r.seat is None && r.session is None,
    {
        Env {
            socket_group: None,
            in_socket_group: None,
            polkit_agent: None,
            seat: None,
            session: None,
        }
    }
}

/// The group that owns the socket: its name, or its number where none is found.
pub open spec fn owner_name(gid: u32, etc_group: Option<Seq<char>>) -> Seq<char> {
    let named = match etc_group {
        Some(t) => group_from(lines_of(t), gid, 0),
        None => None,
    };
    match named {
        Some(name) => name,
        None => "gid "@ + dec(gid as nat),
    }
}

fn owner(gid: u32, etc_group: Option<&str>) -> (r: String)
    ensures
        r@ == owner_name(gid, crate::ipc::seen(etc_group)),
{
    if let Some(t) = etc_group {
        if let Some(name) = group_name(t, gid) {
            return name;
        }
    }
    cat2("gid ", decimal(gid as u64).as_str())
}

/// The group that owns the socket, and whether this process holds it, from the
/// socket's gid, the text of /proc/self/status and the text of /etc/group, each
/// missing where it could not be read.
pub fn socket_access(gid: Option<u32>, self_status: Option<&str>, etc_group: Option<&str>) -> (r: (
    Option<String>,
    Option<bool>,
))
    ensures
        match gid {
            Some(g) => {
                &&& r.0 matches Some(name) && name@ == owner_name(g, crate::ipc::seen(etc_group))
                &&& r.1 == match self_status {
                    Some(t) => Some(gids_of(t@).contains(g)),
                    None => None,
                }
            },
            None => r.0 is None && r.1 is None,
        },
{
    let g: u32 = match gid {
        Some(g) => g,
        None => {
            return (None, None);
        },
    };
    let mine = match self_status {
        Some(t) => {
            let held = parse_gids(t);
            let mut found = false;
            let mut i: usize = 0;
            while i < held.len()
                invariant
                    i <= held@.len(),
                    found == exists|k: int| 0 <= k < i && #[trigger] held@[k] == g,
                decreases held@.len() - i,
            {
                if held[i] == g {
                    found = true;
                    assert(held@[i as int] == g);
                }
                i += 1;
            }
            assert(found == held@.contains(g));
            Some(found)
        },
        None => None,
    };
    (Some(owner(g, etc_group)), mine)
}

/// A variable of the environment, missing where it is empty.
pub fn env_var(value: Option<String>) -> (r: Option<String>)
    ensures
        r == match value {
            Some(v) => if v@.len() > 0 {
                value
            } else {
                None
            },
            None => None,
        },
{
    match value {
        Some(v) => if v.as_str().is_empty() {
            None
        } else {
            Some(v)
        },
        None => None,
    }
}

/// Whether this update walks /proc again.
pub fn rescans(ticks: u64) -> (r: bool)
    ensures
        r == (ticks % RESCAN_EVERY == 0),
{
    ticks % RESCAN_EVERY == 0
}

/// What the checks are computed from, at one update.
pub fn facts(
    socket: &str,
    state: &TrayState,
    env: Env,
    require_auth: Option<bool>,
    status: Option<Status>,
) -> (r: Facts)
    ensures
        r.socket@ == socket@,
        r.reachable == !(state matches TrayState::Down { stalled: false }),
        r.stalled == (state matches TrayState::Down { stalled: true }),
        r.socket_group == env.socket_group,
        r.in_socket_group == env.in_socket_group,
        r.require_auth == require_auth,
        r.polkit_agent == env.polkit_agent,
        r.seat == env.seat,
        r.session == env.session,
        r.status == status,
{
    let (reachable, stalled) = match state {
        TrayState::Down { stalled } => (*stalled, *stalled),
        _ => (true, false),
    };
    Facts {
        socket: socket.to_owned(),
        reachable,
        stalled,
        socket_group: env.socket_group,
        in_socket_group: env.in_socket_group,
        require_auth,
        polkit_agent: env.polkit_agent,
        seat: env.seat,
        session: env.session,
        status,
    }
}

/// A line that reports a problem says what to do about it, and no other line
/// does.
pub proof fn a_problem_says_what_to_do(f: Facts, gui_version: Seq<char>, i: int)
    requires
        0 <= i < findings(f, gui_version).len(),
    ensures
        findings(f, gui_version)[i].verdict is Problem <==> findings(f, gui_version)[i].fix is Some,
{
}

/// Without a status, everything the status would have carried is unknown, not
/// invented.
pub proof fn silence_is_never_guessed_at(f: Facts, gui_version: Seq<char>, i: int)
    requires
        f.status is None,
        5 <= i < 9,
    ensures
        findings(f, gui_version)[i].verdict is Unknown,
{
}

/// The report carries the line of every check, with its fix.
pub proof fn the_report_carries_every_line(found: Seq<Finding>, i: int, n: int)
    requires
        0 <= i < n <= found.len(),
    ensures
        holds(report_of(found, n), finding_text(found[i])),
        begins(report_of(found, n), "plugkill diagnostics\n"@),
    decreases n,
{
    report_begins(found, n);
    let all = report_of(found, n);
    let last = finding_text(found[n - 1]);
    let front = report_of(found, n - 1);
    if i == n - 1 {
        assert(all.subrange(front.len() as int, (front.len() + last.len()) as int) =~= last);
        assert(stands_at(all, last, front.len() as int));
    } else {
        the_report_carries_every_line(found, i, n - 1);
        let line = finding_text(found[i]);
        let at = choose|k: int| #[trigger] stands_at(front, line, k);
        assert(all.subrange(at, at + line.len()) =~= front.subrange(at, at + line.len()));
        assert(stands_at(all, line, at));
    }
}

proof fn report_begins(found: Seq<Finding>, n: int)
    requires
        0 <= n <= found.len(),
    ensures
        begins(report_of(found, n), "plugkill diagnostics\n"@),
    decreases n,
{
    let head = "plugkill diagnostics\n"@;
    if n > 0 {
        report_begins(found, n - 1);
        let front = report_of(found, n - 1);
        assert(report_of(found, n).take(head.len() as int) =~= front.take(head.len() as int));
    } else {
        assert(head.take(head.len() as int) =~= head);
    }
}

/// What is a problem: a daemon that does not answer or has stopped polling, a socket of
/// a group that one is not in, no agent while commands are gated, a session without a
/// seat, and a last poll more than half a minute ago.
pub proof fn what_is_a_problem(f: Facts, gui_version: Seq<char>)
    ensures
        ({
            let all = findings(f, gui_version);
            &&& all.len() == 10
            &&& all[0].verdict is Problem <==> f.stalled || !f.reachable
            &&& all[0].verdict is Fine <==> !f.stalled && f.reachable
            &&& all[1].verdict is Problem <==> f.socket_group is Some && f.in_socket_group == Some(
                false,
            )
            &&& all[1].verdict is Fine <==> f.socket_group is Some && f.in_socket_group == Some(true)
            &&& all[2].verdict is Fine <==> f.require_auth is Some
            &&& all[3].verdict is Problem <==> f.polkit_agent == Some(false) && f.require_auth
                == Some(true)
            &&& all[3].verdict is Unknown <==> f.polkit_agent is None
            &&& all[4].verdict is Problem <==> f.seat is None && f.session is Some
            &&& all[4].verdict is Fine <==> f.seat is Some
            &&& all[5].verdict is Problem <==> (f.status matches Some(s) && (
            s.last_poll_ms_ago matches Some(ms) && ms > 30_000))
            &&& all[5].verdict is Fine <==> (f.status matches Some(s) && (
            s.last_poll_ms_ago matches Some(ms) && ms <= 30_000))
            &&& all[6].verdict is Fine <==> f.status is Some
            &&& all[7].verdict is Fine <==> (f.status matches Some(s) && s.config_path@.len() > 0)
            &&& all[8].verdict is Fine <==> (f.status matches Some(s) && s.version@.len() > 0)
            &&& all[9].verdict is Fine && all[9].detail == gui_version
        }),
{
    if let Some(b) = f.in_socket_group {
        assert(b == true || b == false);
    }
    if let Some(b) = f.require_auth {
        assert(b == true || b == false);
    }
    if let Some(b) = f.polkit_agent {
        assert(b == true || b == false);
    }
}

/// A program is an agent exactly where its name, trimmed, speaks of polkit or policykit
/// or is the shell that brings one, and is neither the daemon nor the helper.
pub proof fn a_program_is_an_agent_exactly_when(comm: Seq<char>)
    ensures
        ({
            let c = trimmed(comm);
            agent_comm(comm) <==> c != "polkitd"@ && !begins(c, "polkit-agent-he"@) && (holds(
                c,
                "polkit"@,
            ) || holds(c, "policykit"@) || c == "gnome-shell"@)
        }),
{
}

/// An agent counts where a process of one's own is one; others', and entries that are no
/// processes, do not.
pub proof fn an_agent_of_ones_own_counts(all: Seq<Process>, me: u32)
    ensures
        has_agent(all, me) <==> exists|i: int|
            0 <= i < all.len() && (forall|k: int|
                0 <= k < (#[trigger] all[i]).name@.len() ==> 48 <= #[trigger] all[i].name@[k] as u32
                    && all[i].name@[k] as u32 <= 57) && all[i].owner == Some(me) && (
            all[i].comm matches Some(c) && agent_comm(c@)),
{
    assert forall|i: int| 0 <= i < all.len() implies (all_digits((#[trigger] all[i]).name@, 10) <==> (
    forall|k: int|
        0 <= k < all[i].name@.len() ==> 48 <= #[trigger] all[i].name@[k] as u32 && all[i].name@[k] as u32
            <= 57)) by {
        let s = all[i].name@;
        assert forall|k: int| 0 <= k < s.len() implies (crate::number::digit_value(#[trigger] s[k]) < 10
            <==> 48 <= s[k] as u32 && s[k] as u32 <= 57) by {}
    }
    if has_agent(all, me) {
        let i = choose|i: int| 0 <= i < all.len() && (#[trigger] all[i]).is_agent_of(me);
        assert(all_digits(all[i].name@, 10));
    }
    if exists|i: int|
        0 <= i < all.len() && (forall|k: int|
            0 <= k < (#[trigger] all[i]).name@.len() ==> 48 <= #[trigger] all[i].name@[k] as u32
                && all[i].name@[k] as u32 <= 57) && all[i].owner == Some(me) && (
        all[i].comm matches Some(c) && agent_comm(c@)) {
        let i = choose|i: int|
            0 <= i < all.len() && (forall|k: int|
                0 <= k < (#[trigger] all[i]).name@.len() ==> 48 <= #[trigger] all[i].name@[k] as u32
                    && all[i].name@[k] as u32 <= 57) && all[i].owner == Some(me) && (
            all[i].comm matches Some(c) && agent_comm(c@));
        assert(all_digits(all[i].name@, 10));
        assert(all[i].is_agent_of(me));
    }
}

/// The group ids that a line gives: the first two of the `Gid` line, all of the `Groups`
/// line, and none of any other.
pub proof fn a_line_gives_group_ids(key: Seq<char>, rest: Seq<char>)
    requires
        !key.contains(':'),
    ensures
        ({
            let line = key + seq![':'] + rest;
            let w = words_of(rest);
            &&& key == "Gid"@ && w.len() >= 2 ==> gids_on(line) == numbers(w, 2)
            &&& key == "Gid"@ && w.len() < 2 ==> gids_on(line) == numbers(w, w.len() as int)
            &&& key == "Groups"@ ==> gids_on(line) == numbers(w, w.len() as int)
            &&& key != "Gid"@ && key != "Groups"@ ==> gids_on(line).len() == 0
            &&& gids_on(key).len() == 0
        }),
{
    crate::text::cut(key, ':', rest);
    reveal_strlit("Gid");
    reveal_strlit("Groups");
    assert("Gid"@.len() != "Groups"@.len());
}

/// The numbers among words are those that are read, in order.
pub proof fn each_number_is_read(words: Seq<Seq<char>>, n: int, x: u32)
    requires
        0 <= n <= words.len(),
    ensures
        numbers(words, n).contains(x) <==> exists|i: int|
            0 <= i < n && unsigned(#[trigger] words[i], 10, 4294967295) == Some(x as nat),
    decreases n,
{
    if n > 0 {
        each_number_is_read(words, n - 1, x);
        let front = numbers(words, n - 1);
        let all = numbers(words, n);
        if front.contains(x) {
            let k = choose|k: int| 0 <= k < front.len() && front[k] == x;
            assert(all[k] == x);
        }
        if all.contains(x) {
            let k = choose|k: int| 0 <= k < all.len() && all[k] == x;
            if k < front.len() {
                assert(front[k] == x);
                assert(front.contains(x));
            } else {
                assert(unsigned(words[n - 1], 10, u32::MAX as nat) == Some(x as nat));
            }
        }
        if unsigned(words[n - 1], 10, u32::MAX as nat) == Some(x as nat) {
            assert(all[front.len() as int] == x);
        }
    }
}

/// One holds the groups of every line of the status.
pub proof fn the_groups_of_every_line(all: Seq<Seq<char>>, n: int, x: u32)
    requires
        0 <= n <= all.len(),
    ensures
        gids_in(all, n).contains(x) <==> exists|i: int|
            0 <= i < n && gids_on(#[trigger] all[i]).contains(x),
    decreases n,
{
    if n > 0 {
        the_groups_of_every_line(all, n - 1, x);
        let front = gids_in(all, n - 1);
        let last = gids_on(all[n - 1]);
        let both = front + last;
        if front.contains(x) {
            let k = choose|k: int| 0 <= k < front.len() && front[k] == x;
            assert(both[k] == x);
        }
        if last.contains(x) {
            let k = choose|k: int| 0 <= k < last.len() && last[k] == x;
            assert(both[front.len() + k] == x);
        }
        if both.contains(x) {
            let k = choose|k: int| 0 <= k < both.len() && both[k] == x;
            if k < front.len() {
                assert(front[k] == x);
            } else {
                assert(last[k - front.len()] == x);
            }
        }
    }
}

/// A group is named by the first line whose third field is its id, and by its number
/// where there is no such line.
pub proof fn a_group_is_named_by_its_line(text: Seq<char>, gid: u32)
    ensures
        ({
            let ls = lines_of(text);
            &&& (forall|i: int| 0 <= i < ls.len() ==> !names_gid(#[trigger] ls[i], gid)) ==> owner_name(
                gid,
                Some(text),
            ) == "gid "@ + dec(gid as nat)
            &&& forall|i: int|
                0 <= i < ls.len() && fields(#[trigger] ls[i], ':').len() >= 3 && unsigned(
                    fields(ls[i], ':')[2],
                    10,
                    4294967295,
                ) == Some(gid as nat) && (forall|k: int| 0 <= k < i ==> !names_gid(#[trigger] ls[k], gid))
                    ==> owner_name(gid, Some(text)) == fields(ls[i], ':')[0]
            &&& owner_name(gid, None) == "gid "@ + dec(gid as nat)
        }),
{
    let ls = lines_of(text);
    if forall|i: int| 0 <= i < ls.len() ==> !names_gid(#[trigger] ls[i], gid) {
        no_group_from(ls, gid, 0);
    }
    assert forall|i: int|
        0 <= i < ls.len() && fields(#[trigger] ls[i], ':').len() >= 3 && unsigned(
            fields(ls[i], ':')[2],
            10,
            4294967295,
        ) == Some(gid as nat) && (forall|k: int|
            0 <= k < i ==> !names_gid(#[trigger] ls[k], gid)) implies owner_name(gid, Some(text))
        == fields(ls[i], ':')[0] by {
        group_is_at(ls, gid, 0, i);
    }
}

proof fn group_is_at(all: Seq<Seq<char>>, gid: u32, from: int, i: int)
    requires
        0 <= from <= i < all.len(),
        names_gid(all[i], gid),
        forall|k: int| from <= k < i ==> !names_gid(#[trigger] all[k], gid),
    ensures
        group_from(all, gid, from) == Some(fields(all[i], ':')[0]),
    decreases i - from,
{
    if from < i {
        group_is_at(all, gid, from + 1, i);
    }
}

proof fn no_group_from(all: Seq<Seq<char>>, gid: u32, from: int)
    requires
        0 <= from,
        forall|k: int| from <= k < all.len() ==> !names_gid(#[trigger] all[k], gid),
    ensures
        group_from(all, gid, from) is None,
    decreases all.len() - from,
{
    if from < all.len() {
        no_group_from(all, gid, from + 1);
    }
}

/// A finding is printed with its verdict, its label and its detail, and with what to do
/// where there is something.
pub proof fn a_finding_is_printed_so(label: Seq<char>, detail: Seq<char>, fix: Seq<char>)
    ensures
        finding_text(Finding { label, verdict: Verdict::Fine, detail, fix: None }) == "[ok] "@ + label
            + ": "@ + detail + "\n"@,
        finding_text(Finding { label, verdict: Verdict::Unknown, detail, fix: None }) == "[unknown] "@
            + label + ": "@ + detail + "\n"@,
        finding_text(Finding { label, verdict: Verdict::Problem, detail, fix: Some(fix) })
            == "[problem] "@ + label + ": "@ + detail + "\n"@ + "    fix: "@ + fix + "\n"@,
{
    reveal_strlit("[");
    reveal_strlit("] ");
    reveal_strlit("ok");
    reveal_strlit("unknown");
    reveal_strlit("problem");
    reveal_strlit("[ok] ");
    reveal_strlit("[unknown] ");
    reveal_strlit("[problem] ");
    assert("["@ + "ok"@ + "] "@ =~= "[ok] "@);
    assert("["@ + "unknown"@ + "] "@ =~= "[unknown] "@);
    assert("["@ + "problem"@ + "] "@ =~= "[problem] "@);
}

/// One holds a group exactly where some line of one's status gives it.
pub proof fn one_holds_what_a_line_gives(status: Seq<char>, x: u32)
    ensures
        gids_of(status).contains(x) <==> exists|i: int|
            0 <= i < lines_of(status).len() && gids_on(#[trigger] lines_of(status)[i]).contains(x),
{
    the_groups_of_every_line(lines_of(status), lines_of(status).len() as int, x);
}

} // verus!
