//! The daemon's status response as the GUI reads it, and the single state the
//! tray and the dashboard both show.

use vstd::prelude::*;

use crate::ipc::{duration_text, format_duration, BUSES};
use crate::json::Json;
use crate::number::{dec, decimal};
use crate::text::{cat2, cat3, cat4, cat5, same};

verus! {

/// A poll loop this far behind is treated as stuck: longer than the largest
/// allowed `sleep_ms` (10 s) plus a slow detection pass.
pub const STALL_MS: u64 = 30_000;

/// A grace period the daemon is waiting out.
#[derive(Debug, Clone, PartialEq, Eq)]
pub struct Pending {
    pub bus: String,
    pub reason: String,
    pub secs_left: u64,
}

/// The `data` object of a `status` response.
#[derive(Debug, PartialEq, Eq)]
pub struct Status {
    pub armed: bool,
    pub mode: String,
    pub uptime_secs: u64,
    pub disarm_remaining_secs: Option<u64>,
    pub usb_devices: u64,
    pub thunderbolt_devices: u64,
    pub sdcard_devices: u64,
    pub pci_devices: u64,
    pub violations_logged: u64,
    pub last_poll_ms_ago: Option<u64>,
    pub dry_run: bool,
    pub pending_violation: Option<Pending>,
    pub power_state: Option<String>,
    pub lid_state: Option<String>,
    pub network_links_down: Option<u64>,
    /// The file the daemon loaded, so the settings window reads the same one
    /// rather than guessing. Empty on a daemon that predates it.
    pub config_path: String,
    /// The daemon's version, for the diagnostics panel.
    pub version: String,
    /// Every other key, including the `*_watching` flags that `buses` reads.
    pub rest: Json,
}

impl Default for Status {
    fn default() -> (r: Status)
        ensures
            !r.armed && !r.dry_run,
            r.mode@.len() == 0 && r.config_path@.len() == 0 && r.version@.len() == 0,
            r.uptime_secs == 0 && r.violations_logged == 0,
            r.usb_devices == 0 && r.thunderbolt_devices == 0,
            r.sdcard_devices == 0 && r.pci_devices == 0,
            r.disarm_remaining_secs is None && r.last_poll_ms_ago is None,
            r.pending_violation is None && r.power_state is None && r.lid_state is None,
            r.network_links_down is None,
            r.rest matches Json::Object(e) && e@.len() == 0,
    {
        Status {
            armed: false,
            mode: String::new(),
            uptime_secs: 0,
            disarm_remaining_secs: None,
            usb_devices: 0,
            thunderbolt_devices: 0,
            sdcard_devices: 0,
            pci_devices: 0,
            violations_logged: 0,
            last_poll_ms_ago: None,
            dry_run: false,
            pending_violation: None,
            power_state: None,
            lid_state: None,
            network_links_down: None,
            config_path: String::new(),
            version: String::new(),
            rest: Json::Object(Vec::new()),
        }
    }
}

impl Status {
    /// Whether the daemon watches the bus at a position of `BUSES`.
    pub open spec fn watches(self, i: int) -> bool {
        self.rest.truth_at(BUSES@[i].0@) == Some(true)
    }

    /// Whether the daemon watches the bus at a position of `BUSES`.
    pub fn watching(&self, i: usize) -> (r: bool)
        requires
            i < 8,
        ensures
            r == self.watches(i as int),
    {
        match self.rest.get_bool(BUSES[i].0) {
            Some(b) => b,
            None => false,
        }
    }

    /// Every bus in `BUSES` order: its status key, its display name, and
    /// whether the daemon watches it.
    pub fn buses(&self) -> (r: Vec<(&'static str, &'static str, bool)>)
        ensures
            r@.len() == 8,
            forall|i: int|
                0 <= i < 8 ==> (#[trigger] r@[i]) == (BUSES@[i].0, BUSES@[i].1, self.watches(i)),
    {
        let mut out: Vec<(&'static str, &'static str, bool)> = Vec::new();
        let mut i: usize = 0;
        while i < 8
            invariant
                i <= 8,
                out@.len() == i,
                forall|k: int|
                    0 <= k < i ==> (#[trigger] out@[k]) == (
                        BUSES@[k].0,
                        BUSES@[k].1,
                        self.watches(k),
                    ),
            decreases 8 - i,
        {
            let bus = BUSES[i];
            out.push((bus.0, bus.1, self.watching(i)));
            i += 1;
        }
        out
    }
}

/// One entry of a bus listing: the line a client shows, and the topology path
/// the device sits at. The path is empty on a bus that has no topology, and on
/// a daemon old enough to still send bare lines.
#[derive(Debug, Clone, PartialEq, Eq)]
pub struct DeviceEntry {
    pub text: String,
    pub path: String,
}

impl DeviceEntry {
    /// An entry of a bare line, which carries no path.
    pub fn bare(text: &str) -> (r: DeviceEntry)
        ensures
            r.text@ == text@,
            r.path@.len() == 0,
    {
        DeviceEntry { text: text.to_owned(), path: String::new() }
    }
}

impl Default for DeviceEntry {
    fn default() -> (r: DeviceEntry)
        ensures
            r.text@.len() == 0,
            r.path@.len() == 0,
    {
        DeviceEntry { text: String::new(), path: String::new() }
    }
}

/// What one bus reports in a `devices` response: the same flag the status
/// response gives, and the entries the daemon sees on it.
#[derive(Debug, Clone, PartialEq, Eq)]
pub struct BusDevices {
    pub watched: bool,
    pub entries: Vec<DeviceEntry>,
    /// How many entries were dropped past the daemon's cap.
    pub more: u64,
}

impl Default for BusDevices {
    fn default() -> (r: BusDevices)
        ensures
            !r.watched,
            r.entries@.len() == 0,
            r.more == 0,
    {
        BusDevices { watched: false, entries: Vec::new(), more: 0 }
    }
}

/// One row of a `violations` response, newest first as the daemon sends them.
#[derive(Debug, Clone, PartialEq, Eq)]
pub struct Violation {
    /// When it happened, seconds since the epoch.
    pub at_unix: u64,
    /// The bus it came off: a device bus, or `power`, `network`, `lid`.
    pub bus: String,
    /// None for an event with nothing to identify: a lid close, a power
    /// unplug. Only a row with one can be whitelisted or allowed.
    pub selector: Option<String>,
    pub name: Option<String>,
    pub message: String,
}

impl Default for Violation {
    fn default() -> (r: Violation)
        ensures
            r.at_unix == 0,
            r.bus@.len() == 0 && r.message@.len() == 0,
            r.selector is None && r.name is None,
    {
        Violation {
            at_unix: 0,
            bus: String::new(),
            selector: None,
            name: None,
            message: String::new(),
        }
    }
}

/// The `violations` array of a `violations` response, newest first.
pub type Violations = Vec<Violation>;

/// The `buses` object of a `devices` response by short bus name (`usb`, `lid`,
/// ...), each once. A missing bus reads as not watched.
pub type Devices = Vec<(String, BusDevices)>;

/// What a devices response says about a bus, at or after position `i`.
pub open spec fn bus_from(d: Seq<(String, BusDevices)>, bus: Seq<char>, i: int) -> Option<
    BusDevices,
>
    decreases d.len() - i,
{
    if i >= d.len() || i < 0 {
        None
    } else if d[i].0@ == bus {
        Some(d[i].1)
    } else {
        bus_from(d, bus, i + 1)
    }
}

/// What a devices response says about a bus.
pub fn find_bus<'a>(devices: &'a [(String, BusDevices)], bus: &str) -> (r: Option<&'a BusDevices>)
    ensures
        match r {
            Some(b) => bus_from(devices@, bus@, 0) == Some(*b),
            None => bus_from(devices@, bus@, 0) is None,
        },
{
    let mut i: usize = 0;
    while i < devices.len()
        invariant
            i <= devices@.len(),
            bus_from(devices@, bus@, 0) == bus_from(devices@, bus@, i as int),
        decreases devices@.len() - i,
    {
        if same(devices[i].0.as_str(), bus) {
            return Some(&devices[i].1);
        }
        i += 1;
    }
    None
}

/// What the tray icon, the menu and the dashboard show. Exactly one applies.
#[derive(Debug, Clone, PartialEq, Eq)]
pub enum TrayState {
    /// No answer on the socket, or (`stalled`) the poll loop has stopped.
    Down { stalled: bool },
    Disarmed { secs_left: u64 },
    /// Enforce mode, not a dry run, and a grace period is running: the machine
    /// goes down when it ends.
    KillPending { bus: String, reason: String, secs_left: u64 },
    DryRun,
    Learning,
    Armed,
}

/// The state a status shows. Precedence: down, disarmed, stalled, kill pending,
/// dry run, learning, armed. Disarmed comes before stalled because the daemon
/// stops updating `last_poll` while disarmed.
pub open spec fn state_of(status: Option<Status>) -> TrayState {
    match status {
        None => TrayState::Down { stalled: false },
        Some(s) => if !s.armed {
            TrayState::Disarmed {
                secs_left: match s.disarm_remaining_secs {
                    Some(n) => n,
                    None => 0,
                },
            }
        } else if s.last_poll_ms_ago matches Some(ms) && ms > STALL_MS {
            TrayState::Down { stalled: true }
        } else if s.mode@ == "enforce"@ && !s.dry_run && s.pending_violation is Some {
            let p = s.pending_violation->0;
            TrayState::KillPending { bus: p.bus, reason: p.reason, secs_left: p.secs_left }
        } else if s.dry_run {
            TrayState::DryRun
        } else if s.mode@ == "learn"@ {
            TrayState::Learning
        } else {
            TrayState::Armed
        },
    }
}

/// A status that may be missing.
pub open spec fn seen(status: Option<&Status>) -> Option<Status> {
    match status {
        Some(s) => Some(*s),
        None => None,
    }
}

/// The short title of a state.
pub open spec fn title_of(t: TrayState) -> Seq<char> {
    match t {
        TrayState::Down { stalled } => if stalled {
            "Daemon not polling"@
        } else {
            "Daemon not running"@
        },
        TrayState::Disarmed { secs_left } => "Disarmed"@,
        TrayState::KillPending { bus, reason, secs_left } => "Kill in "@ + dec(secs_left as nat)
            + " s"@,
        TrayState::DryRun => "Dry run"@,
        TrayState::Learning => "Learning"@,
        TrayState::Armed => "Armed"@,
    }
}

/// The line of detail of a state.
pub open spec fn detail_of(t: TrayState, status: Option<Status>) -> Seq<char> {
    match t {
        TrayState::Down { stalled } => if stalled {
            "the socket answers but the poll loop has stopped"@
        } else {
            "no answer on the control socket"@
        },
        TrayState::Disarmed { secs_left } => "re-arms in "@ + duration_text(secs_left),
        TrayState::KillPending { bus, reason, secs_left } => reason@,
        TrayState::DryRun => "violations are logged, nothing is killed"@,
        TrayState::Learning => {
            let n = match status {
                Some(s) => s.violations_logged,
                None => 0,
            };
            if n == 0 {
                "not killing anything"@
            } else if n == 1 {
                "1 violation logged"@
            } else {
                dec(n as nat) + " violations logged"@
            }
        },
        TrayState::Armed => "enforce mode"@,
    }
}

impl TrayState {
    /// The state a status shows.
    pub fn from_status(status: Option<&Status>) -> (r: TrayState)
        ensures
            r == state_of(seen(status)),
    {
        let s = match status {
            Some(s) => s,
            None => {
                return TrayState::Down { stalled: false };
            },
        };
        if !s.armed {
            let secs_left: u64 = match s.disarm_remaining_secs {
                Some(n) => n,
                None => 0,
            };
            return TrayState::Disarmed { secs_left };
        }
        if let Some(ms) = s.last_poll_ms_ago {
            if ms > STALL_MS {
                return TrayState::Down { stalled: true };
            }
        }
        if same(s.mode.as_str(), "enforce") && !s.dry_run {
            if let Some(p) = &s.pending_violation {
                return TrayState::KillPending {
                    bus: p.bus.clone(),
                    reason: p.reason.clone(),
                    secs_left: p.secs_left,
                };
            }
        }
        if s.dry_run {
            return TrayState::DryRun;
        }
        if same(s.mode.as_str(), "learn") {
            return TrayState::Learning;
        }
        TrayState::Armed
    }

    /// A short title and one line of detail, shared by the menu header, the
    /// tooltip and the dashboard header.
    pub fn title_and_detail(&self, status: Option<&Status>) -> (r: (String, String))
        ensures
            r.0@ == title_of(*self),
            r.1@ == detail_of(*self, seen(status)),
    {
        match self {
            TrayState::Down { stalled } => if *stalled {
                (
                    "Daemon not polling".to_owned(),
                    "the socket answers but the poll loop has stopped".to_owned(),
                )
            } else {
                ("Daemon not running".to_owned(), "no answer on the control socket".to_owned())
            },
            TrayState::Disarmed { secs_left } => (
                "Disarmed".to_owned(),
                cat2("re-arms in ", format_duration(*secs_left).as_str()),
            ),
            TrayState::KillPending { bus: _, reason, secs_left } => (
                cat3("Kill in ", decimal(*secs_left).as_str(), " s"),
                reason.clone(),
            ),
            TrayState::DryRun => (
                "Dry run".to_owned(),
                "violations are logged, nothing is killed".to_owned(),
            ),
            TrayState::Learning => {
                let n: u64 = match status {
                    Some(s) => s.violations_logged,
                    None => 0,
                };
                let detail = if n == 0 {
                    "not killing anything".to_owned()
                } else if n == 1 {
                    "1 violation logged".to_owned()
                } else {
                    cat2(decimal(n).as_str(), " violations logged")
                };
                ("Learning".to_owned(), detail)
            },
            TrayState::Armed => ("Armed".to_owned(), "enforce mode".to_owned()),
        }
    }

    /// States a person should look at: nothing is protecting the machine, or
    /// it is about to go down.
    pub fn needs_attention(&self) -> (r: bool)
        ensures
            r == (self is Down || self is Disarmed || self is KillPending),
    {
        match self {
            TrayState::Down { .. } => true,
            TrayState::Disarmed { .. } => true,
            TrayState::KillPending { .. } => true,
            _ => false,
        }
    }
}

/// A machine that is armed, polling and neither learning nor on a dry run has
/// nothing that needs attention exactly when no grace period is running.
pub proof fn protected_means_no_attention(s: Status)
    requires
        s.armed,
        s.last_poll_ms_ago matches Some(ms) ==> ms <= STALL_MS,
        s.mode@ == "enforce"@,
        !s.dry_run,
    ensures
        s.pending_violation is None ==> state_of(Some(s)) == TrayState::Armed,
        s.pending_violation matches Some(p) ==> state_of(Some(s)) == (TrayState::KillPending {
            bus: p.bus,
            reason: p.reason,
            secs_left: p.secs_left,
        }),
{
    reveal_strlit("enforce");
    reveal_strlit("learn");
    assert("enforce"@.len() != "learn"@.len());
}

/// A grace period in learn mode or on a dry run is not shown as a kill.
pub proof fn nothing_is_killed_while_learning(s: Status)
    requires
        s.mode@ != "enforce"@ || s.dry_run,
    ensures
        !(state_of(Some(s)) is KillPending),
{
}

/// An uptime at the scale that matters.
pub open spec fn uptime_text(secs: u64) -> Seq<char> {
    let d = secs as nat / 86_400;
    let h = secs as nat % 86_400 / 3600;
    let m = secs as nat % 3600 / 60;
    if d > 0 {
        dec(d) + "d "@ + dec(h) + "h "@ + dec(m) + "m"@
    } else if h > 0 {
        dec(h) + "h "@ + dec(m) + "m"@
    } else if m > 0 {
        dec(m) + "m"@
    } else {
        dec(secs as nat) + "s"@
    }
}

/// How long the daemon has been up, for the places that only need the scale:
/// seconds while it is younger than a minute, then minutes, hours and days.
/// `format_duration` keeps the seconds where they matter, in the countdowns.
pub fn format_uptime(secs: u64) -> (r: String)
    ensures
        r@ == uptime_text(secs),
{
    let d = decimal(secs / 86_400);
    let h = decimal(secs % 86_400 / 3600);
    let m = decimal(secs % 3600 / 60);
    if secs / 86_400 > 0 {
        let mut out = cat5(d.as_str(), "d ", h.as_str(), "h ", m.as_str());
        out.push_str("m");
        out
    } else if secs % 86_400 / 3600 > 0 {
        cat4(h.as_str(), "h ", m.as_str(), "m")
    } else if secs % 3600 / 60 > 0 {
        cat2(m.as_str(), "m")
    } else {
        cat2(decimal(secs).as_str(), "s")
    }
}

/// The data of a reply that says the request went well.
pub fn reply_data(reply: &Json) -> (r: Option<&Json>)
    ensures
        match r {
            Some(d) => reply.truth_at("ok"@) == Some(true) && reply.at("data"@) == Some(*d),
            None => reply.truth_at("ok"@) != Some(true) || reply.at("data"@) is None,
        },
{
    match reply.get_bool("ok") {
        Some(ok) => if ok {
            reply.get("data")
        } else {
            None
        },
        None => None,
    }
}

/// The first thing that holds is what is shown: no answer, a disarm, a poll loop that
/// has not gone round for half a minute, a dry run, learning, a kill that waits, and
/// otherwise that all is armed. A kill waits only in enforce mode, where something would
/// be killed.
pub proof fn the_first_thing_that_holds_is_shown(s: Status)
    ensures
        state_of(None) == (TrayState::Down { stalled: false }),
        !s.armed ==> state_of(Some(s)) == (TrayState::Disarmed {
            secs_left: match s.disarm_remaining_secs {
                Some(n) => n,
                None => 0,
            },
        }),
        s.armed && (s.last_poll_ms_ago matches Some(ms) && ms > 30_000) ==> state_of(Some(s)) == (
        TrayState::Down { stalled: true }),
        s.armed && !(s.last_poll_ms_ago matches Some(ms) && ms > 30_000) ==> {
            &&& s.dry_run ==> state_of(Some(s)) == TrayState::DryRun
            &&& !s.dry_run && s.mode@ == "learn"@ ==> state_of(Some(s)) == TrayState::Learning
            &&& !s.dry_run && s.mode@ == "enforce"@ ==> state_of(Some(s))
                == match s.pending_violation {
                Some(p) => TrayState::KillPending {
                    bus: p.bus,
                    reason: p.reason,
                    secs_left: p.secs_left,
                },
                None => TrayState::Armed,
            }
            &&& !s.dry_run && s.mode@ != "learn"@ && s.mode@ != "enforce"@ ==> state_of(Some(s))
                == TrayState::Armed
        },
{
    reveal_strlit("enforce");
    reveal_strlit("learn");
    assert("enforce"@.len() != "learn"@.len());
}

/// An uptime is told in days, hours and minutes that add up to it to the minute, from
/// the first that is not nought on, and in seconds below a minute.
pub proof fn an_uptime_is_told_in_parts(d: nat, h: nat, m: nat, s: nat)
    requires
        h < 24,
        m < 60,
        s < 60,
        86400 * d + 3600 * h + 60 * m + s <= u64::MAX,
    ensures
        ({
            let told = uptime_text((86400 * d + 3600 * h + 60 * m + s) as u64);
            &&& d > 0 ==> told == dec(d) + "d "@ + dec(h) + "h "@ + dec(m) + "m"@
            &&& d == 0 && h > 0 ==> told == dec(h) + "h "@ + dec(m) + "m"@
            &&& d == 0 && h == 0 && m > 0 ==> told == dec(m) + "m"@
            &&& d == 0 && h == 0 && m == 0 ==> told == dec(s) + "s"@
        }),
{
    let all = (86400 * d + 3600 * h + 60 * m + s) as nat;
    assert(all / 86400 == d);
    assert(all % 86400 == 3600 * h + 60 * m + s);
    assert(all % 86400 / 3600 == h);
    assert(all % 3600 == 60 * m + s) by {
        assert(all == 3600 * (24 * d + h) + (60 * m + s));
    }
    assert(all % 3600 / 60 == m);
}

/// A bus is watched exactly where the daemon says so under the bus's own key.
pub proof fn a_bus_is_watched_under_its_key(s: Status)
    ensures
        s.watches(0) <==> s.rest.at("usb_watching"@) == Some(Json::Bool(true)),
        s.watches(1) <==> s.rest.at("thunderbolt_watching"@) == Some(Json::Bool(true)),
        s.watches(2) <==> s.rest.at("sdcard_watching"@) == Some(Json::Bool(true)),
        s.watches(3) <==> s.rest.at("power_watching"@) == Some(Json::Bool(true)),
        s.watches(4) <==> s.rest.at("network_watching"@) == Some(Json::Bool(true)),
        s.watches(5) <==> s.rest.at("lid_watching"@) == Some(Json::Bool(true)),
        s.watches(6) <==> s.rest.at("pci_watching"@) == Some(Json::Bool(true)),
        s.watches(7) <==> s.rest.at("display_watching"@) == Some(Json::Bool(true)),
{
}

/// The devices of a bus are those that are listed under its name first.
pub proof fn a_bus_is_found_by_its_name(d: Seq<(String, BusDevices)>, bus: Seq<char>, i: int)
    requires
        0 <= i,
    ensures
        bus_from(d, bus, i) is None <==> forall|k: int| i <= k < d.len() ==> (#[trigger] d[k]).0@ != bus,
        bus_from(d, bus, i) matches Some(x) ==> exists|at: int|
            i <= at < d.len() && (#[trigger] d[at]).0@ == bus && d[at].1 == x && forall|k: int|
                i <= k < at ==> (#[trigger] d[k]).0@ != bus,
    decreases d.len() - i,
{
    if i < d.len() {
        a_bus_is_found_by_its_name(d, bus, i + 1);
        if d[i].0@ == bus {
            assert(d[i].1 == bus_from(d, bus, i)->0);
        } else if bus_from(d, bus, i) is Some {
            let at = choose|at: int|
                i + 1 <= at < d.len() && (#[trigger] d[at]).0@ == bus && d[at].1 == bus_from(
                    d,
                    bus,
                    i + 1,
                )->0 && forall|k: int| i + 1 <= k < at ==> (#[trigger] d[k]).0@ != bus;
            assert(d[at].0@ == bus);
        }
    }
}

/// What the title says of each state.
pub proof fn a_state_has_its_title(secs_left: u64, bus: String, reason: String, status: Option<Status>)
    ensures
        title_of(TrayState::KillPending { bus, reason, secs_left }) == "Kill in "@ + dec(
            secs_left as nat,
        ) + " s"@,
        detail_of(TrayState::KillPending { bus, reason, secs_left }, status) == reason@,
        detail_of(TrayState::Disarmed { secs_left }, status) == "re-arms in "@ + duration_text(
            secs_left,
        ),
        title_of(TrayState::Disarmed { secs_left }) == "Disarmed"@,
        title_of(TrayState::Armed) == "Armed"@,
        title_of(TrayState::Learning) == "Learning"@,
        title_of(TrayState::DryRun) == "Dry run"@,
        title_of(TrayState::Down { stalled: true }) == "Daemon not polling"@,
        title_of(TrayState::Down { stalled: false }) == "Daemon not running"@,
        status matches Some(s) ==> (s.violations_logged > 1 ==> detail_of(
            TrayState::Learning,
            status,
        ) == dec(s.violations_logged as nat) + " violations logged"@),
        status matches Some(s) && s.violations_logged == 1 ==> detail_of(TrayState::Learning, status)
            == "1 violation logged"@,
{
}

} // verus!
