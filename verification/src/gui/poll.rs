//! When the poll loop fetches what, and when things on screen go stale.

use vstd::prelude::*;

use crate::gui::status::{Devices, Status, TrayState, Violations};

verus! {

/// Loop tick and blink half-period, in milliseconds. Status is fetched every
/// second tick.
pub const TICK_MS: u64 = 500;

/// How many nanoseconds a command notice stays on screen. It says what one
/// command did, not what the daemon is doing, so it goes stale on its own.
pub const NOTICE_TTL_NANOS: u128 = 30_000_000_000;

/// Whether a notice that has been up for `elapsed` nanoseconds is to drop.
pub fn notice_expired(elapsed: u128) -> (r: bool)
    ensures
        r == (elapsed > NOTICE_TTL_NANOS),
        r == (elapsed > 30_000_000_000),
{
    elapsed > NOTICE_TTL_NANOS
}

/// What the poll loop hands to the dashboard and the settings window.
/// `devices` and `violations` are None on the ticks that skip them, and
/// `violations` is never fetched while the settings window is closed; both
/// windows then keep what they already show.
#[derive(Debug, PartialEq, Eq)]
pub struct Update {
    pub state: TrayState,
    pub status: Option<Status>,
    pub devices: Option<Devices>,
    pub violations: Option<Violations>,
}

/// The next blink phase: toggles while a kill is pending, rests off otherwise.
pub fn next_blink(state: &TrayState, blink_on: bool) -> (r: bool)
    ensures
        r == (state is KillPending && !blink_on),
{
    match state {
        TrayState::KillPending { .. } => !blink_on,
        _ => false,
    }
}

/// Whether a tick asks for the status.
pub fn fetches_status(tick: u64) -> (r: bool)
    ensures
        r == (tick % 2 == 0),
{
    tick % 2 == 0
}

/// What this tick fetches past the status: whether to walk the buses, and
/// whether to ask for the violation history. The buses are walked every fourth
/// tick while a window that shows devices is open, plus the tick either window
/// opens on, so a reopened window is not showing the lists from the last time
/// it was up. Only the settings window shows violations.
pub fn fetches(
    tick: u64,
    dashboard: bool,
    settings: bool,
    was_dashboard: bool,
    was_settings: bool,
) -> (r: (bool, bool))
    ensures
        r.0 == ((dashboard || settings) && (tick % 4 == 0 || (dashboard && !was_dashboard) || (
        settings && !was_settings))),
        r.1 == (r.0 && settings),
{
    let opened = (dashboard && !was_dashboard) || (settings && !was_settings);
    let walk = (dashboard || settings) && (tick % 4 == 0 || opened);
    (walk, walk && settings)
}

/// The poll loop between two ticks.
#[derive(Debug, PartialEq, Eq)]
pub struct Poller {
    pub tick: u64,
    pub was_dashboard: bool,
    pub was_settings: bool,
    pub blink_on: bool,
}

/// Whether a tick took the loop from one state to the next.
pub open spec fn stepped(
    from: Poller,
    to: Poller,
    r: Tick,
    state: TrayState,
    notice_age: Option<u128>,
    dashboard: bool,
    settings: bool,
) -> bool {
    let even = from.tick % 2 == 0;
    let opened = (dashboard && !from.was_dashboard) || (settings && !from.was_settings);
    &&& r.blink == (state is KillPending && !from.blink_on)
    &&& r.drop_notice == (notice_age matches Some(age) && age > NOTICE_TTL_NANOS)
    &&& r.fetch_status == even
    &&& r.walk == (even && (dashboard || settings) && (from.tick % 4 == 0 || opened))
    &&& r.violations == (r.walk && settings)
    &&& to.blink_on == r.blink
    &&& to.tick == (if from.tick == u64::MAX {
        0
    } else {
        (from.tick + 1) as u64
    })
    &&& to.was_dashboard == (if even {
        dashboard
    } else {
        from.was_dashboard
    })
    &&& to.was_settings == (if even {
        settings
    } else {
        from.was_settings
    })
}

/// What one tick does.
#[derive(Debug, Clone, Copy, PartialEq, Eq, Structural)]
pub struct Tick {
    /// The blink phase to show, before anything that can wait on the daemon.
    pub blink: bool,
    /// Whether the notice on screen is to drop.
    pub drop_notice: bool,
    pub fetch_status: bool,
    /// Whether to walk the buses, once the windows carry this tick's status.
    pub walk: bool,
    /// Whether to ask for the violation history.
    pub violations: bool,
}

impl Poller {
    /// A loop that has not ticked.
    pub fn new() -> (r: Poller)
        ensures
            r.tick == 0,
            !r.was_dashboard && !r.was_settings && !r.blink_on,
    {
        Poller { tick: 0, was_dashboard: false, was_settings: false, blink_on: false }
    }

    /// One tick. `notice_age` is how long the notice on screen has been up, in
    /// nanoseconds, and the flags say which windows are on screen. Windows are only
    /// looked at on the ticks that fetch the status.
    pub fn step(
        &mut self,
        state: &TrayState,
        notice_age: Option<u128>,
        dashboard: bool,
        settings: bool,
    ) -> (r: Tick)
        ensures
            r.blink == (state is KillPending && !old(self).blink_on),
            r.drop_notice == (notice_age matches Some(age) && age > NOTICE_TTL_NANOS),
            r.fetch_status == (old(self).tick % 2 == 0),
            r.walk == (r.fetch_status && (dashboard || settings) && (old(self).tick % 4 == 0 || (
            dashboard && !old(self).was_dashboard) || (settings && !old(self).was_settings))),
            r.violations == (r.walk && settings),
            final(self).blink_on == r.blink,
            final(self).tick == (if old(self).tick == u64::MAX {
                0
            } else {
                (old(self).tick + 1) as u64
            }),
            final(self).was_dashboard == if r.fetch_status {
                dashboard
            } else {
                old(self).was_dashboard
            },
            final(self).was_settings == if r.fetch_status {
                settings
            } else {
                old(self).was_settings
            },
            stepped(*old(self), *final(self), r, *state, notice_age, dashboard, settings),
    {
        self.blink_on = next_blink(state, self.blink_on);
        let drop_notice = match notice_age {
            Some(age) => notice_expired(age),
            None => false,
        };
        let fetch_status = fetches_status(self.tick);
        let (mut walk, mut violations) = (false, false);
        if fetch_status {
            let asked = fetches(
                self.tick,
                dashboard,
                settings,
                self.was_dashboard,
                self.was_settings,
            );
            walk = asked.0;
            violations = asked.1;
            self.was_dashboard = dashboard;
            self.was_settings = settings;
        }
        self.tick = if self.tick == u64::MAX {
            0
        } else {
            self.tick + 1
        };
        Tick { blink: self.blink_on, drop_notice, fetch_status, walk, violations }
    }
}

/// Of two ticks one asks for the status, so it is asked for once a second.
pub proof fn the_status_is_asked_for_every_other_tick(
    a: Poller,
    b: Poller,
    c: Poller,
    r: Tick,
    q: Tick,
    s: TrayState,
    t: TrayState,
)
    requires
        stepped(a, b, r, s, None, false, false),
        stepped(b, c, q, t, None, false, false),
    ensures
        r.fetch_status != q.fetch_status,
        !r.walk && !r.violations,
        TICK_MS == 500,
{
}

/// While a kill is pending the light goes on and off by turns, and otherwise it is off.
pub proof fn the_light_blinks_by_turns(
    a: Poller,
    b: Poller,
    c: Poller,
    r: Tick,
    q: Tick,
    s: TrayState,
    t: TrayState,
    age: Option<u128>,
)
    requires
        stepped(a, b, r, s, age, false, false),
        stepped(b, c, q, t, age, false, false),
    ensures
        s is KillPending && t is KillPending ==> r.blink != q.blink,
        !(s is KillPending) ==> !r.blink && !b.blink_on,
        !(s is KillPending) && t is KillPending ==> q.blink,
{
}

/// The buses are walked only while a window is open, at once when one opens, and every
/// fourth tick from then on; violations are asked for only with the settings open. A
/// notice stays for half a minute.
pub proof fn the_buses_are_walked_for_a_window(
    a: Poller,
    b: Poller,
    r: Tick,
    s: TrayState,
    age: Option<u128>,
    dashboard: bool,
    settings: bool,
)
    requires
        stepped(a, b, r, s, age, dashboard, settings),
    ensures
        r.walk ==> (dashboard || settings) && r.fetch_status,
        !dashboard && !settings ==> !r.walk,
        r.fetch_status && dashboard && !a.was_dashboard ==> r.walk,
        r.fetch_status && settings && !a.was_settings ==> r.walk && r.violations,
        a.tick % 4 == 0 && (dashboard || settings) ==> r.walk,
        a.tick % 4 != 0 && dashboard == a.was_dashboard && settings == a.was_settings ==> !r.walk,
        r.violations <==> r.walk && settings,
        r.drop_notice <==> (age matches Some(n) && n > 30_000_000_000),
{
}

} // verus!
