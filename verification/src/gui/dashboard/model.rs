//! What the dashboard shows, computed from the state without touching widgets.

use vstd::prelude::*;

use crate::gui::commands::DISARM_PRESETS;
use crate::gui::status::{
    bus_from, detail_of, find_bus, format_uptime, seen, title_of, uptime_text, BusDevices,
    DeviceEntry, Status, TrayState,
};
use crate::ipc::BUSES;
use crate::number::{dec, decimal, digit, digit_char};
use crate::text::{
    cat2, cat3, cat4, chars, ends, ends_with, join, joined, part, same, text, views,
};

verus! {

#[derive(Debug, PartialEq, Eq)]
pub enum Body {
    /// Armed, learning or dry run: pick a disarm duration.
    Presets,
    /// Disarmed: a ring that empties towards re-arming.
    Countdown { secs_left: u64, total_secs: u64 },
    /// Enforce mode with a grace period running.
    KillPending { secs_left: u64, reason: String, hint: String },
    /// No daemon to control.
    Down { message: String },
}

#[derive(Debug, PartialEq, Eq)]
pub struct Tile {
    pub icon: &'static str,
    pub name: &'static str,
    pub value: String,
    pub watched: bool,
}

#[derive(Debug, PartialEq, Eq)]
pub struct Model {
    pub icon: &'static str,
    pub title: String,
    pub detail: String,
    /// Header pill text and the CSS class that colours it.
    pub pill: (&'static str, &'static str),
    /// The mode switch position, or None to hide it.
    pub mode_learn: Option<bool>,
    pub body: Body,
    pub watching: String,
    pub tiles: Vec<Tile>,
    pub footer: String,
}

/// The pill's text and class for a state.
pub open spec fn pill_of(t: TrayState) -> (Seq<char>, Seq<char>) {
    match t {
        TrayState::Down { stalled } => ("offline"@, "pill-down"@),
        TrayState::Disarmed { secs_left } => ("disarmed"@, "pill-disarmed"@),
        TrayState::KillPending { bus, reason, secs_left } => ("kill pending"@, "pill-pending"@),
        TrayState::DryRun => ("dry run"@, "pill-learning"@),
        TrayState::Learning => ("learn"@, "pill-learning"@),
        TrayState::Armed => ("enforce"@, "pill-armed"@),
    }
}

/// Whether the body is the one for a state.
pub open spec fn body_for(b: Body, t: TrayState) -> bool {
    match t {
        TrayState::Down { stalled } => b matches Body::Down { message } && message@ == if stalled {
            "The daemon answers, but its poll loop has stopped, so nothing is being checked."@
        } else {
            "Nothing is being watched. The tray keeps retrying every second."@
        },
        TrayState::Disarmed { secs_left } => b == (Body::Countdown {
            secs_left,
            total_secs: ring_total(secs_left),
        }),
        TrayState::KillPending { bus, reason, secs_left } => b matches Body::KillPending {
            secs_left: n,
            reason: why,
            hint,
        } && n == secs_left && why == reason && hint@ == hint_for(bus@),
        _ => b is Presets,
    }
}

/// How many of the first `n` buses are watched.
pub open spec fn watched_count(s: Status, n: int) -> nat
    decreases n,
{
    if n <= 0 {
        0
    } else {
        watched_count(s, n - 1) + if s.watches(n - 1) {
            1nat
        } else {
            0nat
        }
    }
}

/// Whether a tile is the one for the bus at a position of `BUSES`. "Power
/// supply" is ellipsized beside "on battery" in a half-width tile.
pub open spec fn tile_for(t: Tile, s: Status, i: int) -> bool {
    &&& t.icon@ == icon_for(BUSES@[i].0@)
    &&& t.name@ == if BUSES@[i].0@ == "power_watching"@ {
        "Power"@
    } else {
        BUSES@[i].1@
    }
    &&& t.value@ == value_text(s, BUSES@[i].0@, s.watches(i))
    &&& t.watched == s.watches(i)
}

/// The footer: how long it has been up, and how many violations it logged.
pub open spec fn footer_text(s: Status) -> Seq<char> {
    "Up "@ + uptime_text(s.uptime_secs) + " \u{b7} "@ + if s.violations_logged == 1 {
        "1 violation"@
    } else {
        dec(s.violations_logged as nat) + " violations"@
    }
}

/// Whether a model is the one for a state and a status.
pub open spec fn model_for(m: Model, t: TrayState, status: Option<Status>) -> bool {
    &&& m.title@ == title_of(t)
    &&& m.detail@ == detail_of(t, status)
    &&& (m.pill.0@, m.pill.1@) == pill_of(t)
    &&& body_for(m.body, t)
    &&& match status {
        Some(s) => if t is Down {
            nothing_below(m)
        } else {
            &&& m.mode_learn == Some(s.mode@ == "learn"@)
            &&& m.watching@ == "Watching "@ + dec(watched_count(s, 8)) + " of "@ + dec(8)
            &&& m.tiles@.len() == 8
            &&& forall|i: int| 0 <= i < 8 ==> tile_for(#[trigger] m.tiles@[i], s, i)
            &&& m.footer@ == footer_text(s)
        },
        None => nothing_below(m),
    }
}

/// No mode, no tiles, no footer.
pub open spec fn nothing_below(m: Model) -> bool {
    m.mode_learn is None && m.watching@.len() == 0 && m.tiles@.len() == 0 && m.footer@.len() == 0
}

/// What the dashboard shows. `icon` is the name of the state's icon.
pub fn build(state: &TrayState, status: Option<&Status>, icon: &'static str) -> (r: Model)
    ensures
        r.icon == icon,
        model_for(r, *state, seen(status)),
{
    let (title, detail) = state.title_and_detail(status);
    let pill = match state {
        TrayState::Down { .. } => ("offline", "pill-down"),
        TrayState::Disarmed { .. } => ("disarmed", "pill-disarmed"),
        TrayState::KillPending { .. } => ("kill pending", "pill-pending"),
        TrayState::DryRun => ("dry run", "pill-learning"),
        TrayState::Learning => ("learn", "pill-learning"),
        TrayState::Armed => ("enforce", "pill-armed"),
    };
    let mut down = false;
    let body = match state {
        TrayState::Down { stalled } => {
            down = true;
            if *stalled {
                Body::Down {
                    message:
                        "The daemon answers, but its poll loop has stopped, so nothing is being checked.".to_owned(),
                }
            } else {
                Body::Down {
                    message:
                        "Nothing is being watched. The tray keeps retrying every second.".to_owned(),
                }
            }
        },
        TrayState::Disarmed { secs_left } => Body::Countdown {
            secs_left: *secs_left,
            total_secs: countdown_total(*secs_left),
        },
        TrayState::KillPending { bus, reason, secs_left } => Body::KillPending {
            secs_left: *secs_left,
            reason: reason.clone(),
            hint: cancel_hint(bus.as_str()).to_owned(),
        },
        _ => Body::Presets,
    };
    let mut model = Model {
        icon,
        title,
        detail,
        pill,
        mode_learn: None,
        body,
        watching: String::new(),
        tiles: Vec::new(),
        footer: String::new(),
    };
    if let Some(s) = status {
        if !down {
            model.mode_learn = Some(same(s.mode.as_str(), "learn"));
            let (tiles, watched) = all_tiles(s);
            model.watching = cat4("Watching ", decimal(watched).as_str(), " of ", decimal(8).as_str());
            model.tiles = tiles;
            let violations = if s.violations_logged == 1 {
                "1 violation".to_owned()
            } else {
                cat2(decimal(s.violations_logged).as_str(), " violations")
            };
            model.footer = cat4(
                "Up ",
                format_uptime(s.uptime_secs).as_str(),
                " \u{b7} ",
                violations.as_str(),
            );
        }
    }
    model
}

/// A tile for every bus, and how many are watched.
fn all_tiles(s: &Status) -> (r: (Vec<Tile>, u64))
    ensures
        r.0@.len() == 8,
        forall|i: int| 0 <= i < 8 ==> tile_for(#[trigger] r.0@[i], *s, i),
        r.1 == watched_count(*s, 8),
{
    let mut tiles: Vec<Tile> = Vec::new();
    let mut watched: u64 = 0;
    let mut i: usize = 0;
    while i < 8
        invariant
            i <= 8,
            tiles@.len() == i,
            watched == watched_count(*s, i as int),
            watched <= i,
            forall|k: int| 0 <= k < i ==> tile_for(#[trigger] tiles@[k], *s, k),
        decreases 8 - i,
    {
        let bus = BUSES[i];
        let on = s.watching(i);
        let name = if same(bus.0, "power_watching") {
            "Power"
        } else {
            bus.1
        };
        tiles.push(Tile { icon: bus_icon(bus.0), name, value: tile_value(s, bus.0, on), watched: on });
        if on {
            watched += 1;
        }
        i += 1;
    }
    (tiles, watched)
}

/// `m:ss`.
pub open spec fn clock_text(secs: u64) -> Seq<char> {
    dec(secs as nat / 60) + ":"@ + seq![
        digit_char(secs as nat % 60 / 10),
        digit_char(secs as nat % 60 % 10),
    ]
}

/// `m:ss` for the countdown ring.
pub fn clock(secs: u64) -> (r: String)
    ensures
        r@ == clock_text(secs),
{
    let mut out = cat2(decimal(secs / 60).as_str(), ":");
    let ghost head = out@;
    out.push(digit((secs % 60 / 10) as u8));
    out.push(digit((secs % 60 % 10) as u8));
    assert(out@ =~= clock_text(secs));
    out
}

/// The smallest preset, at or after position `i`, that covers what is left.
pub open spec fn covering(secs_left: u64, i: int) -> u64
    decreases 5 - i,
{
    if i >= 5 || i < 0 {
        secs_left
    } else if DISARM_PRESETS@[i].0 >= secs_left {
        DISARM_PRESETS@[i].0
    } else {
        covering(secs_left, i + 1)
    }
}

/// What the ring measures against.
pub open spec fn ring_total(secs_left: u64) -> u64 {
    if covering(secs_left, 0) < 1 {
        1
    } else {
        covering(secs_left, 0)
    }
}

/// The daemon does not report how long the disarm was for, so the ring
/// measures against the smallest preset that still covers what is left.
pub fn countdown_total(secs_left: u64) -> (r: u64)
    ensures
        r == ring_total(secs_left),
{
    let mut i: usize = 0;
    while i < 5
        invariant
            i <= 5,
            covering(secs_left, 0) == covering(secs_left, i as int),
        decreases 5 - i,
    {
        let total = DISARM_PRESETS[i].0;
        if total >= secs_left {
            return if total < 1 {
                1
            } else {
                total
            };
        }
        i += 1;
    }
    if secs_left < 1 {
        1
    } else {
        secs_left
    }
}

/// The ring never overflows: it measures against no less than what is left.
pub proof fn the_ring_covers_what_is_left(secs_left: u64)
    ensures
        ring_total(secs_left) >= secs_left,
        ring_total(secs_left) >= 1,
{
    reveal_with_fuel(covering, 7);
}

/// The ring of a disarm countdown. Only a new or extended disarm raises what is
/// left, so the total is captured once and the ring drains from there.
#[derive(Debug, PartialEq, Eq)]
pub struct Ring {
    pub total: u64,
}

impl Ring {
    /// The ring after a body was shown.
    pub open spec fn after(self, body: Body) -> Ring {
        match body {
            Body::Countdown { secs_left, total_secs } => if secs_left > self.total {
                Ring { total: total_secs }
            } else {
                self
            },
            _ => Ring { total: 0 },
        }
    }

    /// A ring that has shown nothing.
    pub fn new() -> (r: Ring)
        ensures
            r.total == 0,
    {
        Ring { total: 0 }
    }

    /// Show a body. Returns how much of the ring is left, as what is left over the
    /// total, where the body is a countdown.
    pub fn show(&mut self, body: &Body) -> (r: Option<(u64, u64)>)
        ensures
            *final(self) == old(self).after(*body),
            match *body {
                Body::Countdown { secs_left, .. } => r == Some(
                    (
                        secs_left,
                        if final(self).total < 1 {
                            1u64
                        } else {
                            final(self).total
                        },
                    ),
                ),
                _ => r is None,
            },
    {
        match body {
            Body::Countdown { secs_left, total_secs } => {
                if *secs_left > self.total {
                    self.total = *total_secs;
                }
                let total: u64 = if self.total < 1 {
                    1
                } else {
                    self.total
                };
                Some((*secs_left, total))
            },
            _ => {
                self.total = 0;
                None
            },
        }
    }
}

/// The ring never shows more than all of itself.
pub proof fn the_ring_is_never_overfull(ring: Ring, b: Body, t: TrayState)
    requires
        body_for(b, t),
        t is Disarmed,
    ensures
        b matches Body::Countdown { secs_left, .. } && secs_left <= ring.after(b).total,
{
    if let TrayState::Disarmed { secs_left } = t {
        the_ring_covers_what_is_left(secs_left);
    }
}

/// While a disarm runs out, the total it is measured against stays.
pub proof fn the_ring_only_drains(ring: Ring, b: Body)
    requires
        b matches Body::Countdown { secs_left, .. } && secs_left <= ring.total,
    ensures
        ring.after(b) == ring,
{
}

impl Body {
    /// The page the body is shown on.
    pub fn page(&self) -> (r: &'static str)
        ensures
            r@ == match *self {
                Body::Presets => "presets"@,
                Body::Countdown { .. } => "countdown"@,
                Body::KillPending { .. } => "pending"@,
                Body::Down { .. } => "down"@,
            },
    {
        match self {
            Body::Presets => "presets",
            Body::Countdown { .. } => "countdown",
            Body::KillPending { .. } => "pending",
            Body::Down { .. } => "down",
        }
    }

    /// The title and the text of the page: what is left of a countdown, how long a
    /// kill is off and what would cancel it, why nothing is shown.
    pub fn lines(&self) -> (r: (String, String))
        ensures
            match *self {
                Body::Presets => r.0@.len() == 0 && r.1@.len() == 0,
                Body::Countdown { secs_left, .. } => r.0@ == clock_text(secs_left) && r.1@.len()
                    == 0,
                Body::KillPending { secs_left, reason, hint } => r.0@ == "Kill in "@ + dec(
                    secs_left as nat,
                ) + " s"@ && r.1@ == reason@ + ". "@ + hint@,
                Body::Down { message } => r.0@.len() == 0 && r.1@ == message@,
            },
    {
        match self {
            Body::Presets => (String::new(), String::new()),
            Body::Countdown { secs_left, .. } => (clock(*secs_left), String::new()),
            Body::KillPending { secs_left, reason, hint } => (
                cat3("Kill in ", decimal(*secs_left).as_str(), " s"),
                cat3(reason.as_str(), ". ", hint.as_str()),
            ),
            Body::Down { message } => (String::new(), message.clone()),
        }
    }
}

/// How a pending kill is stopped.
pub open spec fn hint_for(bus: Seq<char>) -> Seq<char> {
    if bus == "power"@ {
        "Plug the charger back in to cancel."@
    } else if bus == "network"@ {
        "Reconnect the cable to cancel."@
    } else if bus == "lid"@ {
        "Open the lid to cancel."@
    } else {
        "Undo the change to cancel."@
    }
}

/// How a person stops a pending kill without touching the tray.
pub fn cancel_hint(bus: &str) -> (r: &'static str)
    ensures
        r@ == hint_for(bus@),
{
    if same(bus, "power") {
        "Plug the charger back in to cancel."
    } else if same(bus, "network") {
        "Reconnect the cable to cancel."
    } else if same(bus, "lid") {
        "Open the lid to cancel."
    } else {
        "Undo the change to cancel."
    }
}

/// The tile icon for a `BUSES` key.
pub open spec fn icon_for(key: Seq<char>) -> Seq<char> {
    if key == "usb_watching"@ {
        "plugkill-bus-usb-symbolic"@
    } else if key == "thunderbolt_watching"@ {
        "plugkill-bus-thunderbolt-symbolic"@
    } else if key == "sdcard_watching"@ {
        "plugkill-bus-sdcard-symbolic"@
    } else if key == "power_watching"@ {
        "plugkill-bus-power-symbolic"@
    } else if key == "network_watching"@ {
        "plugkill-bus-network-symbolic"@
    } else if key == "lid_watching"@ {
        "plugkill-bus-lid-symbolic"@
    } else if key == "pci_watching"@ {
        "plugkill-bus-pci-symbolic"@
    } else if key == "display_watching"@ {
        "plugkill-bus-display-symbolic"@
    } else {
        "image-missing"@
    }
}

/// The tile icon for a `BUSES` key.
pub fn bus_icon(key: &str) -> (r: &'static str)
    ensures
        r@ == icon_for(key@),
{
    if same(key, "usb_watching") {
        "plugkill-bus-usb-symbolic"
    } else if same(key, "thunderbolt_watching") {
        "plugkill-bus-thunderbolt-symbolic"
    } else if same(key, "sdcard_watching") {
        "plugkill-bus-sdcard-symbolic"
    } else if same(key, "power_watching") {
        "plugkill-bus-power-symbolic"
    } else if same(key, "network_watching") {
        "plugkill-bus-network-symbolic"
    } else if same(key, "lid_watching") {
        "plugkill-bus-lid-symbolic"
    } else if same(key, "pci_watching") {
        "plugkill-bus-pci-symbolic"
    } else if same(key, "display_watching") {
        "plugkill-bus-display-symbolic"
    } else {
        "image-missing"
    }
}

/// What a bus reads: its count or live state when watched, "off" when it is
/// not.
pub open spec fn value_text(s: Status, key: Seq<char>, watched: bool) -> Seq<char> {
    if !watched {
        "off"@
    } else if key == "usb_watching"@ {
        dec(s.usb_devices as nat)
    } else if key == "thunderbolt_watching"@ {
        dec(s.thunderbolt_devices as nat)
    } else if key == "sdcard_watching"@ {
        dec(s.sdcard_devices as nat)
    } else if key == "pci_watching"@ {
        dec(s.pci_devices as nat)
    } else if key == "power_watching"@ {
        match s.power_state {
            Some(p) => if p@ == "ac"@ {
                "on AC"@
            } else if p@ == "battery"@ {
                "on battery"@
            } else {
                "unknown"@
            },
            None => "unknown"@,
        }
    } else if key == "lid_watching"@ {
        match s.lid_state {
            Some(l) => l@,
            None => "unknown"@,
        }
    } else if key == "network_watching"@ {
        match s.network_links_down {
            Some(n) => if n == 0 {
                "link up"@
            } else {
                dec(n as nat) + " down"@
            },
            None => "unknown"@,
        }
    } else {
        "watching"@
    }
}

/// What a bus reads: its count or live state when watched, "off" when it is
/// not. The menu shows the same wording.
pub fn tile_value(s: &Status, key: &str, watched: bool) -> (r: String)
    ensures
        r@ == value_text(*s, key@, watched),
{
    if !watched {
        return "off".to_owned();
    }
    if same(key, "usb_watching") {
        decimal(s.usb_devices)
    } else if same(key, "thunderbolt_watching") {
        decimal(s.thunderbolt_devices)
    } else if same(key, "sdcard_watching") {
        decimal(s.sdcard_devices)
    } else if same(key, "pci_watching") {
        decimal(s.pci_devices)
    } else if same(key, "power_watching") {
        match &s.power_state {
            Some(p) => if same(p.as_str(), "ac") {
                "on AC".to_owned()
            } else if same(p.as_str(), "battery") {
                "on battery".to_owned()
            } else {
                "unknown".to_owned()
            },
            None => "unknown".to_owned(),
        }
    } else if same(key, "lid_watching") {
        match &s.lid_state {
            Some(l) => l.clone(),
            None => "unknown".to_owned(),
        }
    } else if same(key, "network_watching") {
        match s.network_links_down {
            Some(n) => if n == 0 {
                "link up".to_owned()
            } else {
                cat2(decimal(n).as_str(), " down")
            },
            None => "unknown".to_owned(),
        }
    } else {
        "watching".to_owned()
    }
}

/// A `BUSES` key without its ending.
pub open spec fn short_name(key: Seq<char>) -> Seq<char> {
    if ends(key, "_watching"@) {
        key.take(key.len() - "_watching"@.len())
    } else {
        key
    }
}

/// A `BUSES` key without its ending.
pub fn short_bus(key: &str) -> (r: String)
    ensures
        r@ == short_name(key@),
{
    let cs = chars(key);
    if ends_with(cs.as_slice(), "_watching") {
        let n = chars("_watching").len();
        let front = part(cs.as_slice(), 0, cs.len() - n);
        assert(front@ =~= short_name(key@));
        text(front)
    } else {
        key.to_owned()
    }
}

/// What a bus counts in its tooltip's first line.
pub open spec fn noun(bus: Seq<char>, n: nat) -> Seq<char> {
    if bus == "network"@ {
        if n == 1 {
            "interface"@
        } else {
            "interfaces"@
        }
    } else if bus == "display"@ {
        if n == 1 {
            "output"@
        } else {
            "outputs"@
        }
    } else if n == 1 {
        "device"@
    } else {
        "devices"@
    }
}

/// What a bus counts in its tooltip's first line.
pub fn entry_noun(bus: &str, n: u64) -> (r: &'static str)
    ensures
        r@ == noun(bus@, n as nat),
{
    if same(bus, "network") {
        if n == 1 {
            "interface"
        } else {
            "interfaces"
        }
    } else if same(bus, "display") {
        if n == 1 {
            "output"
        } else {
            "outputs"
        }
    } else if n == 1 {
        "device"
    } else {
        "devices"
    }
}

/// The lines of the entries.
pub open spec fn entry_lines(entries: Seq<DeviceEntry>) -> Seq<Seq<char>> {
    entries.map_values(|e: DeviceEntry| e.text@)
}

/// The lines of a tooltip. Power and lid report one reading, so the reading is
/// the whole first line. Elsewhere it counts the live entries on the bus, listed
/// plus dropped.
pub open spec fn tooltip_lines(bus: Seq<char>, name: Seq<char>, d: BusDevices) -> Seq<Seq<char>> {
    let n = (d.entries@.len() + d.more) as nat;
    let lines = if (bus == "power"@ || bus == "lid"@) && d.entries@.len() == 1 {
        seq![name + ", "@ + d.entries@[0].text@]
    } else {
        seq![name + ", "@ + dec(n) + " "@ + noun(bus, n)] + entry_lines(d.entries@)
    };
    if d.more > 0 {
        lines.push("and "@ + dec(d.more as nat) + " more"@)
    } else {
        lines
    }
}

/// What a tile's hover says. A bus the response does not carry says nothing
/// about whether it is watched. An enumeration the daemon could not read looks
/// exactly like an empty bus on the wire, so an empty one does not claim that
/// nothing is connected.
pub open spec fn tooltip_text(
    key: Seq<char>,
    name: Seq<char>,
    devices: Seq<(String, BusDevices)>,
) -> Seq<char> {
    match bus_from(devices, short_name(key), 0) {
        None => name + ", device list unavailable"@,
        Some(d) => if !d.watched {
            name + " is not watched"@
        } else if d.entries@.len() == 0 {
            name + ", no devices listed"@
        } else {
            joined(tooltip_lines(short_name(key), name, d), "\n"@)
        },
    }
}

/// What a tile's hover says: the bus, what it reads, and the entries the
/// daemon sees on it. `key` is a `BUSES` key, `name` its full name.
pub fn bus_tooltip(key: &str, name: &str, devices: &[(String, BusDevices)]) -> (r: String)
    requires
        bus_from(devices@, short_name(key@), 0) matches Some(d) ==> d.entries@.len() + d.more
            <= u64::MAX,
    ensures
        r@ == tooltip_text(key@, name@, devices@),
{
    let bus = short_bus(key);
    let d = match find_bus(devices, bus.as_str()) {
        Some(d) => d,
        None => {
            return cat2(name, ", device list unavailable");
        },
    };
    if !d.watched {
        return cat2(name, " is not watched");
    }
    if d.entries.len() == 0 {
        return cat2(name, ", no devices listed");
    }
    let mut lines: Vec<String> = Vec::new();
    let ghost bare = short_name(key@);
    assert(views(lines@) =~= Seq::<Seq<char>>::empty());
    if (same(bus.as_str(), "power") || same(bus.as_str(), "lid")) && d.entries.len() == 1 {
        lines.push(cat3(name, ", ", d.entries[0].text.as_str()));
        assert(views(lines@) =~= seq![name@ + ", "@ + d.entries@[0].text@]);
    } else {
        let n: u64 = d.entries.len() as u64 + d.more;
        let count = decimal(n);
        let mut first = cat4(name, ", ", count.as_str(), " ");
        first.push_str(entry_noun(bus.as_str(), n));
        lines.push(first);
        let ghost head = seq![name@ + ", "@ + dec(n as nat) + " "@ + noun(bare, n as nat)];
        let mut i: usize = 0;
        assert(views(lines@) =~= head + entry_lines(d.entries@).take(0));
        while i < d.entries.len()
            invariant
                i <= d.entries@.len(),
                views(lines@) == head + entry_lines(d.entries@).take(i as int),
            decreases d.entries@.len() - i,
        {
            let ghost before = lines@;
            lines.push(d.entries[i].text.clone());
            assert(views(lines@) =~= views(before).push(d.entries@[i as int].text@));
            assert(views(lines@) =~= head + entry_lines(d.entries@).take(i + 1));
            i += 1;
        }
        assert(entry_lines(d.entries@).take(i as int) =~= entry_lines(d.entries@));
    }
    if d.more > 0 {
        let ghost before = lines@;
        lines.push(cat3("and ", decimal(d.more).as_str(), " more"));
        assert(views(lines@) =~= views(before).push("and "@ + dec(d.more as nat) + " more"@));
    }
    assert(views(lines@) =~= tooltip_lines(bare, name@, *d));
    join(lines.as_slice(), "\n")
}

/// A countdown is shown in minutes and two digits of seconds.
pub proof fn a_countdown_is_shown_in_minutes(m: nat, tens: nat, ones: nat)
    requires
        tens < 6,
        ones < 10,
        60 * m + 10 * tens + ones <= u64::MAX,
    ensures
        clock_text((60 * m + 10 * tens + ones) as u64) == dec(m) + ":"@ + seq![
            (48 + tens) as char,
            (48 + ones) as char,
        ],
{
    let all = (60 * m + 10 * tens + ones) as nat;
    assert(all / 60 == m);
    assert(all % 60 == 10 * tens + ones);
    assert(all % 60 / 10 == tens);
    assert(all % 60 % 10 == ones);
}

/// The ring is measured by the shortest preset that covers what is left, and by what is
/// left where none does.
pub proof fn the_shortest_preset_that_covers(secs_left: u64)
    ensures
        forall|i: int|
            0 <= i < 5 && DISARM_PRESETS@[i].0 >= secs_left ==> ring_total(secs_left)
                <= #[trigger] DISARM_PRESETS@[i].0,
        ring_total(secs_left) == secs_left || ring_total(secs_left) == 1 || exists|i: int|
            0 <= i < 5 && #[trigger] DISARM_PRESETS@[i].0 == ring_total(secs_left),
        secs_left <= 60 ==> ring_total(secs_left) == 60,
        secs_left > 3600 ==> ring_total(secs_left) == secs_left,
{
    reveal_with_fuel(covering, 7);
    assert(DISARM_PRESETS@[0].0 == 60 && DISARM_PRESETS@[4].0 == 3600);
    crate::gui::commands::presets_are_in_range(1);
    crate::gui::commands::presets_are_in_range(2);
    crate::gui::commands::presets_are_in_range(3);
    crate::gui::commands::presets_are_in_range(4);
}

/// How many buses are watched: one for each that the daemon says so of.
pub proof fn each_watched_bus_counts(s: Status)
    ensures
        watched_count(s, 8) == one_if(s.rest.at("usb_watching"@)) + one_if(
            s.rest.at("thunderbolt_watching"@),
        ) + one_if(s.rest.at("sdcard_watching"@)) + one_if(s.rest.at("power_watching"@)) + one_if(
            s.rest.at("network_watching"@),
        ) + one_if(s.rest.at("lid_watching"@)) + one_if(s.rest.at("pci_watching"@)) + one_if(
            s.rest.at("display_watching"@),
        ),
{
    reveal_with_fuel(watched_count, 9);
    crate::gui::status::a_bus_is_watched_under_its_key(s);
}

/// One for a plain yes.
pub open spec fn one_if(report: Option<crate::json::Json>) -> nat {
    if report == Some(crate::json::Json::Bool(true)) {
        1
    } else {
        0
    }
}

/// A tile says `off` for a bus that is not watched, the number of devices for one that
/// has devices, and the state for one that has a state.
pub proof fn a_tile_says_what_the_bus_shows(s: Status, key: Seq<char>)
    ensures
        value_text(s, key, false) == "off"@,
        value_text(s, "usb_watching"@, true) == dec(s.usb_devices as nat),
        value_text(s, "thunderbolt_watching"@, true) == dec(s.thunderbolt_devices as nat),
        value_text(s, "sdcard_watching"@, true) == dec(s.sdcard_devices as nat),
        value_text(s, "pci_watching"@, true) == dec(s.pci_devices as nat),
        s.power_state matches Some(p) && p@ == "ac"@ ==> value_text(s, "power_watching"@, true)
            == "on AC"@,
        s.power_state matches Some(p) && p@ == "battery"@ ==> value_text(s, "power_watching"@, true)
            == "on battery"@,
        !(s.power_state matches Some(p) && (p@ == "ac"@ || p@ == "battery"@)) ==> value_text(
            s,
            "power_watching"@,
            true,
        ) == "unknown"@,
        s.lid_state matches Some(l) ==> value_text(s, "lid_watching"@, true) == l@,
        s.network_links_down == Some(0u64) ==> value_text(s, "network_watching"@, true) == "link up"@,
        s.network_links_down matches Some(n) ==> (n > 0 ==> value_text(s, "network_watching"@, true)
            == dec(n as nat) + " down"@),
        value_text(s, "display_watching"@, true) == "watching"@,
{
    reveal_strlit("usb_watching");
    reveal_strlit("thunderbolt_watching");
    reveal_strlit("sdcard_watching");
    reveal_strlit("power_watching");
    reveal_strlit("network_watching");
    reveal_strlit("lid_watching");
    reveal_strlit("pci_watching");
    reveal_strlit("display_watching");
    reveal_strlit("ac");
    reveal_strlit("battery");
    assert("ac"@.len() != "battery"@.len());
    assert("usb_watching"@[0] == 'u' && "thunderbolt_watching"@[0] == 't' && "sdcard_watching"@[0]
        == 's' && "power_watching"@[0] == 'p' && "network_watching"@[0] == 'n' && "lid_watching"@[0]
        == 'l' && "pci_watching"@[0] == 'p' && "display_watching"@[0] == 'd');
    assert("power_watching"@[1] == 'o' && "pci_watching"@[1] == 'c');
}

/// How a pending kill is called off depends on the bus.
pub proof fn a_hint_fits_the_bus(bus: Seq<char>)
    ensures
        hint_for("power"@) == "Plug the charger back in to cancel."@,
        hint_for("network"@) == "Reconnect the cable to cancel."@,
        hint_for("lid"@) == "Open the lid to cancel."@,
        bus != "power"@ && bus != "network"@ && bus != "lid"@ ==> hint_for(bus)
            == "Undo the change to cancel."@,
{
    reveal_strlit("power");
    reveal_strlit("network");
    reveal_strlit("lid");
    assert("power"@.len() == 5 && "network"@.len() == 7 && "lid"@.len() == 3);
}

/// A bus is listed by its key without the ending.
pub proof fn a_bus_has_its_short_name(bus: Seq<char>)
    ensures
        short_name(bus + "_watching"@) == bus,
{
    reveal_strlit("_watching");
    let key = bus + "_watching"@;
    assert(key.skip(bus.len() as int) =~= "_watching"@);
    assert(key.take(bus.len() as int) =~= bus);
}

/// A tooltip counts all devices, those that were left out too, has a line for each that
/// is listed, and one more where some were left out.
pub proof fn a_tooltip_has_a_line_for_each(bus: Seq<char>, name: Seq<char>, d: BusDevices)
    requires
        bus != "power"@ && bus != "lid"@,
    ensures
        ({
            let lines = tooltip_lines(bus, name, d);
            let n = (d.entries@.len() + d.more) as nat;
            &&& lines.len() == 1 + d.entries@.len() + (if d.more > 0 {
                1int
            } else {
                0
            })
            &&& lines[0] == name + ", "@ + dec(n) + " "@ + noun(bus, n)
            &&& forall|i: int|
                0 <= i < d.entries@.len() ==> lines[i + 1] == (#[trigger] d.entries@[i]).text@
            &&& d.more > 0 ==> lines.last() == "and "@ + dec(d.more as nat) + " more"@
        }),
{
    let lines = tooltip_lines(bus, name, d);
    assert forall|i: int| 0 <= i < d.entries@.len() implies lines[i + 1] == (
    #[trigger] d.entries@[i]).text@ by {
        assert(entry_lines(d.entries@)[i] == d.entries@[i].text@);
    }
}

/// The dashboard shows the state, and below it the buses, only while the daemon polls and
/// answers: the mode, how many of eight are watched, and a tile for each bus.
pub proof fn the_dashboard_shows_what_the_daemon_says(m: Model, t: TrayState, s: Status)
    requires
        model_for(m, t, Some(s)),
        !(t is Down),
    ensures
        m.mode_learn == Some(s.mode@ == "learn"@),
        m.watching@ == "Watching "@ + dec(watched_count(s, 8)) + " of "@ + dec(8),
        m.tiles@.len() == 8,
        m.tiles@[0].watched <==> s.rest.at("usb_watching"@) == Some(crate::json::Json::Bool(true)),
        m.tiles@[0].watched ==> m.tiles@[0].value@ == dec(s.usb_devices as nat),
        m.tiles@[1].watched <==> s.rest.at("thunderbolt_watching"@) == Some(
            crate::json::Json::Bool(true),
        ),
        m.tiles@[1].watched ==> m.tiles@[1].value@ == dec(s.thunderbolt_devices as nat),
        m.tiles@[2].watched <==> s.rest.at("sdcard_watching"@) == Some(crate::json::Json::Bool(true)),
        m.tiles@[2].watched ==> m.tiles@[2].value@ == dec(s.sdcard_devices as nat),
        m.tiles@[3].watched <==> s.rest.at("power_watching"@) == Some(crate::json::Json::Bool(true)),
        m.tiles@[4].watched <==> s.rest.at("network_watching"@) == Some(
            crate::json::Json::Bool(true),
        ),
        m.tiles@[5].watched <==> s.rest.at("lid_watching"@) == Some(crate::json::Json::Bool(true)),
        m.tiles@[6].watched <==> s.rest.at("pci_watching"@) == Some(crate::json::Json::Bool(true)),
        m.tiles@[6].watched ==> m.tiles@[6].value@ == dec(s.pci_devices as nat),
        m.tiles@[7].watched <==> s.rest.at("display_watching"@) == Some(
            crate::json::Json::Bool(true),
        ),
        m.tiles@[0].name@ == "USB"@ && m.tiles@[3].name@ == "Power"@ && m.tiles@[7].name@
            == "Display"@,
        forall|i: int|
            0 <= i < 8 && !(#[trigger] m.tiles@[i]).watched ==> m.tiles@[i].value@ == "off"@,
        s.violations_logged == 1 ==> m.footer@ == "Up "@ + uptime_text(s.uptime_secs)
            + " \u{b7} "@ + "1 violation"@,
        s.violations_logged != 1 ==> m.footer@ == "Up "@ + uptime_text(s.uptime_secs)
            + " \u{b7} "@ + (dec(s.violations_logged as nat) + " violations"@),
{
    crate::gui::status::a_bus_is_watched_under_its_key(s);
    a_tile_says_what_the_bus_shows(s, "usb_watching"@);
    assert forall|i: int| 0 <= i < 8 implies tile_for(#[trigger] m.tiles@[i], s, i) by {}
    assert(tile_for(m.tiles@[0], s, 0) && tile_for(m.tiles@[1], s, 1) && tile_for(m.tiles@[2], s, 2)
        && tile_for(m.tiles@[3], s, 3) && tile_for(m.tiles@[4], s, 4) && tile_for(m.tiles@[5], s, 5)
        && tile_for(m.tiles@[6], s, 6) && tile_for(m.tiles@[7], s, 7));
    reveal_strlit("power_watching");
    reveal_strlit("usb_watching");
    reveal_strlit("display_watching");
    assert("power_watching"@[0] == 'p' && "usb_watching"@[0] == 'u' && "display_watching"@[0] == 'd');
}

/// Where the daemon does not answer, or does not poll, nothing is said of the buses.
pub proof fn nothing_is_said_of_a_lost_daemon(m: Model, t: TrayState, status: Option<Status>)
    requires
        model_for(m, t, status),
        t is Down || status is None,
    ensures
        m.mode_learn is None && m.tiles@.len() == 0 && m.watching@.len() == 0 && m.footer@.len() == 0,
        t matches TrayState::Down { stalled } ==> m.body is Down,
{
}

/// The body follows the state: a countdown while disarmed, the pending kill with how to
/// call it off, a message while the daemon is lost, and the presets otherwise.
pub proof fn the_body_follows_the_state(b: Body, t: TrayState)
    requires
        body_for(b, t),
    ensures
        b is Countdown <==> t is Disarmed,
        b is KillPending <==> t is KillPending,
        b is Down <==> t is Down,
        t matches TrayState::Disarmed { secs_left } ==> (b matches Body::Countdown {
            secs_left: n,
            total_secs,
        } && n == secs_left && total_secs >= n && total_secs >= 1),
        t matches TrayState::KillPending { bus, reason, secs_left } ==> (b matches Body::KillPending {
            secs_left: n,
            reason: why,
            hint,
        } && n == secs_left && why@ == reason@ && hint@ == hint_for(bus@)),
{
    if let TrayState::Disarmed { secs_left } = t {
        the_ring_covers_what_is_left(secs_left);
    }
}

/// The pill names the state.
pub proof fn the_pill_names_the_state(stalled: bool, secs_left: u64, bus: String, reason: String)
    ensures
        pill_of(TrayState::Armed).0 == "enforce"@,
        pill_of(TrayState::Learning).0 == "learn"@,
        pill_of(TrayState::DryRun).0 == "dry run"@,
        pill_of(TrayState::Down { stalled }).0 == "offline"@,
        pill_of(TrayState::Disarmed { secs_left }).0 == "disarmed"@,
        pill_of(TrayState::KillPending { bus, reason, secs_left }).0 == "kill pending"@,
{
}

/// A tooltip says of a bus that it is not listed, not watched, or empty, and otherwise
/// lists its devices.
pub proof fn a_tooltip_says_what_is_listed(
    bus: Seq<char>,
    name: Seq<char>,
    devices: Seq<(String, BusDevices)>,
)
    ensures
        match bus_from(devices, bus, 0) {
            None => tooltip_text(bus + "_watching"@, name, devices) == name
                + ", device list unavailable"@,
            Some(d) => {
                &&& !d.watched ==> tooltip_text(bus + "_watching"@, name, devices) == name
                    + " is not watched"@
                &&& d.watched && d.entries@.len() == 0 ==> tooltip_text(
                    bus + "_watching"@,
                    name,
                    devices,
                ) == name + ", no devices listed"@
                &&& d.watched && d.entries@.len() > 0 ==> tooltip_text(
                    bus + "_watching"@,
                    name,
                    devices,
                ) == joined(tooltip_lines(bus, name, d), "\n"@)
            },
        },
{
    a_bus_has_its_short_name(bus);
}

} // verus!
