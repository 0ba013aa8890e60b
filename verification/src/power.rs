//! Mains or battery, and whether a session is locked.

use vstd::prelude::*;

use crate::text::same;

verus! {

/// The power state of the system.
#[derive(Debug, Clone, Copy, PartialEq, Eq, Structural)]
pub enum PowerState {
    /// AC power is connected.
    Ac,
    /// Running on battery only.
    Battery,
    /// Could not determine power state.
    Unknown,
}

impl PowerState {
    /// The state in a word.
    pub open spec fn word(self) -> Seq<char> {
        match self {
            PowerState::Ac => "AC"@,
            PowerState::Battery => "battery"@,
            PowerState::Unknown => "unknown"@,
        }
    }

    /// The state in a word.
    pub fn as_str(&self) -> (r: &'static str)
        ensures
            r@ == self.word(),
    {
        match self {
            PowerState::Ac => "AC",
            PowerState::Battery => "battery",
            PowerState::Unknown => "unknown",
        }
    }
}

/// The state that the AC line of a machine stands for.
pub open spec fn line_state(acline: Option<i64>) -> PowerState {
    match acline {
        Some(n) => if n == 1 {
            PowerState::Ac
        } else if n == 0 {
            PowerState::Battery
        } else {
            PowerState::Unknown
        },
        None => PowerState::Unknown,
    }
}

/// Map `hw.acpi.acline` (1 = AC, 0 = battery, absent = desktop/VM) to a state.
pub fn parse_acline(acline: Option<i64>) -> (r: PowerState)
    ensures
        r == match acline {
            Some(n) => if n == 1 {
                PowerState::Ac
            } else if n == 0 {
                PowerState::Battery
            } else {
                PowerState::Unknown
            },
            None => PowerState::Unknown,
        },
        r == line_state(acline),
{
    match acline {
        Some(n) => if n == 1 {
            PowerState::Ac
        } else if n == 0 {
            PowerState::Battery
        } else {
            PowerState::Unknown
        },
        None => PowerState::Unknown,
    }
}

/// One power supply with its attribute files, where they could be read.
#[derive(Debug, PartialEq, Eq)]
pub struct Supply {
    pub kind: Option<String>,
    pub online: Option<String>,
    pub status: Option<String>,
}

/// Whether an attribute reads exactly so.
pub open spec fn says(attr: Option<String>, word: Seq<char>) -> bool {
    attr matches Some(s) && s@ == word
}

impl Supply {
    /// Whether this is a mains supply.
    pub open spec fn mains(self) -> bool {
        says(self.kind, "Mains"@)
    }

    /// Whether this supply shows AC power: mains that is online, or a battery
    /// that is charging or full.
    pub open spec fn shows_ac(self) -> bool {
        ||| self.mains() && says(self.online, "1"@)
        ||| !self.mains() && says(self.kind, "Battery"@) && (says(self.status, "Charging"@)
            || says(self.status, "Full"@))
    }
}

/// Whether an attribute reads exactly so.
fn reads(attr: &Option<String>, word: &str) -> (r: bool)
    ensures
        r == says(*attr, word@),
{
    match attr {
        Some(s) => same(s.as_str(), word),
        None => false,
    }
}

/// The power state that supplies show together.
pub open spec fn power_state(supplies: Seq<Supply>) -> PowerState {
    if exists|i: int| 0 <= i < supplies.len() && (#[trigger] supplies[i]).shows_ac() {
        PowerState::Ac
    } else if exists|i: int| 0 <= i < supplies.len() && (#[trigger] supplies[i]).mains() {
        PowerState::Battery
    } else {
        PowerState::Unknown
    }
}

/// The power state out of the supplies that were found. Without a mains entry
/// it could be a desktop or VM without battery info.
pub fn read_power_state_from(supplies: &[Supply]) -> (r: PowerState)
    ensures
        r == if exists|i: int| 0 <= i < supplies@.len() && (#[trigger] supplies@[i]).shows_ac() {
            PowerState::Ac
        } else if exists|i: int| 0 <= i < supplies@.len() && (#[trigger] supplies@[i]).mains() {
            PowerState::Battery
        } else {
            PowerState::Unknown
        },
        r == power_state(supplies@),
{
    let mut found_mains = false;
    let mut i: usize = 0;
    while i < supplies.len()
        invariant
            i <= supplies@.len(),
            forall|k: int| 0 <= k < i ==> !(#[trigger] supplies@[k]).shows_ac(),
            found_mains == exists|k: int| 0 <= k < i && (#[trigger] supplies@[k]).mains(),
        decreases supplies@.len() - i,
    {
        let s = &supplies[i];
        if reads(&s.kind, "Mains") {
            found_mains = true;
            assert(supplies@[i as int].mains());
            if reads(&s.online, "1") {
                assert(supplies@[i as int].shows_ac());
                return PowerState::Ac;
            }
        } else if reads(&s.kind, "Battery") {
            if reads(&s.status, "Charging") || reads(&s.status, "Full") {
                assert(supplies@[i as int].shows_ac());
                return PowerState::Ac;
            }
        }
        i += 1;
    }
    if found_mains {
        PowerState::Battery
    } else {
        PowerState::Unknown
    }
}

/// One login session: its type and whether it is locked, where logind said.
#[derive(Debug, PartialEq, Eq)]
pub struct Session {
    pub kind: Option<String>,
    pub locked: Option<bool>,
}

impl Session {
    /// Whether this is a graphical session.
    pub open spec fn graphical(self) -> bool {
        says(self.kind, "wayland"@) || says(self.kind, "x11"@)
    }
}

/// What sessions say together of the lock.
pub open spec fn lock_state(sessions: Seq<Session>) -> Option<bool> {
    if exists|i: int|
        0 <= i < sessions.len() && (#[trigger] sessions[i]).graphical() && sessions[i].locked
            == Some(true) {
        Some(true)
    } else if exists|i: int|
        0 <= i < sessions.len() && (#[trigger] sessions[i]).graphical()
            && sessions[i].locked is None {
        None
    } else if exists|i: int| 0 <= i < sessions.len() && (#[trigger] sessions[i]).graphical() {
        Some(false)
    } else {
        None
    }
}

/// Whether a graphical session is locked, used by the `require_locked` policy:
/// `Some(true)` if any graphical session is locked, `Some(false)` if there are some
/// and all are unlocked. `None` means undeterminable: there is none, or the bus did
/// not say of one of them.
pub fn is_session_locked(sessions: &[Session]) -> (r: Option<bool>)
    ensures
        r == if exists|i: int|
            0 <= i < sessions@.len() && (#[trigger] sessions@[i]).graphical()
                && sessions@[i].locked == Some(true) {
            Some(true)
        } else if exists|i: int|
            0 <= i < sessions@.len() && (#[trigger] sessions@[i]).graphical()
                && sessions@[i].locked is None {
            None
        } else if exists|i: int| 0 <= i < sessions@.len() && (#[trigger] sessions@[i]).graphical() {
            Some(false)
        } else {
            None
        },
        r == lock_state(sessions@),
{
    let mut found_graphical = false;
    let mut unread = false;
    let mut i: usize = 0;
    while i < sessions.len()
        invariant
            i <= sessions@.len(),
            forall|k: int|
                0 <= k < i ==> !((#[trigger] sessions@[k]).graphical() && sessions@[k].locked
                    == Some(true)),
            unread == exists|k: int|
                0 <= k < i && (#[trigger] sessions@[k]).graphical() && sessions@[k].locked is None,
            found_graphical == exists|k: int| 0 <= k < i && (#[trigger] sessions@[k]).graphical(),
        decreases sessions@.len() - i,
    {
        let s = &sessions[i];
        if is_graphical(&s.kind) {
            found_graphical = true;
            assert(sessions@[i as int].graphical());
            match s.locked {
                Some(locked) => {
                    if locked {
                        return Some(true);
                    }
                },
                None => {
                    unread = true;
                },
            }
        }
        i += 1;
    }
    if found_graphical && !unread {
        Some(false)
    } else {
        None
    }
}

/// Whether a session type is a graphical one.
pub fn is_graphical(kind: &Option<String>) -> (r: bool)
    ensures
        r == (says(*kind, "wayland"@) || says(*kind, "x11"@)),
{
    reads(kind, "wayland") || reads(kind, "x11")
}

// ---- what holds of power and locks ---------------------------------------

/// Power comes from the mains exactly where some supply of type `Mains` has `online`
/// reading `1`, or some `Battery` has `status` reading `Charging` or `Full`, whatever
/// the other supplies read.
pub proof fn one_supply_with_power_is_enough(supplies: Seq<Supply>)
    ensures
        power_state(supplies) is Ac <==> exists|i: int|
            0 <= i < supplies.len() && {
                ||| ((#[trigger] supplies[i]).kind matches Some(k) && k@ == "Mains"@)
                    && (supplies[i].online matches Some(o) && o@ == "1"@)
                ||| (supplies[i].kind matches Some(k) && k@ == "Battery"@) && (
                supplies[i].status matches Some(s) && (s@ == "Charging"@ || s@ == "Full"@))
            },
{
    reveal_strlit("Mains");
    reveal_strlit("Battery");
    if power_state(supplies) is Ac {
        let i = choose|i: int| 0 <= i < supplies.len() && (#[trigger] supplies[i]).shows_ac();
        assert(supplies[i].shows_ac());
    }
    if exists|i: int|
        0 <= i < supplies.len() && {
            ||| ((#[trigger] supplies[i]).kind matches Some(k) && k@ == "Mains"@)
                && (supplies[i].online matches Some(o) && o@ == "1"@)
            ||| (supplies[i].kind matches Some(k) && k@ == "Battery"@) && (
            supplies[i].status matches Some(s) && (s@ == "Charging"@ || s@ == "Full"@))
        } {
        let i = choose|i: int|
            0 <= i < supplies.len() && {
                ||| ((#[trigger] supplies[i]).kind matches Some(k) && k@ == "Mains"@)
                    && (supplies[i].online matches Some(o) && o@ == "1"@)
                ||| (supplies[i].kind matches Some(k) && k@ == "Battery"@) && (
                supplies[i].status matches Some(s) && (s@ == "Charging"@ || s@ == "Full"@))
            };
        assert("Mains"@.len() != "Battery"@.len());
        assert(supplies[i].shows_ac());
    }
}

/// On battery there is a mains supply, and no mains supply reads `1` and no battery
/// charges or is full. Where there is no mains supply, batteries that do neither leave
/// the state unknown.
pub proof fn on_battery_no_mains_is_online(supplies: Seq<Supply>)
    ensures
        power_state(supplies) is Battery ==> forall|i: int|
            0 <= i < supplies.len() ==> {
                &&& ((#[trigger] supplies[i]).kind matches Some(k) && k@ == "Mains"@) ==> !(
                supplies[i].online matches Some(o) && o@ == "1"@)
                &&& (supplies[i].kind matches Some(k) && k@ == "Battery"@) ==> !(
                supplies[i].status matches Some(s) && (s@ == "Charging"@ || s@ == "Full"@))
            },
        !(power_state(supplies) is Ac) ==> (power_state(supplies) is Battery <==> exists|i: int|
            0 <= i < supplies.len() && ((#[trigger] supplies[i]).kind matches Some(k) && k@
                == "Mains"@)),
{
    one_supply_with_power_is_enough(supplies);
    assert forall|i: int| 0 <= i < supplies.len() implies (#[trigger] supplies[i]).mains() == (
    supplies[i].kind matches Some(k) && k@ == "Mains"@) by {}
    if exists|i: int|
        0 <= i < supplies.len() && ((#[trigger] supplies[i]).kind matches Some(k) && k@
            == "Mains"@) {
        let i = choose|i: int|
            0 <= i < supplies.len() && ((#[trigger] supplies[i]).kind matches Some(k) && k@
                == "Mains"@);
        assert(supplies[i].mains());
    }
    if power_state(supplies) is Battery {
        let i = choose|i: int| 0 <= i < supplies.len() && (#[trigger] supplies[i]).mains();
        assert(supplies[i].mains());
    }
}

/// The order in which supplies are listed, and how often one is listed, do not matter:
/// two lists with the same supplies show the same state.
pub proof fn the_order_of_supplies_does_not_matter(a: Seq<Supply>, b: Seq<Supply>)
    requires
        forall|s: Supply| #[trigger] a.contains(s) <==> b.contains(s),
    ensures
        power_state(a) == power_state(b),
{
    assert forall|i: int| 0 <= i < a.len() implies exists|j: int|
        0 <= j < b.len() && #[trigger] b[j] == #[trigger] a[i] by {
        assert(a.contains(a[i]));
    }
    assert forall|i: int| 0 <= i < b.len() implies exists|j: int|
        0 <= j < a.len() && #[trigger] a[j] == #[trigger] b[i] by {
        assert(b.contains(b[i]));
        assert(a.contains(b[i]));
    }
}

/// A session counts where its type is `wayland` or `x11`. One that is locked settles
/// it; all unlocked is said only where every one of them was read, and there is one.
pub proof fn one_locked_session_is_enough(sessions: Seq<Session>)
    ensures
        lock_state(sessions) == Some(true) <==> exists|i: int|
            0 <= i < sessions.len() && ((#[trigger] sessions[i]).kind matches Some(k) && (k@
                == "wayland"@ || k@ == "x11"@)) && sessions[i].locked == Some(true),
        lock_state(sessions) == Some(false) <==> (exists|i: int|
            0 <= i < sessions.len() && ((#[trigger] sessions[i]).kind matches Some(k) && (k@
                == "wayland"@ || k@ == "x11"@))) && (forall|i: int|
            0 <= i < sessions.len() && ((#[trigger] sessions[i]).kind matches Some(k) && (k@
                == "wayland"@ || k@ == "x11"@)) ==> sessions[i].locked == Some(false)),
{
    assert forall|i: int| 0 <= i < sessions.len() implies (#[trigger] sessions[i]).graphical() == (
    sessions[i].kind matches Some(k) && (k@ == "wayland"@ || k@ == "x11"@)) by {}
    assert forall|i: int| 0 <= i < sessions.len() implies (#[trigger] sessions[i]).locked is None
        || sessions[i].locked == Some(true) || sessions[i].locked == Some(false) by {
        if let Some(b) = sessions[i].locked {
            assert(b == true || b == false);
        }
    }
    if lock_state(sessions) == Some(false) {
        assert forall|i: int| 0 <= i < sessions.len() && (#[trigger] sessions[i]).graphical() implies
            sessions[i].locked == Some(false) by {}
    }
    if (exists|i: int| 0 <= i < sessions.len() && (#[trigger] sessions[i]).graphical()) && (forall|i: int|
        0 <= i < sessions.len() && (#[trigger] sessions[i]).graphical() ==> sessions[i].locked == Some(
            false,
        )) {
        assert(lock_state(sessions) == Some(false));
    }
}

/// The AC line tells mains and battery apart by one and nought, and by nothing else.
pub proof fn one_is_mains_and_nought_is_battery(acline: Option<i64>)
    ensures
        line_state(acline) is Ac <==> acline == Some(1i64),
        line_state(acline) is Battery <==> acline == Some(0i64),
{
}

/// The words for the states.
pub proof fn a_state_has_its_word()
    ensures
        PowerState::Ac.word() == "AC"@,
        PowerState::Battery.word() == "battery"@,
        PowerState::Unknown.word() == "unknown"@,
{
}

} // verus!
