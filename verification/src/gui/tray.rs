//! The tray icon: what it says, and what its menu offers.

use vstd::prelude::*;

use crate::gui::commands::Command;
use crate::ipc::{duration_text, format_duration, watching, BUSES};
use crate::json::Json;
use crate::number::{dec, decimal};
use crate::text::{cat2, cat3, chars, join, joined, same, text, trim, trimmed, views};

verus! {

/// How many seconds lie between two polls of the daemon.
pub const POLL_INTERVAL_SECS: u64 = 2;

/// Daemon status as understood by the tray.
#[derive(Debug, Clone, Copy, PartialEq, Eq, Structural)]
pub enum DaemonStatus {
    /// Connected: armed in enforce mode.
    Armed,
    /// Connected: disarmed with optional remaining seconds.
    Disarmed(Option<u64>),
    /// Connected: learning mode.
    Learning,
    /// Cannot reach daemon.
    Disconnected,
}

/// The tray state.
#[derive(Debug, PartialEq, Eq)]
pub struct TrayModel {
    pub status: DaemonStatus,
    pub violations: u64,
    pub uptime_secs: Option<u64>,
    pub watching: Vec<String>,
}

/// What a menu entry does.
#[derive(Debug, Clone, Copy, PartialEq, Eq)]
pub enum MenuAction {
    /// Nothing: a line to read.
    Nothing,
    /// Send a command to the daemon.
    Send(Command),
    /// Offer the durations of `DISARM_PRESETS`, as everywhere.
    DisarmMenu,
    /// Leave the tray.
    Quit,
}

/// One line of the menu.
#[derive(Debug, PartialEq, Eq)]
pub enum MenuLine {
    Separator,
    Item { label: String, icon: &'static str, enabled: bool, action: MenuAction },
}

/// What the tray shows for the data of a status reply.
pub open spec fn status_in(data: Json) -> DaemonStatus {
    if data.truth_at("armed"@) == Some(false) {
        DaemonStatus::Disarmed(
            match data.uint_at("disarm_remaining_secs"@) {
                Some(n) => if n > 0 {
                    Some(n)
                } else {
                    None
                },
                None => None,
            },
        )
    } else if data.text_at("mode"@) == Some("learn"@) {
        DaemonStatus::Learning
    } else {
        DaemonStatus::Armed
    }
}

/// The data of a reply that the tray can read: the request went well, and the
/// daemon says whether it is armed and in which mode.
pub open spec fn readable(reply: Json) -> Option<Json> {
    match reply.at("data"@) {
        Some(data) => if reply.truth_at("ok"@) == Some(true) && data.truth_at("armed"@) is Some
            && data.text_at("mode"@) is Some {
            Some(data)
        } else {
            None
        },
        None => None,
    }
}

/// Whether a tray shows nothing but that the daemon is gone.
pub open spec fn disconnected(t: TrayModel) -> bool {
    t.status == DaemonStatus::Disconnected && t.violations == 0 && t.uptime_secs is None
        && t.watching@.len() == 0
}

impl TrayModel {
    /// The tray before the daemon has answered, or when it does not.
    pub fn gone() -> (r: TrayModel)
        ensures
            disconnected(r),
    {
        TrayModel {
            status: DaemonStatus::Disconnected,
            violations: 0,
            uptime_secs: None,
            watching: Vec::new(),
        }
    }

    /// The tray for the daemon's reply to a status request, `None` where there
    /// was none.
    pub fn poll_status(reply: Option<&Json>) -> (r: TrayModel)
        ensures
            match reply {
                None => disconnected(r),
                Some(j) => match readable(*j) {
                    None => disconnected(r),
                    Some(data) => {
                        &&& r.status == status_in(data)
                        &&& r.violations == match data.uint_at("violations_logged"@) {
                            Some(n) => n,
                            None => 0,
                        }
                        &&& r.uptime_secs == data.uint_at("uptime_secs"@)
                        &&& views(r.watching@) == watching(data, 8)
                    },
                },
            },
    {
        let reply = match reply {
            Some(j) => j,
            None => {
                return TrayModel::gone();
            },
        };
        let mut ok = false;
        if let Some(b) = reply.get_bool("ok") {
            ok = b;
        }
        if !ok {
            return TrayModel::gone();
        }
        let data = match reply.get("data") {
            Some(d) => d,
            None => {
                return TrayModel::gone();
            },
        };
        let armed = match data.get_bool("armed") {
            Some(b) => b,
            None => {
                return TrayModel::gone();
            },
        };
        let mode = match data.get_str("mode") {
            Some(m) => m,
            None => {
                return TrayModel::gone();
            },
        };
        let violations: u64 = match data.get_u64("violations_logged") {
            Some(n) => n,
            None => 0,
        };
        let status = if !armed {
            DaemonStatus::Disarmed(
                match data.get_u64("disarm_remaining_secs") {
                    Some(n) => if n > 0 {
                        Some(n)
                    } else {
                        None
                    },
                    None => None,
                },
            )
        } else if same(mode, "learn") {
            DaemonStatus::Learning
        } else {
            DaemonStatus::Armed
        };
        let mut names: Vec<String> = Vec::new();
        let mut i: usize = 0;
        assert(views(names@) =~= Seq::<Seq<char>>::empty());
        while i < 8
            invariant
                i <= 8,
                views(names@) == watching(*data, i as int),
            decreases 8 - i,
        {
            let ghost before = names@;
            let bus = BUSES[i];
            let mut on = false;
            if let Some(b) = data.get_bool(bus.0) {
                on = b;
            }
            if on {
                names.push(bus.1.to_owned());
                assert(views(names@) =~= views(before).push(bus.1@));
            }
            i += 1;
        }
        TrayModel { status, violations, uptime_secs: data.get_u64("uptime_secs"), watching: names }
    }

    /// The title of the icon.
    pub fn title(&self) -> (r: String)
        ensures
            r@ == title_text(self.status),
    {
        match self.status {
            DaemonStatus::Armed => "Plugkill: Armed".to_owned(),
            DaemonStatus::Disarmed(Some(s)) => cat3(
                "Plugkill: Disarmed (",
                format_duration(s).as_str(),
                ")",
            ),
            DaemonStatus::Disarmed(None) => "Plugkill: Disarmed".to_owned(),
            DaemonStatus::Learning => "Plugkill: Learning".to_owned(),
            DaemonStatus::Disconnected => "Plugkill: Disconnected".to_owned(),
        }
    }

    /// Whether the icon asks for attention.
    pub fn needs_attention(&self) -> (r: bool)
        ensures
            r == (self.status is Disarmed),
    {
        match self.status {
            DaemonStatus::Disarmed(_) => true,
            _ => false,
        }
    }

    /// The colour of the icon: red, green and blue.
    pub fn colour(&self) -> (r: (u8, u8, u8))
        ensures
            r == match self.status {
                DaemonStatus::Armed => (0x2eu8, 0xccu8, 0x40u8),
                DaemonStatus::Learning => (0xf5u8, 0xc2u8, 0x11u8),
                DaemonStatus::Disarmed(_) => (0xe0u8, 0x4fu8, 0x5fu8),
                DaemonStatus::Disconnected => (0x88u8, 0x88u8, 0x88u8),
            },
    {
        match self.status {
            DaemonStatus::Armed => (0x2e, 0xcc, 0x40),
            DaemonStatus::Learning => (0xf5, 0xc2, 0x11),
            DaemonStatus::Disarmed(_) => (0xe0, 0x4f, 0x5f),
            DaemonStatus::Disconnected => (0x88, 0x88, 0x88),
        }
    }

    /// The text under the tooltip's title.
    pub fn tool_tip(&self) -> (r: String)
        ensures
            r@ == trimmed(tip_text(*self)),
    {
        let mut desc = String::new();
        if let Some(secs) = self.uptime_secs {
            desc = cat3("Uptime: ", format_duration(secs).as_str(), "\n");
        }
        assert(desc@ =~= uptime_tip(self.uptime_secs));
        assert(views(self.watching@).len() == self.watching@.len());
        if self.watching.len() > 0 {
            let line = cat3("Watching: ", join(self.watching.as_slice(), ", ").as_str(), "\n");
            desc.push_str(line.as_str());
        } else {
            assert(desc@ + Seq::<char>::empty() =~= desc@);
        }
        if self.violations > 0 {
            let line = cat2("Violations logged: ", decimal(self.violations).as_str());
            desc.push_str(line.as_str());
        } else {
            assert(desc@ + Seq::<char>::empty() =~= desc@);
        }
        let cs = chars(desc.as_str());
        text(trim(cs.as_slice()))
    }

    /// The menu, top to bottom.
    pub fn menu(&self) -> (r: Vec<MenuLine>)
        ensures
            menu_for(r@, *self),
    {
        let connected = self.status != DaemonStatus::Disconnected;
        let learning = self.status == DaemonStatus::Learning;
        let armed = self.status == DaemonStatus::Armed;
        let mut items: Vec<MenuLine> = Vec::new();
        let (label, icon) = match self.status {
            DaemonStatus::Armed => ("Armed (enforce mode)".to_owned(), "security-high"),
            DaemonStatus::Disarmed(Some(s)) => (
                cat3("Disarmed (re-arms in ", format_duration(s).as_str(), ")"),
                "security-low",
            ),
            DaemonStatus::Disarmed(None) => ("Disarmed".to_owned(), "security-low"),
            DaemonStatus::Learning => ("Armed (learning mode)".to_owned(), "security-medium"),
            DaemonStatus::Disconnected => ("Daemon not running".to_owned(), "network-offline"),
        };
        items.push(MenuLine::Item { label, icon, enabled: false, action: MenuAction::Nothing });
        if self.violations > 0 {
            items.push(
                MenuLine::Item {
                    label: cat2("Violations: ", decimal(self.violations).as_str()),
                    icon: "dialog-warning",
                    enabled: false,
                    action: MenuAction::Nothing,
                },
            );
        }
        items.push(MenuLine::Separator);
        items.push(
            MenuLine::Item {
                label: "Arm".to_owned(),
                icon: "media-playback-start",
                enabled: connected && !armed,
                action: MenuAction::Send(Command::Arm),
            },
        );
        items.push(
            MenuLine::Item {
                label: "Disarm".to_owned(),
                icon: "media-playback-pause",
                enabled: connected && (armed || learning),
                action: MenuAction::DisarmMenu,
            },
        );
        items.push(MenuLine::Separator);
        items.push(
            MenuLine::Item {
                label: "Switch to Learning Mode".to_owned(),
                icon: "dialog-information",
                enabled: connected && !learning,
                action: MenuAction::Send(Command::Learn),
            },
        );
        items.push(
            MenuLine::Item {
                label: "Switch to Enforce Mode".to_owned(),
                icon: "dialog-error",
                enabled: connected && learning,
                action: MenuAction::Send(Command::Enforce),
            },
        );
        items.push(MenuLine::Separator);
        items.push(
            MenuLine::Item {
                label: "Reload Config".to_owned(),
                icon: "view-refresh",
                enabled: connected,
                action: MenuAction::Send(Command::Reload),
            },
        );
        items.push(MenuLine::Separator);
        items.push(
            MenuLine::Item {
                label: "Quit".to_owned(),
                icon: "application-exit",
                enabled: true,
                action: MenuAction::Quit,
            },
        );
        items
    }
}

/// The title of the icon.
pub open spec fn title_text(s: DaemonStatus) -> Seq<char> {
    match s {
        DaemonStatus::Armed => "Plugkill: Armed"@,
        DaemonStatus::Disarmed(Some(n)) => "Plugkill: Disarmed ("@ + duration_text(n) + ")"@,
        DaemonStatus::Disarmed(None) => "Plugkill: Disarmed"@,
        DaemonStatus::Learning => "Plugkill: Learning"@,
        DaemonStatus::Disconnected => "Plugkill: Disconnected"@,
    }
}

/// The uptime line of the tooltip.
pub open spec fn uptime_tip(secs: Option<u64>) -> Seq<char> {
    match secs {
        Some(n) => "Uptime: "@ + duration_text(n) + "\n"@,
        None => Seq::empty(),
    }
}

/// The text under the tooltip's title.
pub open spec fn tip_text(t: TrayModel) -> Seq<char> {
    uptime_tip(t.uptime_secs) + (if t.watching@.len() > 0 {
        "Watching: "@ + joined(views(t.watching@), ", "@) + "\n"@
    } else {
        Seq::empty()
    }) + (if t.violations > 0 {
        "Violations logged: "@ + dec(t.violations as nat)
    } else {
        Seq::empty()
    })
}

/// The status line at the head of the menu: its label and its icon.
pub open spec fn header_for(s: DaemonStatus) -> (Seq<char>, Seq<char>) {
    match s {
        DaemonStatus::Armed => ("Armed (enforce mode)"@, "security-high"@),
        DaemonStatus::Disarmed(Some(n)) => (
            "Disarmed (re-arms in "@ + duration_text(n) + ")"@,
            "security-low"@,
        ),
        DaemonStatus::Disarmed(None) => ("Disarmed"@, "security-low"@),
        DaemonStatus::Learning => ("Armed (learning mode)"@, "security-medium"@),
        DaemonStatus::Disconnected => ("Daemon not running"@, "network-offline"@),
    }
}

/// Whether a menu line is this item.
pub open spec fn item_is(
    line: MenuLine,
    label: Seq<char>,
    icon: Seq<char>,
    enabled: bool,
    action: MenuAction,
) -> bool {
    line matches MenuLine::Item { label: l, icon: i, enabled: e, action: a } && l@ == label && i@
        == icon && e == enabled && a == action
}

/// The menu: the status, the violations where there are any, then what can be
/// done in the state the daemon is in.
pub open spec fn menu_for(m: Seq<MenuLine>, t: TrayModel) -> bool {
    let up = t.status != DaemonStatus::Disconnected;
    let learning = t.status == DaemonStatus::Learning;
    let armed = t.status == DaemonStatus::Armed;
    let k: int = if t.violations > 0 {
        1
    } else {
        0
    };
    &&& m.len() == 11 + k
    &&& item_is(m[0], header_for(t.status).0, header_for(t.status).1, false, MenuAction::Nothing)
    &&& t.violations > 0 ==> item_is(
        m[1],
        "Violations: "@ + dec(t.violations as nat),
        "dialog-warning"@,
        false,
        MenuAction::Nothing,
    )
    &&& m[1 + k] is Separator
    &&& item_is(
        m[2 + k],
        "Arm"@,
        "media-playback-start"@,
        up && !armed,
        MenuAction::Send(Command::Arm),
    )
    &&& item_is(
        m[3 + k],
        "Disarm"@,
        "media-playback-pause"@,
        up && (armed || learning),
        MenuAction::DisarmMenu,
    )
    &&& m[4 + k] is Separator
    &&& item_is(
        m[5 + k],
        "Switch to Learning Mode"@,
        "dialog-information"@,
        up && !learning,
        MenuAction::Send(Command::Learn),
    )
    &&& item_is(
        m[6 + k],
        "Switch to Enforce Mode"@,
        "dialog-error"@,
        up && learning,
        MenuAction::Send(Command::Enforce),
    )
    &&& m[7 + k] is Separator
    &&& item_is(
        m[8 + k],
        "Reload Config"@,
        "view-refresh"@,
        up,
        MenuAction::Send(Command::Reload),
    )
    &&& m[9 + k] is Separator
    &&& item_is(m[10 + k], "Quit"@, "application-exit"@, true, MenuAction::Quit)
}

/// While the daemon is gone nothing can be asked of it, but the tray can
/// always be left.
pub proof fn a_lost_daemon_is_asked_nothing(m: Seq<MenuLine>, t: TrayModel, i: int)
    requires
        menu_for(m, t),
        disconnected(t),
        0 <= i < m.len(),
    ensures
        m[i] matches MenuLine::Item { label, icon, enabled, action } ==> (enabled <==> action
            == MenuAction::Quit),
{
}

/// A status is disarmed exactly where the daemon says that it is not armed; then it says
/// how long for, where any time is left. Otherwise it learns or enforces.
pub proof fn a_status_is_what_the_daemon_says(data: Json)
    ensures
        status_in(data) is Disarmed <==> data.at("armed"@) == Some(Json::Bool(false)),
        status_in(data) matches DaemonStatus::Disarmed(left) ==> match left {
            Some(n) => n > 0 && data.at("disarm_remaining_secs"@) == Some(Json::Uint(n)),
            None => !(data.at("disarm_remaining_secs"@) matches Some(Json::Uint(n)) && n > 0),
        },
        data.at("armed"@) != Some(Json::Bool(false)) ==> (status_in(data) is Learning <==> (data.at(
            "mode"@,
        ) matches Some(Json::Str(m)) && m@ == "learn"@)),
        !(status_in(data) is Disconnected),
{
}

/// A reply is a status exactly where it is a success with data that say whether the
/// daemon is armed, and in which mode.
pub proof fn a_reply_is_a_status_exactly_when(reply: Json)
    ensures
        readable(reply) is Some <==> {
            &&& reply.at("ok"@) == Some(Json::Bool(true))
            &&& reply.at("data"@) matches Some(d) && (d.at("armed"@) matches Some(Json::Bool(_))) && (
            d.at("mode"@) matches Some(Json::Str(_)))
        },
        readable(reply) is Some ==> readable(reply) == reply.at("data"@),
{
}

/// Whether a menu offers an action.
pub open spec fn offers(m: Seq<MenuLine>, action: MenuAction) -> bool {
    exists|i: int|
        0 <= i < m.len() && (#[trigger] m[i] matches MenuLine::Item { label, icon, enabled, action: a }
            && enabled && a == action)
}

/// The menu offers to arm while the daemon is disarmed or learning, to disarm while it
/// is not, to learn while it is up and does not, to enforce while it learns, to reload
/// while it is up, and to quit always.
pub proof fn the_menu_offers_what_can_be_done(m: Seq<MenuLine>, t: TrayModel)
    requires
        menu_for(m, t),
    ensures
        offers(m, MenuAction::Send(Command::Arm)) <==> t.status is Disarmed || t.status is Learning,
        offers(m, MenuAction::DisarmMenu) <==> t.status is Armed || t.status is Learning,
        offers(m, MenuAction::Send(Command::Learn)) <==> t.status is Armed || t.status is Disarmed,
        offers(m, MenuAction::Send(Command::Enforce)) <==> t.status is Learning,
        offers(m, MenuAction::Send(Command::Reload)) <==> !(t.status is Disconnected),
        offers(m, MenuAction::Quit),
{
    let k: int = if t.violations > 0 {
        1
    } else {
        0
    };
    assert(m[2 + k] is Item && m[3 + k] is Item && m[5 + k] is Item && m[6 + k] is Item && m[8
        + k] is Item && m[10 + k] is Item);
    assert forall|i: int| 0 <= i < m.len() && #[trigger] m[i] is Item implies i == 0 || (k == 1 && i
        == 1) || i == 2 + k || i == 3 + k || i == 5 + k || i == 6 + k || i == 8 + k || i == 10 + k by {
        if i != 0 && !(k == 1 && i == 1) && i != 2 + k && i != 3 + k && i != 5 + k && i != 6 + k && i
            != 8 + k && i != 10 + k {
            assert(i == 1 + k || i == 4 + k || i == 7 + k || i == 9 + k);
        }
    }
}

/// The tray says the state, and under it what it knows: nothing of what is missing.
pub proof fn the_tray_says_what_it_knows(t: TrayModel, n: u64)
    ensures
        title_text(DaemonStatus::Armed) == "Plugkill: Armed"@,
        title_text(DaemonStatus::Learning) == "Plugkill: Learning"@,
        title_text(DaemonStatus::Disarmed(None)) == "Plugkill: Disarmed"@,
        title_text(DaemonStatus::Disarmed(Some(n))) == "Plugkill: Disarmed ("@ + duration_text(n)
            + ")"@,
        title_text(DaemonStatus::Disconnected) == "Plugkill: Disconnected"@,
        t.uptime_secs is None && t.watching@.len() == 0 && t.violations == 0 ==> tip_text(t).len() == 0,
        t.uptime_secs is None && t.watching@.len() == 0 && t.violations > 0 ==> tip_text(t)
            == "Violations logged: "@ + dec(t.violations as nat),
        t.uptime_secs == Some(n) && t.watching@.len() == 0 && t.violations == 0 ==> tip_text(t)
            == "Uptime: "@ + duration_text(n) + "\n"@,
        t.uptime_secs is None && t.watching@.len() > 0 && t.violations == 0 ==> tip_text(t)
            == "Watching: "@ + joined(views(t.watching@), ", "@) + "\n"@,
{
    let none = Seq::<char>::empty();
    let v = "Violations logged: "@ + dec(t.violations as nat);
    assert(none + none + v =~= v);
    let u = "Uptime: "@ + duration_text(n) + "\n"@;
    assert(u + none + none =~= u);
    let w = "Watching: "@ + joined(views(t.watching@), ", "@) + "\n"@;
    assert(none + w + none =~= w);
}

} // verus!
