//! The form: which control edits which field, section by section. The
//! placeholder on each field is the daemon's own default.

use vstd::prelude::*;

use crate::config::{
    Config, DisplayConfig, DisplayPolicy, GeneralConfig, LidConfig, LidPolicy, NetworkConfig,
    NetworkPolicy, PciConfig, PciPolicy, PowerConfig, PowerPolicy,
};
use crate::gui::settings::editor::model::{ListKind, SECTIONS};
use crate::number::{dec, decimal};
use crate::text::cat3;

verus! {

/// A spin button's ceiling. Wider than the daemon accepts on purpose: the
/// loader clamps silently, and the output pane says what it clamped.
pub const MAX_SLEEP_MS: u64 = 60_000;

/// The ceiling of the grace periods.
pub const MAX_GRACE_SECS: u64 = 3_600;

/// A field with a switch.
#[derive(Debug, Clone, Copy, PartialEq, Eq, Structural)]
pub enum SwitchField {
    DryRun,
    RequireAuth,
    WatchUsb,
    WatchThunderbolt,
    WatchSdCard,
    WatchPower,
    RequireLocked,
    WatchNetwork,
    WatchLid,
    WatchPci,
    WatchDisplay,
}

/// A field with a spin button.
#[derive(Debug, Clone, Copy, PartialEq, Eq, Structural)]
pub enum NumberField {
    SleepMs,
    PowerGrace,
    NetworkGrace,
    LidGrace,
}

/// A field with a list of choices.
#[derive(Debug, Clone, Copy, PartialEq, Eq, Structural)]
pub enum PolicyField {
    Power,
    Network,
    Lid,
    Pci,
    Display,
}

/// One control of the form.
#[derive(Debug, PartialEq, Eq)]
pub enum Control {
    Number { label: String, max: u64, field: NumberField },
    /// The log file, the one field of free text.
    LogFile { label: &'static str, placeholder: String },
    Switch { label: &'static str, field: SwitchField },
    Policy { label: &'static str, field: PolicyField },
    Note(&'static str),
    Table { kind: ListKind, placeholder: &'static str },
}

/// One section of the form.
#[derive(Debug, PartialEq, Eq)]
pub struct Section {
    pub title: &'static str,
    pub controls: Vec<Control>,
}

/// A control by what it shows and edits.
pub enum ControlModel {
    Number(Seq<char>, u64, NumberField),
    LogFile(Seq<char>, Seq<char>),
    Switch(Seq<char>, SwitchField),
    Policy(Seq<char>, PolicyField),
    Note(Seq<char>),
    Table(ListKind, Seq<char>),
}

impl View for Control {
    type V = ControlModel;

    open spec fn view(&self) -> ControlModel {
        match *self {
            Control::Number { label, max, field } => ControlModel::Number(label@, max, field),
            Control::LogFile { label, placeholder } => ControlModel::LogFile(label@, placeholder@),
            Control::Switch { label, field } => ControlModel::Switch(label@, field),
            Control::Policy { label, field } => ControlModel::Policy(label@, field),
            Control::Note(t) => ControlModel::Note(t@),
            Control::Table { kind, placeholder } => ControlModel::Table(kind, placeholder@),
        }
    }
}

/// Controls by what they show and edit.
pub open spec fn control_values(s: Seq<Control>) -> Seq<ControlModel> {
    s.map_values(|c: Control| c@)
}

/// The label of every grace period.
pub open spec fn grace_label() -> Seq<char> {
    "Grace, seconds (default 0, max 300)"@
}

/// The label of every policy.
pub open spec fn policy_label() -> Seq<char> {
    "Policy (default monitor)"@
}

/// The controls of the section at a position of `SECTIONS`.
pub open spec fn controls_of(i: int) -> Seq<ControlModel> {
    if i == 0 {
        seq![
            ControlModel::Number(
                "Poll interval, ms (default "@ + dec(250) + ")"@,
                MAX_SLEEP_MS,
                NumberField::SleepMs,
            ),
            ControlModel::LogFile("Log file"@, "/var/log/plugkill/plugkill.log"@),
            ControlModel::Switch("Dry run: log violations, kill nothing"@, SwitchField::DryRun),
            ControlModel::Switch(
                "Require authentication for disarm, learn and reload"@,
                SwitchField::RequireAuth,
            ),
        ]
    } else if i == 1 {
        seq![
            ControlModel::Switch("Watch USB"@, SwitchField::WatchUsb),
            ControlModel::Table(ListKind::Usb, "vendor:product, 1d6b:0002"@),
        ]
    } else if i == 2 {
        seq![
            ControlModel::Switch("Watch Thunderbolt"@, SwitchField::WatchThunderbolt),
            ControlModel::Table(ListKind::Thunderbolt, "unique id"@),
        ]
    } else if i == 3 {
        seq![
            ControlModel::Switch("Watch SD cards"@, SwitchField::WatchSdCard),
            ControlModel::Table(ListKind::SdCard, "card serial"@),
        ]
    } else if i == 4 {
        seq![
            ControlModel::Switch("Watch power"@, SwitchField::WatchPower),
            ControlModel::Policy(policy_label(), PolicyField::Power),
            ControlModel::Number(grace_label(), MAX_GRACE_SECS, NumberField::PowerGrace),
            ControlModel::Switch("Only when the session is locked"@, SwitchField::RequireLocked),
        ]
    } else if i == 5 {
        seq![
            ControlModel::Switch("Watch network"@, SwitchField::WatchNetwork),
            ControlModel::Policy(policy_label(), PolicyField::Network),
            ControlModel::Number(grace_label(), MAX_GRACE_SECS, NumberField::NetworkGrace),
            ControlModel::Note("Interfaces to watch. Empty watches every interface."@),
            ControlModel::Table(ListKind::Network, "eth0"@),
        ]
    } else if i == 6 {
        seq![
            ControlModel::Switch("Watch the lid"@, SwitchField::WatchLid),
            ControlModel::Policy(policy_label(), PolicyField::Lid),
            ControlModel::Number(grace_label(), MAX_GRACE_SECS, NumberField::LidGrace),
        ]
    } else if i == 7 {
        seq![
            ControlModel::Switch("Watch PCI"@, SwitchField::WatchPci),
            ControlModel::Policy(policy_label(), PolicyField::Pci),
            ControlModel::Note("Selectors never triggered on, matched as substrings."@),
            ControlModel::Table(ListKind::Pci, "0000:01:00.0"@),
        ]
    } else {
        seq![
            ControlModel::Switch("Watch displays"@, SwitchField::WatchDisplay),
            ControlModel::Policy(policy_label(), PolicyField::Display),
            ControlModel::Note("Connectors to skip, such as eDP for the internal panel."@),
            ControlModel::Table(ListKind::Display, "eDP-1"@),
        ]
    }
}

fn grace(field: NumberField) -> (r: Control)
    ensures
        r@ == ControlModel::Number(grace_label(), MAX_GRACE_SECS, field),
{
    Control::Number {
        label: "Grace, seconds (default 0, max 300)".to_owned(),
        max: MAX_GRACE_SECS,
        field,
    }
}

fn policy(field: PolicyField) -> (r: Control)
    ensures
        r@ == ControlModel::Policy(policy_label(), field),
{
    Control::Policy { label: "Policy (default monitor)", field }
}

fn switch(label: &'static str, field: SwitchField) -> (r: Control)
    ensures
        r@ == ControlModel::Switch(label@, field),
{
    Control::Switch { label, field }
}

fn table(kind: ListKind, placeholder: &'static str) -> (r: Control)
    ensures
        r@ == ControlModel::Table(kind, placeholder@),
{
    Control::Table { kind, placeholder }
}

fn controls(i: usize) -> (r: Vec<Control>)
    requires
        i < 9,
    ensures
        control_values(r@) == controls_of(i as int),
{
    let mut out: Vec<Control> = Vec::new();
    if i == 0 {
        let d = Config::default();
        out.push(
            Control::Number {
                label: cat3(
                    "Poll interval, ms (default ",
                    decimal(d.general.sleep_ms).as_str(),
                    ")",
                ),
                max: MAX_SLEEP_MS,
                field: NumberField::SleepMs,
            },
        );
        out.push(Control::LogFile { label: "Log file", placeholder: d.general.log_file });
        out.push(switch("Dry run: log violations, kill nothing", SwitchField::DryRun));
        out.push(
            switch("Require authentication for disarm, learn and reload", SwitchField::RequireAuth),
        );
    } else if i == 1 {
        out.push(switch("Watch USB", SwitchField::WatchUsb));
        out.push(table(ListKind::Usb, "vendor:product, 1d6b:0002"));
    } else if i == 2 {
        out.push(switch("Watch Thunderbolt", SwitchField::WatchThunderbolt));
        out.push(table(ListKind::Thunderbolt, "unique id"));
    } else if i == 3 {
        out.push(switch("Watch SD cards", SwitchField::WatchSdCard));
        out.push(table(ListKind::SdCard, "card serial"));
    } else if i == 4 {
        out.push(switch("Watch power", SwitchField::WatchPower));
        out.push(policy(PolicyField::Power));
        out.push(grace(NumberField::PowerGrace));
        out.push(switch("Only when the session is locked", SwitchField::RequireLocked));
    } else if i == 5 {
        out.push(switch("Watch network", SwitchField::WatchNetwork));
        out.push(policy(PolicyField::Network));
        out.push(grace(NumberField::NetworkGrace));
        out.push(Control::Note("Interfaces to watch. Empty watches every interface."));
        out.push(table(ListKind::Network, "eth0"));
    } else if i == 6 {
        out.push(switch("Watch the lid", SwitchField::WatchLid));
        out.push(policy(PolicyField::Lid));
        out.push(grace(NumberField::LidGrace));
    } else if i == 7 {
        out.push(switch("Watch PCI", SwitchField::WatchPci));
        out.push(policy(PolicyField::Pci));
        out.push(Control::Note("Selectors never triggered on, matched as substrings."));
        out.push(table(ListKind::Pci, "0000:01:00.0"));
    } else {
        out.push(switch("Watch displays", SwitchField::WatchDisplay));
        out.push(policy(PolicyField::Display));
        out.push(Control::Note("Connectors to skip, such as eDP for the internal panel."));
        out.push(table(ListKind::Display, "eDP-1"));
    }
    assert(control_values(out@) =~= controls_of(i as int));
    out
}

/// The nine sections, in `SECTIONS` order.
pub fn build_sections() -> (r: Vec<Section>)
    ensures
        r@.len() == 9,
        forall|i: int|
            0 <= i < 9 ==> (#[trigger] r@[i]).title == SECTIONS@[i] && control_values(
                r@[i].controls@,
            ) == controls_of(i),
{
    let mut out: Vec<Section> = Vec::new();
    let mut i: usize = 0;
    while i < 9
        invariant
            i <= 9,
            out@.len() == i,
            forall|k: int|
                0 <= k < i ==> (#[trigger] out@[k]).title == SECTIONS@[k] && control_values(
                    out@[k].controls@,
                ) == controls_of(k),
        decreases 9 - i,
    {
        out.push(Section { title: SECTIONS[i], controls: controls(i) });
        i += 1;
    }
    out
}

// ---- switches ------------------------------------------------------------

impl SwitchField {
    /// Where the switch stands.
    pub open spec fn value(self, c: Config) -> bool {
        match self {
            SwitchField::DryRun => c.general.dry_run,
            SwitchField::RequireAuth => c.general.require_auth,
            SwitchField::WatchUsb => c.general.watch_usb,
            SwitchField::WatchThunderbolt => c.general.watch_thunderbolt,
            SwitchField::WatchSdCard => c.general.watch_sdcard,
            SwitchField::WatchPower => c.general.watch_power,
            SwitchField::RequireLocked => c.power.require_locked,
            SwitchField::WatchNetwork => c.general.watch_network,
            SwitchField::WatchLid => c.general.watch_lid,
            SwitchField::WatchPci => c.general.watch_pci,
            SwitchField::WatchDisplay => c.general.watch_display,
        }
    }

    /// The `[general]` section after the switch was thrown.
    pub open spec fn in_general(self, g: GeneralConfig, v: bool) -> GeneralConfig {
        match self {
            SwitchField::DryRun => GeneralConfig { dry_run: v, ..g },
            SwitchField::RequireAuth => GeneralConfig { require_auth: v, ..g },
            SwitchField::WatchUsb => GeneralConfig { watch_usb: v, ..g },
            SwitchField::WatchThunderbolt => GeneralConfig { watch_thunderbolt: v, ..g },
            SwitchField::WatchSdCard => GeneralConfig { watch_sdcard: v, ..g },
            SwitchField::WatchPower => GeneralConfig { watch_power: v, ..g },
            SwitchField::RequireLocked => g,
            SwitchField::WatchNetwork => GeneralConfig { watch_network: v, ..g },
            SwitchField::WatchLid => GeneralConfig { watch_lid: v, ..g },
            SwitchField::WatchPci => GeneralConfig { watch_pci: v, ..g },
            SwitchField::WatchDisplay => GeneralConfig { watch_display: v, ..g },
        }
    }

    /// The config after the switch was thrown.
    pub open spec fn thrown(self, c: Config, v: bool) -> Config {
        if self is RequireLocked {
            Config { power: PowerConfig { require_locked: v, ..c.power }, ..c }
        } else {
            Config { general: self.in_general(c.general, v), ..c }
        }
    }

    /// Where the switch stands.
    pub fn get(self, c: &Config) -> (r: bool)
        ensures
            r == self.value(*c),
    {
        match self {
            SwitchField::DryRun => c.general.dry_run,
            SwitchField::RequireAuth => c.general.require_auth,
            SwitchField::WatchUsb => c.general.watch_usb,
            SwitchField::WatchThunderbolt => c.general.watch_thunderbolt,
            SwitchField::WatchSdCard => c.general.watch_sdcard,
            SwitchField::WatchPower => c.general.watch_power,
            SwitchField::RequireLocked => c.power.require_locked,
            SwitchField::WatchNetwork => c.general.watch_network,
            SwitchField::WatchLid => c.general.watch_lid,
            SwitchField::WatchPci => c.general.watch_pci,
            SwitchField::WatchDisplay => c.general.watch_display,
        }
    }

    fn set_general(self, g: &mut GeneralConfig, v: bool)
        ensures
            *final(g) == self.in_general(*old(g), v),
    {
        match self {
            SwitchField::RequireLocked => {},
            SwitchField::DryRun => {
                g.dry_run = v;
            },
            SwitchField::RequireAuth => {
                g.require_auth = v;
            },
            SwitchField::WatchUsb => {
                g.watch_usb = v;
            },
            SwitchField::WatchThunderbolt => {
                g.watch_thunderbolt = v;
            },
            SwitchField::WatchSdCard => {
                g.watch_sdcard = v;
            },
            SwitchField::WatchPower => {
                g.watch_power = v;
            },
            SwitchField::WatchNetwork => {
                g.watch_network = v;
            },
            SwitchField::WatchLid => {
                g.watch_lid = v;
            },
            SwitchField::WatchPci => {
                g.watch_pci = v;
            },
            SwitchField::WatchDisplay => {
                g.watch_display = v;
            },
        }
    }

    /// Throw the switch.
    pub fn set(self, c: &mut Config, v: bool)
        ensures
            *final(c) == self.thrown(*old(c), v),
    {
        if let SwitchField::RequireLocked = self {
            c.power.require_locked = v;
        } else {
            self.set_general(&mut c.general, v);
        }
    }
}

// ---- numbers -------------------------------------------------------------

impl NumberField {
    /// The number in the config.
    pub open spec fn value(self, c: Config) -> u64 {
        match self {
            NumberField::SleepMs => c.general.sleep_ms,
            NumberField::PowerGrace => c.power.grace_secs,
            NumberField::NetworkGrace => c.network.grace_secs,
            NumberField::LidGrace => c.lid.grace_secs,
        }
    }

    /// The config with the number in it.
    pub open spec fn entered(self, c: Config, v: u64) -> Config {
        match self {
            NumberField::SleepMs => Config {
                general: GeneralConfig { sleep_ms: v, ..c.general },
                ..c
            },
            NumberField::PowerGrace => Config {
                power: PowerConfig { grace_secs: v, ..c.power },
                ..c
            },
            NumberField::NetworkGrace => Config {
                network: NetworkConfig { grace_secs: v, ..c.network },
                ..c
            },
            NumberField::LidGrace => Config { lid: LidConfig { grace_secs: v, ..c.lid }, ..c },
        }
    }

    /// The number in the config.
    pub fn get(self, c: &Config) -> (r: u64)
        ensures
            r == self.value(*c),
    {
        match self {
            NumberField::SleepMs => c.general.sleep_ms,
            NumberField::PowerGrace => c.power.grace_secs,
            NumberField::NetworkGrace => c.network.grace_secs,
            NumberField::LidGrace => c.lid.grace_secs,
        }
    }

    /// Put a number in the config.
    pub fn set(self, c: &mut Config, v: u64)
        ensures
            *final(c) == self.entered(*old(c), v),
    {
        match self {
            NumberField::SleepMs => {
                c.general.sleep_ms = v;
            },
            NumberField::PowerGrace => {
                c.power.grace_secs = v;
            },
            NumberField::NetworkGrace => {
                c.network.grace_secs = v;
            },
            NumberField::LidGrace => {
                c.lid.grace_secs = v;
            },
        }
    }
}

// ---- the log file --------------------------------------------------------

/// Put a log file in the config.
pub fn set_log_file(c: &mut Config, path: &str)
    ensures
        final(c).general.log_file@ == path@,
        *final(c) == (Config {
            general: GeneralConfig { log_file: final(c).general.log_file, ..old(c).general },
            ..*old(c)
        }),
{
    c.general.log_file = path.to_owned();
}

// ---- policies ------------------------------------------------------------

impl PolicyField {
    /// How many choices there are.
    pub open spec fn choices(self) -> int {
        if self is Power {
            3
        } else {
            2
        }
    }

    /// Which choice the config holds.
    pub open spec fn value(self, c: Config) -> int {
        match self {
            PolicyField::Power => match c.power.policy {
                PowerPolicy::Monitor => 0,
                PowerPolicy::TriggerOnce => 1,
                PowerPolicy::AcRequired => 2,
            },
            PolicyField::Network => match c.network.policy {
                NetworkPolicy::Monitor => 0,
                NetworkPolicy::Kill => 1,
            },
            PolicyField::Lid => match c.lid.policy {
                LidPolicy::Monitor => 0,
                LidPolicy::Kill => 1,
            },
            PolicyField::Pci => match c.pci.policy {
                PciPolicy::Monitor => 0,
                PciPolicy::Kill => 1,
            },
            PolicyField::Display => match c.display.policy {
                DisplayPolicy::Monitor => 0,
                DisplayPolicy::Kill => 1,
            },
        }
    }

    /// What the choices read as.
    pub open spec fn names(self) -> Seq<Seq<char>> {
        match self {
            PolicyField::Power => seq![
                "monitor: log only"@,
                "trigger-once: first unplug"@,
                "ac-required: any battery"@,
            ],
            PolicyField::Network => seq![
                "monitor: log only"@,
                "kill: link loss is a violation"@,
            ],
            PolicyField::Lid => seq!["monitor: log only"@, "kill: a close is a violation"@],
            PolicyField::Pci => seq!["monitor: log only"@, "kill: any add or remove"@],
            PolicyField::Display => seq![
                "monitor: log only"@,
                "kill: any connect or disconnect"@,
            ],
        }
    }

    /// Whether two configs differ in nothing but this policy.
    pub open spec fn alone(self, new: Config, old: Config) -> bool {
        match self {
            PolicyField::Power => new == (Config {
                power: PowerConfig { policy: new.power.policy, ..old.power },
                ..old
            }),
            PolicyField::Network => new == (Config {
                network: NetworkConfig { policy: new.network.policy, ..old.network },
                ..old
            }),
            PolicyField::Lid => new == (Config {
                lid: LidConfig { policy: new.lid.policy, ..old.lid },
                ..old
            }),
            PolicyField::Pci => new == (Config {
                pci: PciConfig { policy: new.pci.policy, ..old.pci },
                ..old
            }),
            PolicyField::Display => new == (Config {
                display: DisplayConfig { policy: new.display.policy, ..old.display },
                ..old
            }),
        }
    }

    /// What the choices read as.
    pub fn options(self) -> (r: Vec<&'static str>)
        ensures
            r@.map_values(|s: &'static str| s@) == self.names(),
    {
        let mut out: Vec<&'static str> = Vec::new();
        out.push("monitor: log only");
        match self {
            PolicyField::Power => {
                out.push("trigger-once: first unplug");
                out.push("ac-required: any battery");
            },
            PolicyField::Network => {
                out.push("kill: link loss is a violation");
            },
            PolicyField::Lid => {
                out.push("kill: a close is a violation");
            },
            PolicyField::Pci => {
                out.push("kill: any add or remove");
            },
            PolicyField::Display => {
                out.push("kill: any connect or disconnect");
            },
        }
        assert(out@.map_values(|s: &'static str| s@) =~= self.names());
        out
    }

    /// Which choice the config holds.
    pub fn get(self, c: &Config) -> (r: usize)
        ensures
            r == self.value(*c),
            r < self.choices(),
    {
        match self {
            PolicyField::Power => match c.power.policy {
                PowerPolicy::Monitor => 0,
                PowerPolicy::TriggerOnce => 1,
                PowerPolicy::AcRequired => 2,
            },
            PolicyField::Network => match c.network.policy {
                NetworkPolicy::Monitor => 0,
                NetworkPolicy::Kill => 1,
            },
            PolicyField::Lid => match c.lid.policy {
                LidPolicy::Monitor => 0,
                LidPolicy::Kill => 1,
            },
            PolicyField::Pci => match c.pci.policy {
                PciPolicy::Monitor => 0,
                PciPolicy::Kill => 1,
            },
            PolicyField::Display => match c.display.policy {
                DisplayPolicy::Monitor => 0,
                DisplayPolicy::Kill => 1,
            },
        }
    }

    /// Take a choice. One that is not in the list changes nothing.
    pub fn set(self, c: &mut Config, choice: usize)
        ensures
            choice < self.choices() ==> self.value(*final(c)) == choice,
            choice >= self.choices() ==> *final(c) == *old(c),
            self.alone(*final(c), *old(c)),
    {
        match self {
            PolicyField::Power => {
                if choice == 0 {
                    c.power.policy = PowerPolicy::Monitor;
                } else if choice == 1 {
                    c.power.policy = PowerPolicy::TriggerOnce;
                } else if choice == 2 {
                    c.power.policy = PowerPolicy::AcRequired;
                }
            },
            PolicyField::Network => {
                if choice == 0 {
                    c.network.policy = NetworkPolicy::Monitor;
                } else if choice == 1 {
                    c.network.policy = NetworkPolicy::Kill;
                }
            },
            PolicyField::Lid => {
                if choice == 0 {
                    c.lid.policy = LidPolicy::Monitor;
                } else if choice == 1 {
                    c.lid.policy = LidPolicy::Kill;
                }
            },
            PolicyField::Pci => {
                if choice == 0 {
                    c.pci.policy = PciPolicy::Monitor;
                } else if choice == 1 {
                    c.pci.policy = PciPolicy::Kill;
                }
            },
            PolicyField::Display => {
                if choice == 0 {
                    c.display.policy = DisplayPolicy::Monitor;
                } else if choice == 1 {
                    c.display.policy = DisplayPolicy::Kill;
                }
            },
        }
    }
}

// ---- laws ----------------------------------------------------------------

/// A switch shows what it was set to, and no other switch moves.
pub proof fn a_switch_moves_alone(f: SwitchField, g: SwitchField, c: Config, v: bool)
    ensures
        f.value(f.thrown(c, v)) == v,
        g != f ==> g.value(f.thrown(c, v)) == g.value(c),
{
}

/// A number shows what it was set to, and no other number moves.
pub proof fn a_number_moves_alone(f: NumberField, g: NumberField, c: Config, v: u64)
    ensures
        f.value(f.entered(c, v)) == v,
        g != f ==> g.value(f.entered(c, v)) == g.value(c),
{
}

/// No control reaches what only root may edit: the kill commands and what gets
/// destroyed.
pub proof fn no_control_reaches_the_kill_commands(
    s: SwitchField,
    n: NumberField,
    p: PolicyField,
    c: Config,
    on: bool,
    v: u64,
    picked: Config,
)
    requires
        p.alone(picked, c),
    ensures
        s.thrown(c, on).commands == c.commands && s.thrown(c, on).destruction == c.destruction,
        n.entered(c, v).commands == c.commands && n.entered(c, v).destruction == c.destruction,
        picked.commands == c.commands && picked.destruction == c.destruction,
{
}

/// Each switch throws the setting it is labelled with, and each number enters its own.
pub proof fn each_control_has_its_setting(c: Config, v: bool, n: u64)
    ensures
        SwitchField::DryRun.thrown(c, v) == (Config {
            general: GeneralConfig { dry_run: v, ..c.general },
            ..c
        }),
        SwitchField::RequireAuth.thrown(c, v) == (Config {
            general: GeneralConfig { require_auth: v, ..c.general },
            ..c
        }),
        SwitchField::WatchUsb.thrown(c, v) == (Config {
            general: GeneralConfig { watch_usb: v, ..c.general },
            ..c
        }),
        SwitchField::WatchThunderbolt.thrown(c, v) == (Config {
            general: GeneralConfig { watch_thunderbolt: v, ..c.general },
            ..c
        }),
        SwitchField::WatchSdCard.thrown(c, v) == (Config {
            general: GeneralConfig { watch_sdcard: v, ..c.general },
            ..c
        }),
        SwitchField::WatchPower.thrown(c, v) == (Config {
            general: GeneralConfig { watch_power: v, ..c.general },
            ..c
        }),
        SwitchField::RequireLocked.thrown(c, v) == (Config {
            power: PowerConfig { require_locked: v, ..c.power },
            ..c
        }),
        SwitchField::WatchNetwork.thrown(c, v) == (Config {
            general: GeneralConfig { watch_network: v, ..c.general },
            ..c
        }),
        SwitchField::WatchLid.thrown(c, v) == (Config {
            general: GeneralConfig { watch_lid: v, ..c.general },
            ..c
        }),
        SwitchField::WatchPci.thrown(c, v) == (Config {
            general: GeneralConfig { watch_pci: v, ..c.general },
            ..c
        }),
        SwitchField::WatchDisplay.thrown(c, v) == (Config {
            general: GeneralConfig { watch_display: v, ..c.general },
            ..c
        }),
        NumberField::SleepMs.entered(c, n) == (Config {
            general: GeneralConfig { sleep_ms: n, ..c.general },
            ..c
        }),
        NumberField::PowerGrace.entered(c, n) == (Config {
            power: PowerConfig { grace_secs: n, ..c.power },
            ..c
        }),
        NumberField::NetworkGrace.entered(c, n) == (Config {
            network: NetworkConfig { grace_secs: n, ..c.network },
            ..c
        }),
        NumberField::LidGrace.entered(c, n) == (Config {
            lid: LidConfig { grace_secs: n, ..c.lid },
            ..c
        }),
{
}

/// A policy is shown by its place in the choices, the first of which only watches, and
/// each choice is named for what it does.
pub proof fn each_policy_has_its_place(f: PolicyField, c: Config)
    ensures
        0 <= f.value(c) < f.choices(),
        f.names().len() == f.choices(),
        PolicyField::Power.value(c) == 0 <==> c.power.policy is Monitor,
        PolicyField::Power.value(c) == 1 <==> c.power.policy is TriggerOnce,
        PolicyField::Power.value(c) == 2 <==> c.power.policy is AcRequired,
        PolicyField::Network.value(c) == 1 <==> c.network.policy is Kill,
        PolicyField::Lid.value(c) == 1 <==> c.lid.policy is Kill,
        PolicyField::Pci.value(c) == 1 <==> c.pci.policy is Kill,
        PolicyField::Display.value(c) == 1 <==> c.display.policy is Kill,
        f.names()[0] == "monitor: log only"@,
{
}

/// Each section begins with the switch of its bus and ends with the table of its list,
/// where it has one.
pub proof fn each_section_has_its_controls()
    ensures
        controls_of(1)[0] == ControlModel::Switch("Watch USB"@, SwitchField::WatchUsb),
        controls_of(2)[0] == ControlModel::Switch("Watch Thunderbolt"@, SwitchField::WatchThunderbolt),
        controls_of(3)[0] == ControlModel::Switch("Watch SD cards"@, SwitchField::WatchSdCard),
        controls_of(4)[0] == ControlModel::Switch("Watch power"@, SwitchField::WatchPower),
        controls_of(5)[0] == ControlModel::Switch("Watch network"@, SwitchField::WatchNetwork),
        controls_of(6)[0] == ControlModel::Switch("Watch the lid"@, SwitchField::WatchLid),
        controls_of(7)[0] == ControlModel::Switch("Watch PCI"@, SwitchField::WatchPci),
        controls_of(8)[0] == ControlModel::Switch("Watch displays"@, SwitchField::WatchDisplay),
        controls_of(1).last() matches ControlModel::Table(k, _) && k is Usb,
        controls_of(2).last() matches ControlModel::Table(k, _) && k is Thunderbolt,
        controls_of(3).last() matches ControlModel::Table(k, _) && k is SdCard,
        controls_of(5).last() matches ControlModel::Table(k, _) && k is Network,
        controls_of(7).last() matches ControlModel::Table(k, _) && k is Pci,
        controls_of(8).last() matches ControlModel::Table(k, _) && k is Display,
        controls_of(4)[1] matches ControlModel::Policy(_, f) && f is Power,
        controls_of(5)[1] matches ControlModel::Policy(_, f) && f is Network,
        controls_of(6)[1] matches ControlModel::Policy(_, f) && f is Lid,
        controls_of(7)[1] matches ControlModel::Policy(_, f) && f is Pci,
        controls_of(8)[1] matches ControlModel::Policy(_, f) && f is Display,
        controls_of(4)[2] matches ControlModel::Number(_, 3600, f) && f is PowerGrace,
        controls_of(5)[2] matches ControlModel::Number(_, 3600, f) && f is NetworkGrace,
        controls_of(6)[2] matches ControlModel::Number(_, 3600, f) && f is LidGrace,
        controls_of(0)[0] matches ControlModel::Number(_, 60_000, f) && f is SleepMs,
        controls_of(0)[2] matches ControlModel::Switch(_, f) && f is DryRun,
        controls_of(0)[3] matches ControlModel::Switch(_, f) && f is RequireAuth,
        controls_of(4)[3] matches ControlModel::Switch(_, f) && f is RequireLocked,
{
}

/// Each choice of a policy is named for what it does.
pub proof fn each_choice_is_named()
    ensures
        PolicyField::Power.names() == seq![
            "monitor: log only"@,
            "trigger-once: first unplug"@,
            "ac-required: any battery"@,
        ],
        PolicyField::Network.names()[1] == "kill: link loss is a violation"@,
        PolicyField::Lid.names()[1] == "kill: a close is a violation"@,
        PolicyField::Pci.names()[1] == "kill: any add or remove"@,
        PolicyField::Display.names()[1] == "kill: any connect or disconnect"@,
        grace_label() == "Grace, seconds (default 0, max 300)"@,
        policy_label() == "Policy (default monitor)"@,
{
}

} // verus!
