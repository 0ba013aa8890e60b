//! The editor behind its widgets: the config a person edits, the config the
//! window opened on, and what the panes show of the two.

use vstd::prelude::*;

use crate::allowances::read_selector;
use crate::config::Config;
use crate::gui::settings::devices::{describe, described, AttachedMap, Row};
use crate::gui::settings::editor::highlight::{diff_line, diff_line_markup, Lang};
use crate::gui::settings::editor::model::{
    adds_instances, bus_of, covers_one, entry_for, entry_selector, list_add_instances,
    list_cover_one, open, readonly, readonly_section, selector_entry, selectors, stored,
    table_selectors, usb_selectors, Line, ListKind, Loaded, ReadFile, UNREAD_PREFIX, UNREAD_READONLY,
};
use crate::text::{cat3, chars, join, joined, lines, lines_of, same, slice_views, text, views};

verus! {

/// The editor's state.
#[derive(Debug)]
pub struct Editor {
    /// What the controls edit.
    pub config: Config,
    /// What the window opened on.
    pub loaded: Config,
    /// Whether the daemon's own config was actually read. False means the values
    /// are the defaults, and the output panes say so rather than offering an
    /// empty `[commands]` as the config to paste.
    pub read: bool,
    /// The config path the editor last opened on, so a status every second does
    /// not re-read the file over a person's edits.
    pub path: Option<String>,
    /// The line that says where the config came from.
    pub origin: String,
    /// `[commands]` and `[destruction]`, shown and not editable.
    pub readonly: String,
}

/// What a status asks of the editor.
#[derive(Debug, PartialEq, Eq)]
pub enum Step {
    /// The file is the one it opened on.
    Nothing,
    /// Open on the file the daemon named.
    Open,
    /// Say this instead: a person has edits that opening would throw away.
    Keep(String),
}

/// Where a selector goes in the config, or why it cannot.
pub open spec fn target(selector: Seq<char>) -> Result<(ListKind, Seq<char>), Seq<char>> {
    match read_selector(selector) {
        Err(e) => Err(e),
        Ok(k) => match entry_for(k) {
            Some(pair) => Ok(pair),
            None => Err(
                "A monitor can only be allowed at runtime. The config ignores connectors by name, such as eDP-1."@,
            ),
        },
    }
}

/// Whether an outcome without a value is that of one with a value.
pub open spec fn outcome(r: Result<(), String>, s: Result<String, String>) -> bool {
    match s {
        Ok(_) => r is Ok,
        Err(e) => r == Err::<(), String>(e),
    }
}

/// Whether one click on a device's row did what it should.
pub open spec fn clicked(
    r: Result<(), String>,
    new: Config,
    old: Config,
    selector: Seq<char>,
    present: u32,
) -> bool {
    match target(selector) {
        Err(e) => r matches Err(m) && m@ == e && new == old,
        Ok((kind, entry)) => exists|s: Result<String, String>| #[trigger]
            covers_one(s, new, old, kind, entry, present) && outcome(r, s),
    }
}

/// Whether adding a model of which there are `count` did what it should.
pub open spec fn expanded(
    r: Result<(), String>,
    new: Config,
    old: Config,
    selector: Seq<char>,
    count: u32,
) -> bool {
    match target(selector) {
        Err(e) => r matches Err(m) && m@ == e && new == old,
        Ok((kind, entry)) => exists|s: Result<String, String>| #[trigger]
            adds_instances(s, new, old, kind, entry, count) && outcome(r, s),
    }
}

/// Whether adding the first `n` of an expansion took the config from one value to
/// another, refusing for the first reason met. A row without a selector is passed
/// over.
pub open spec fn applied(
    refused: Option<String>,
    new: Config,
    old: Config,
    rows: Seq<(Row, u32)>,
    n: int,
) -> bool
    decreases n,
{
    if n <= 0 {
        refused is None && new == old
    } else {
        exists|mid: Config, earlier: Option<String>|
            #![trigger one_more(refused, new, earlier, mid, rows[n - 1])]
            applied(earlier, mid, old, rows, n - 1) && one_more(
                refused,
                new,
                earlier,
                mid,
                rows[n - 1],
            )
    }
}

/// Whether one more row of an expansion was added.
pub open spec fn one_more(
    refused: Option<String>,
    new: Config,
    earlier: Option<String>,
    old: Config,
    row: (Row, u32),
) -> bool {
    match row.0.selector {
        None => new == old && refused == earlier,
        Some(s) => exists|r: Result<(), String>| #[trigger]
            expanded(r, new, old, s@, row.1) && refused == first_reason(earlier, r),
    }
}

/// The first reason of two outcomes.
pub open spec fn first_reason(earlier: Option<String>, r: Result<(), String>) -> Option<String> {
    match earlier {
        Some(e) => Some(e),
        None => match r {
            Err(e) => Some(e),
            Ok(_) => None,
        },
    }
}

proof fn applied_more(
    refused: Option<String>,
    new: Config,
    earlier: Option<String>,
    mid: Config,
    old: Config,
    rows: Seq<(Row, u32)>,
    n: int,
)
    requires
        n > 0,
        applied(earlier, mid, old, rows, n - 1),
        one_more(refused, new, earlier, mid, rows[n - 1]),
    ensures
        applied(refused, new, old, rows, n),
{
}

impl Editor {
    /// Whether a person has changed nothing.
    pub open spec fn untouched(self) -> bool {
        self.config.same(self.loaded)
    }

    /// Whether this is the editor as it stands right after opening.
    pub open spec fn opened_on(self, loaded: Loaded) -> bool {
        &&& self.loaded == loaded.config
        &&& self.untouched()
        &&& self.read == loaded.read
        &&& self.origin == loaded.origin
        &&& self.readonly@ == if loaded.read {
            readonly(loaded.config)
        } else {
            UNREAD_READONLY@
        }
    }

    /// The defaults on screen until a status says which file the daemon loaded.
    pub fn new() -> (r: Editor)
        ensures
            r.path is None,
            !r.read,
            r.loaded.is_default(),
            r.untouched(),
            r.readonly@ == UNREAD_READONLY@,
            r.origin@
                == "No config file: the daemon has not said which one it loaded, so this starts from the defaults."@,
    {
        let nothing = String::new();
        let loaded = open("", ReadFile::Unreadable(nothing));
        proof {
            reveal_strlit("");
        }
        let readonly = readonly_section(&loaded);
        let config = loaded.config.copy();
        Editor {
            config,
            loaded: loaded.config,
            read: loaded.read,
            path: None,
            origin: loaded.origin,
            readonly,
        }
    }

    /// Open on a config: it is both what is edited and what edits are held
    /// against.
    pub fn open_on(&mut self, loaded: Loaded)
        ensures
            final(self).opened_on(loaded),
            final(self).path == old(self).path,
    {
        self.readonly = readonly_section(&loaded);
        self.config = loaded.config.copy();
        self.read = loaded.read;
        self.origin = loaded.origin;
        self.loaded = loaded.config;
    }

    /// Put one entry in the whitelist of its bus, for the devices and violations
    /// panels. The name is not passed in and is never stored: the row reads it
    /// out of the devices reply, so a device that is no longer attached says so
    /// rather than showing a name from last time. The refusal is returned rather
    /// than shown: the caller is on another page, and a notice written here would
    /// land where nobody can see it.
    ///
    /// `present` is how many devices of this identity the daemon lists. Two of
    /// one model are one entry standing for both, so a row for the second is not
    /// a duplicate to refuse but a count to raise.
    pub fn add_whitelist_entry(&mut self, selector: &str, present: u32) -> (r: Result<(), String>)
        ensures
            clicked(r, final(self).config, old(self).config, selector@, present),
            *final(self) == (Editor { config: final(self).config, ..*old(self) }),
    {
        let (kind, entry) = match selector_entry(selector) {
            Ok(pair) => pair,
            Err(e) => {
                return Err(e);
            },
        };
        let ghost before_it = self.config;
        let s = list_cover_one(&mut self.config, kind, entry.as_str(), present);
        assert(covers_one(s, self.config, before_it, kind, entry@, present));
        match s {
            Ok(_) => Ok(()),
            Err(e) => Err(e),
        }
    }

    /// The same, for a hub expansion that found `count` devices of one model
    /// behind the port. An entry already listed is raised to cover them rather
    /// than refused, so a partial expansion never reports a failure.
    pub fn add_whitelist_entries(&mut self, selector: &str, count: u32) -> (r: Result<(), String>)
        ensures
            expanded(r, final(self).config, old(self).config, selector@, count),
            *final(self) == (Editor { config: final(self).config, ..*old(self) }),
    {
        let (kind, entry) = match selector_entry(selector) {
            Ok(pair) => pair,
            Err(e) => {
                return Err(e);
            },
        };
        let ghost before_it = self.config;
        let s = list_add_instances(&mut self.config, kind, entry.as_str(), count);
        assert(adds_instances(s, self.config, before_it, kind, entry@, count));
        match s {
            Ok(_) => Ok(()),
            Err(e) => Err(e),
        }
    }

    /// Add everything an expansion names. The first refusal is handed back, and
    /// stops nothing.
    pub fn add_expansion(&mut self, rows: &[(Row, u32)]) -> (r: Option<String>)
        ensures
            applied(r, final(self).config, old(self).config, rows@, rows@.len() as int),
            *final(self) == (Editor { config: final(self).config, ..*old(self) }),
    {
        let ghost start = *self;
        let mut refused: Option<String> = None;
        let mut i: usize = 0;
        while i < rows.len()
            invariant
                i <= rows@.len(),
                applied(refused, self.config, start.config, rows@, i as int),
                *self == (Editor { config: self.config, ..start }),
            decreases rows@.len() - i,
        {
            let ghost mid = self.config;
            let ghost earlier = refused;
            let row = &rows[i];
            if let Some(selector) = &row.0.selector {
                let r = self.add_whitelist_entries(selector.as_str(), row.1);
                let ghost seen = r;
                assert(expanded(seen, self.config, mid, selector@, row.1));
                if let Err(e) = r {
                    if refused.is_none() {
                        refused = Some(e);
                    }
                }
                assert(refused == first_reason(earlier, seen));
            }
            proof {
                applied_more(
                    refused,
                    self.config,
                    earlier,
                    mid,
                    start.config,
                    rows@,
                    i as int + 1,
                );
            }
            i += 1;
        }
        refused
    }

    /// `general.require_auth` out of the config the editor loaded, for the
    /// diagnostics panel. None when the file could not be read: the defaults
    /// behind it are not the daemon's answer.
    pub fn require_auth(&self) -> (r: Option<bool>)
        ensures
            r == if self.read {
                Some(self.loaded.general.require_auth)
            } else {
                None
            },
    {
        if self.read {
            Some(self.loaded.general.require_auth)
        } else {
            None
        }
    }

    /// The whitelists as `<bus>:<identity>` selectors, so the devices panel can
    /// mark what is already covered. The edited config, not the loaded one: an
    /// entry just added here covers the device at once.
    pub fn whitelist_selectors(&self) -> (r: Vec<String>)
        ensures
            views(r@) == usb_selectors(self.config.whitelist.devices@) + table_selectors(
                self.config,
                ListKind::Thunderbolt,
            ) + table_selectors(self.config, ListKind::SdCard) + table_selectors(
                self.config,
                ListKind::Pci,
            ),
    {
        selectors(&self.config)
    }

    /// Whether the editor opened on a path.
    pub open spec fn opened_path(self, path: Seq<char>) -> bool {
        self.path matches Some(p) && p@ == path
    }

    /// What a status asks of the editor. Only a file it has not opened yet asks
    /// for anything, because re-reading on every status would throw away what a
    /// person typed. And only an editor nobody has touched is opened on it: the
    /// window is live before the first status arrives, and with the daemon down
    /// it can be live for a long time.
    pub fn heed_status(&mut self, config_path: &str) -> (r: Step)
        ensures
            final(self).opened_path(config_path@),
            *final(self) == (Editor { path: final(self).path, ..*old(self) }),
            match r {
                Step::Nothing => old(self).opened_path(config_path@),
                Step::Open => !old(self).opened_path(config_path@) && old(self).untouched(),
                Step::Keep(m) => {
                    &&& !old(self).opened_path(config_path@) && !old(self).untouched()
                    &&& m@ == "The daemon is running "@ + config_path@
                        + ". Your edits are kept, so this window is showing them and not that file."@
                },
            },
    {
        if let Some(p) = &self.path {
            if same(p.as_str(), config_path) {
                return Step::Nothing;
            }
        }
        let untouched = self.config.equals(&self.loaded);
        self.path = Some(config_path.to_owned());
        if untouched {
            Step::Open
        } else {
            Step::Keep(
                cat3(
                    "The daemon is running ",
                    config_path,
                    ". Your edits are kept, so this window is showing them and not that file.",
                ),
            )
        }
    }
}

// ---- what the panes show -------------------------------------------------

/// What the pane says about values the daemon moves into range.
pub fn clamped_note(moved: &[String]) -> (r: Option<String>)
    ensures
        match r {
            Some(note) => moved@.len() > 0 && note@
                == "The daemon clamps, and the output already shows it clamped: "@ + joined(
                views(moved@),
                "; "@,
            ) + "."@,
            None => moved@.len() == 0,
        },
{
    if moved.len() == 0 {
        return None;
    }
    Some(
        cat3(
            "The daemon clamps, and the output already shows it clamped: ",
            join(moved, "; ").as_str(),
            ".",
        ),
    )
}

/// Lines without a mark.
pub open spec fn unmarked(s: Seq<Seq<char>>) -> Seq<(Seq<char>, bool)> {
    s.map_values(|t: Seq<char>| (t, false))
}

/// Lines by text and mark.
pub open spec fn line_values(s: Seq<Line>) -> Seq<(Seq<char>, bool)> {
    s.map_values(|l: Line| (l.text@, l.changed))
}

/// A diff pane's lines. Where the file was not read they are headed by the note
/// that says so: the pane is selectable, and the defaults would otherwise read as
/// the running config.
pub fn with_head(shown: &[Line], read: bool) -> (r: Vec<Line>)
    ensures
        line_values(r@) == if read {
            line_values(shown@)
        } else {
            unmarked(lines_of(UNREAD_PREFIX@)) + line_values(shown@)
        },
{
    let mut out: Vec<Line> = Vec::new();
    let ghost head = if read {
        Seq::<(Seq<char>, bool)>::empty()
    } else {
        unmarked(lines_of(UNREAD_PREFIX@))
    };
    if !read {
        let all = chars(UNREAD_PREFIX);
        let found = lines(all.as_slice());
        let mut i: usize = 0;
        assert(line_values(out@) =~= head.take(0));
        while i < found.len()
            invariant
                i <= found@.len(),
                head == unmarked(slice_views(found@)),
                line_values(out@) == head.take(i as int),
            decreases found@.len() - i,
        {
            let ghost sofar = out@;
            out.push(Line { text: text(found[i]), changed: false });
            assert(line_values(out@) =~= line_values(sofar).push((found@[i as int]@, false)));
            assert(head[i as int] == (found@[i as int]@, false));
            assert(line_values(out@) =~= head.take(i + 1));
            i += 1;
        }
        assert(head.take(i as int) =~= head);
    }
    assert(line_values(out@) =~= head);
    let ghost all = line_values(shown@);
    let mut k: usize = 0;
    assert(line_values(out@) =~= head + all.take(0));
    while k < shown.len()
        invariant
            k <= shown@.len(),
            all == line_values(shown@),
            line_values(out@) == head + all.take(k as int),
        decreases shown@.len() - k,
    {
        let ghost sofar = out@;
        let line = &shown[k];
        out.push(Line { text: line.text.clone(), changed: line.changed });
        assert(line_values(out@) =~= line_values(sofar).push((line.text@, line.changed)));
        assert(all[k as int] == (line.text@, line.changed));
        assert(line_values(out@) =~= head + all.take(k + 1));
        k += 1;
    }
    assert(all.take(k as int) =~= all);
    assert(read ==> line_values(out@) =~= all);
    out
}

/// The markup of the first `n` lines of a diff pane, each ended by a line break.
pub open spec fn diff_pane(shown: Seq<(Seq<char>, bool)>, n: int) -> Seq<char>
    decreases n,
{
    if n <= 0 {
        Seq::empty()
    } else {
        diff_pane(shown, n - 1) + diff_line(Lang::Toml, shown[n - 1].0, shown[n - 1].1) + "\n"@
    }
}

/// The markup of a diff pane. A changed line keeps its mark while it is coloured:
/// the star is bold and the colour sits inside it.
pub fn diff_markup(shown: &[Line]) -> (r: String)
    ensures
        r@ == diff_pane(line_values(shown@), shown@.len() as int),
{
    let mut out = String::new();
    let mut i: usize = 0;
    assert(out@ =~= diff_pane(line_values(shown@), 0));
    while i < shown.len()
        invariant
            i <= shown@.len(),
            out@ == diff_pane(line_values(shown@), i as int),
        decreases shown@.len() - i,
    {
        assert(line_values(shown@)[i as int] == (shown@[i as int].text@, shown@[i as int].changed));
        out.push_str(diff_line_markup(Lang::Toml, shown[i].text.as_str(), shown[i].changed).as_str());
        out.push_str("\n");
        i += 1;
    }
    out
}

/// The texts of lines.
pub open spec fn line_texts(s: Seq<Line>) -> Seq<Seq<char>> {
    s.map_values(|l: Line| l.text@)
}

/// What the copy button of a diff pane hands over: the lines alone, without
/// numbers and without markup.
pub fn raw_text(shown: &[Line]) -> (r: String)
    ensures
        r@ == joined(line_texts(shown@), "\n"@),
{
    let mut out: Vec<String> = Vec::new();
    let mut i: usize = 0;
    while i < shown.len()
        invariant
            i <= shown@.len(),
            out@.len() == i,
            forall|k: int| 0 <= k < i ==> (#[trigger] out@[k])@ == shown@[k].text@,
        decreases shown@.len() - i,
    {
        out.push(shown[i].text.clone());
        i += 1;
    }
    assert(views(out@) =~= line_texts(shown@));
    join(out.as_slice(), "\n")
}

/// What a row of a table shows: the entry, with the name beside the id, so what
/// was clicked on the devices panel is recognisable here. Before the first reply
/// a row says nothing about whether its device is attached.
pub fn row_label(kind: ListKind, value: &str, shown: &str, attached: Option<&AttachedMap>) -> (r:
    String)
    ensures
        r@ == match (attached, bus_of(kind)) {
            (Some(a), Some(bus)) => shown@ + "  "@ + described(bus + ":"@ + value@, a@),
            _ => shown@,
        },
{
    let known = entry_selector(kind, value);
    match (attached, known) {
        (Some(a), Some(s)) => cat3(shown, "  ", describe(s.as_str(), a).as_str()),
        _ => shown.to_owned(),
    }
}

/// A partial expansion never reports a failure: a device that can be stored is no
/// refusal, whether or not it is listed already.
pub proof fn an_expansion_refuses_no_duplicate(
    r: Result<(), String>,
    new: Config,
    old: Config,
    selector: Seq<char>,
    count: u32,
)
    requires
        expanded(r, new, old, selector, count),
        target(selector) matches Ok((kind, entry)) && stored(kind, entry) is Ok,
    ensures
        r is Ok,
{
}

/// Opening a file leaves nothing to lose: right after it, a status that names
/// another file opens that one.
pub proof fn an_opened_editor_is_untouched(e: Editor, loaded: Loaded)
    requires
        e.opened_on(loaded),
    ensures
        e.untouched(),
{
}

/// What was never read is never stated as the daemon's.
pub proof fn the_unread_is_not_stated(e: Editor, loaded: Loaded)
    requires
        e.opened_on(loaded),
        !loaded.read,
    ensures
        !e.read,
        e.readonly@ == UNREAD_READONLY@,
{
}

/// A device that a selector names goes to the list of its bus under its identity, and a
/// monitor, or a selector that cannot be read, is refused with nothing changed.
pub proof fn a_selector_has_its_target(k: crate::allowances::DeviceKey)
    requires
        k.valid(),
    ensures
        target(k.text()) is Err <==> k is Display,
        k matches crate::allowances::DeviceKey::Usb(v, p) ==> target(k.text()) == Ok::<
            (ListKind, Seq<char>),
            Seq<char>,
        >((ListKind::Usb, v + ":"@ + p)),
        k matches crate::allowances::DeviceKey::Thunderbolt(id) ==> target(k.text()) == Ok::<
            (ListKind, Seq<char>),
            Seq<char>,
        >((ListKind::Thunderbolt, id)),
        k matches crate::allowances::DeviceKey::SdCard(id) ==> target(k.text()) == Ok::<
            (ListKind, Seq<char>),
            Seq<char>,
        >((ListKind::SdCard, id)),
        k matches crate::allowances::DeviceKey::Pci(id) ==> target(k.text()) == Ok::<
            (ListKind, Seq<char>),
            Seq<char>,
        >((ListKind::Pci, id)),
{
    crate::allowances::selectors_round_trip(k);
}

/// A click that is refused changes nothing.
pub proof fn a_refused_click_changes_nothing(
    r: Result<(), String>,
    new: Config,
    old: Config,
    selector: Seq<char>,
    n: u32,
)
    requires
        clicked(r, new, old, selector, n) || expanded(r, new, old, selector, n),
        r is Err,
    ensures
        new == old,
{
}

/// The reason that is told is the first.
pub proof fn the_first_reason_is_told(e: String, f: String)
    ensures
        first_reason(Some(e), Err(f)) == Some(e),
        first_reason(Some(e), Ok(())) == Some(e),
        first_reason(None, Err(f)) == Some(f),
        first_reason(None, Ok(())) == None::<String>,
{
}

/// The pane of the difference has a line for each line shown, in order.
pub proof fn a_pane_has_every_line(shown: Seq<(Seq<char>, bool)>, n: int)
    requires
        0 <= n < shown.len(),
    ensures
        diff_pane(shown, 0).len() == 0,
        diff_pane(shown, n + 1) == diff_pane(shown, n) + diff_line(Lang::Toml, shown[n].0, shown[n].1)
            + "\n"@,
{
}

/// An editor has been opened on a path where it holds just that one.
pub proof fn an_editor_is_opened_on_its_path(e: Editor, path: Seq<char>)
    ensures
        e.opened_path(path) <==> (e.path matches Some(p) && p@ == path),
{
}

/// Where every row is refused, or none has a selector, nothing is added.
pub proof fn nothing_is_added_where_all_is_refused(
    refused: Option<String>,
    new: Config,
    earlier: Option<String>,
    old: Config,
    row: (Row, u32),
)
    requires
        one_more(refused, new, earlier, old, row),
    ensures
        row.0.selector is None ==> new == old && refused == earlier,
        earlier is Some ==> refused == earlier,
        row.0.selector matches Some(s) ==> (target(s@) is Err ==> new == old && refused is Some),
{
}

/// A selector that is refused is refused with the reason, and nothing changes.
pub proof fn a_refusal_says_why(
    r: Result<(), String>,
    new: Config,
    old: Config,
    selector: Seq<char>,
    n: u32,
    e: Seq<char>,
)
    requires
        clicked(r, new, old, selector, n) || expanded(r, new, old, selector, n),
        target(selector) == Err::<(ListKind, Seq<char>), Seq<char>>(e),
    ensures
        r matches Err(m) && m@ == e,
        new == old,
{
}

/// A click, or an expansion, that is taken adds to the list of the selector's bus.
pub proof fn a_click_that_is_taken_adds(
    r: Result<(), String>,
    new: Config,
    old: Config,
    selector: Seq<char>,
    n: u32,
)
    requires
        r is Ok,
    ensures
        clicked(r, new, old, selector, n) ==> (target(selector) matches Ok((kind, entry)) && exists|
            s: String,
        | #[trigger] covers_one(Ok(s), new, old, kind, entry, n)),
        expanded(r, new, old, selector, n) ==> (target(selector) matches Ok((kind, entry)) && exists|
            s: String,
        | #[trigger] adds_instances(Ok(s), new, old, kind, entry, n)),
{
    if clicked(r, new, old, selector, n) {
        let (kind, entry) = target(selector)->Ok_0;
        let s = choose|s: Result<String, String>| #[trigger]
            covers_one(s, new, old, kind, entry, n) && outcome(r, s);
        assert(covers_one(Ok(s->Ok_0), new, old, kind, entry, n));
    }
    if expanded(r, new, old, selector, n) {
        let (kind, entry) = target(selector)->Ok_0;
        let s = choose|s: Result<String, String>| #[trigger]
            adds_instances(s, new, old, kind, entry, n) && outcome(r, s);
        assert(adds_instances(Ok(s->Ok_0), new, old, kind, entry, n));
    }
}

/// A monitor is refused with where it can be allowed instead.
pub proof fn a_monitor_is_refused_with_the_way_out(k: crate::allowances::DeviceKey)
    requires
        k is Display,
        k.valid(),
    ensures
        target(k.text()) == Err::<(ListKind, Seq<char>), Seq<char>>(
            "A monitor can only be allowed at runtime. The config ignores connectors by name, such as eDP-1."@,
        ),
{
    crate::allowances::selectors_round_trip(k);
}

} // verus!
