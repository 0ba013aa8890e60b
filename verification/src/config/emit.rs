//! Turn a `Config` into the Nix attrset a NixOS user pastes into
//! `services.plugkill.settings`.
//!
//! Every field is emitted, defaults included. A config that leaves out what it
//! does not care about is nicer to write by hand, but the output is read to
//! answer "what is set", and an omitted key answers nothing.
//!
//! `[commands]` and `[destruction]` are emitted exactly as they were loaded.

use vstd::prelude::*;

use super::{
    CommandsConfig, Config, DestructionConfig, DisplayConfig, DisplayPolicy, GeneralConfig,
    LidConfig, LidPolicy, NetworkConfig, NetworkPolicy, PciConfig, PciPolicy, PowerConfig,
    PowerPolicy, SdCardWhitelistEntry, ThunderboltWhitelistEntry, WhitelistEntry,
};
use crate::number::{blanks, integer, signed, spaces};
use crate::text::{cat3, chars, views};

verus! {

/// A value of the configuration file. A table lists its keys in the order they
/// are written.
#[derive(Debug, PartialEq, Eq)]
pub enum Setting {
    Text(String),
    Integer(i64),
    /// A number with a fraction, as it is printed.
    Real(String),
    Boolean(bool),
    /// A date, as it is printed.
    Datetime(String),
    List(Vec<Setting>),
    Table(Vec<(String, Setting)>),
}

/// A value of the configuration file as plain sequences.
pub enum SettingModel {
    Text(Seq<char>),
    Integer(int),
    Real(Seq<char>),
    Boolean(bool),
    Datetime(Seq<char>),
    List(Seq<SettingModel>),
    Table(Seq<(Seq<char>, SettingModel)>),
}

impl Setting {
    /// The value as plain sequences.
    pub open spec fn model(self) -> SettingModel
        decreases self,
    {
        match self {
            Setting::Text(s) => SettingModel::Text(s@),
            Setting::Integer(n) => SettingModel::Integer(n as int),
            Setting::Real(s) => SettingModel::Real(s@),
            Setting::Boolean(b) => SettingModel::Boolean(b),
            Setting::Datetime(s) => SettingModel::Datetime(s@),
            Setting::List(items) => SettingModel::List(list_model(items)),
            Setting::Table(t) => SettingModel::Table(table_model(t)),
        }
    }
}

/// The items of a list as plain sequences.
pub open spec fn list_model(items: Vec<Setting>) -> Seq<SettingModel>
    decreases items,
{
    Seq::new(
        items@.len(),
        |i: int|
            if 0 <= i < items@.len() {
                items@[i].model()
            } else {
                SettingModel::Boolean(false)
            },
    )
}

/// The entries of a table as plain sequences.
pub open spec fn table_model(t: Vec<(String, Setting)>) -> Seq<(Seq<char>, SettingModel)>
    decreases t,
{
    Seq::new(
        t@.len(),
        |i: int|
            if 0 <= i < t@.len() {
                (t@[i].0@, t@[i].1.model())
            } else {
                (Seq::empty(), SettingModel::Boolean(false))
            },
    )
}

// ---- Nix text ------------------------------------------------------------

/// A character inside a Nix string. `$` is escaped everywhere, which is valid
/// Nix and saves looking ahead for the `${` that starts an interpolation.
pub open spec fn nix_char(c: char) -> Seq<char> {
    if c == '"' {
        seq!['\\', '"']
    } else if c == '\\' {
        seq!['\\', '\\']
    } else if c == '$' {
        seq!['\\', '$']
    } else if c == '\n' {
        seq!['\\', 'n']
    } else if c == '\r' {
        seq!['\\', 'r']
    } else if c == '\t' {
        seq!['\\', 't']
    } else {
        seq![c]
    }
}

/// The inside of a Nix string.
pub open spec fn nix_inside(s: Seq<char>) -> Seq<char>
    decreases s.len(),
{
    if s.len() == 0 {
        Seq::empty()
    } else {
        nix_inside(s.drop_last()) + nix_char(s.last())
    }
}

/// A quoted Nix string.
pub open spec fn quoted(s: Seq<char>) -> Seq<char> {
    seq!['"'] + nix_inside(s) + seq!['"']
}

/// An ASCII letter.
pub open spec fn letter(c: char) -> bool {
    65 <= c as u32 <= 90 || 97 <= c as u32 <= 122
}

/// A decimal digit.
pub open spec fn numeral(c: char) -> bool {
    48 <= c as u32 <= 57
}

/// Whether Nix takes a key as it stands: a letter or an underscore, then
/// letters, digits, underscores, dashes and apostrophes.
pub open spec fn bare(key: Seq<char>) -> bool {
    &&& key.len() > 0
    &&& letter(key[0]) || key[0] == '_'
    &&& forall|i: int|
        1 <= i < key.len() ==> letter(#[trigger] key[i]) || numeral(key[i]) || key[i] == '_'
            || key[i] == '-' || key[i] == '\''
}

/// A key, quoted where it has to be.
pub open spec fn key_text(key: Seq<char>) -> Seq<char> {
    if bare(key) {
        key
    } else {
        quoted(key)
    }
}

/// A list on one line.
pub open spec fn flat_items(texts: Seq<Seq<char>>, n: int) -> Seq<char>
    decreases n,
{
    if n <= 0 {
        Seq::empty()
    } else {
        flat_items(texts, n - 1) + " "@ + texts[n - 1]
    }
}

/// A list with each item on a line of its own.
pub open spec fn tall_items(texts: Seq<Seq<char>>, n: int, indent: nat) -> Seq<char>
    decreases n,
{
    if n <= 0 {
        Seq::empty()
    } else {
        tall_items(texts, n - 1, indent) + blanks(indent + 2) + texts[n - 1] + "\n"@
    }
}

/// The entries of an attrset, each on a line of its own.
pub open spec fn entry_lines(
    keys: Seq<Seq<char>>,
    texts: Seq<Seq<char>>,
    n: int,
    indent: nat,
) -> Seq<char>
    decreases n,
{
    if n <= 0 {
        Seq::empty()
    } else {
        entry_lines(keys, texts, n - 1, indent) + blanks(indent + 2) + key_text(keys[n - 1])
            + " = "@ + texts[n - 1] + ";\n"@
    }
}

/// Whether a value takes more than one line.
pub open spec fn is_tall(s: SettingModel) -> bool {
    s is List || s is Table
}

/// A list, flat unless an item is a list or an attrset itself.
pub open spec fn list_text(
    items: Seq<SettingModel>,
    flat: Seq<Seq<char>>,
    tall: Seq<Seq<char>>,
    indent: nat,
) -> Seq<char> {
    if items.len() == 0 {
        "[ ]"@
    } else if forall|i: int| 0 <= i < items.len() ==> !is_tall(#[trigger] items[i]) {
        "["@ + flat_items(flat, items.len() as int) + " ]"@
    } else {
        "[\n"@ + tall_items(tall, items.len() as int, indent) + blanks(indent) + "]"@
    }
}

/// An attrset.
pub open spec fn table_text(keys: Seq<Seq<char>>, texts: Seq<Seq<char>>, indent: nat) -> Seq<
    char,
> {
    if keys.len() == 0 {
        "{ }"@
    } else {
        "{\n"@ + entry_lines(keys, texts, keys.len() as int, indent) + blanks(indent) + "}"@
    }
}

/// The keys of a table.
pub open spec fn keys_of(t: Seq<(Seq<char>, SettingModel)>) -> Seq<Seq<char>> {
    t.map_values(|e: (Seq<char>, SettingModel)| e.0)
}

/// A value as Nix, at an indent.
pub open spec fn nix_of(v: SettingModel, indent: nat) -> Seq<char>
    decreases v,
{
    match v {
        SettingModel::Text(s) => quoted(s),
        SettingModel::Integer(n) => signed(n),
        SettingModel::Real(s) => s,
        SettingModel::Boolean(b) => if b {
            "true"@
        } else {
            "false"@
        },
        SettingModel::Datetime(s) => quoted(s),
        SettingModel::List(items) => list_text(
            items,
            item_texts(items, indent),
            item_texts(items, indent + 2),
            indent,
        ),
        SettingModel::Table(t) => table_text(keys_of(t), entry_texts(t, indent + 2), indent),
    }
}

/// The items of a list as Nix.
pub open spec fn item_texts(items: Seq<SettingModel>, indent: nat) -> Seq<Seq<char>>
    decreases items,
{
    Seq::new(
        items.len(),
        |i: int|
            if 0 <= i < items.len() {
                nix_of(items[i], indent)
            } else {
                Seq::empty()
            },
    )
}

/// The values of a table as Nix.
pub open spec fn entry_texts(t: Seq<(Seq<char>, SettingModel)>, indent: nat) -> Seq<Seq<char>>
    decreases t,
{
    Seq::new(
        t.len(),
        |i: int|
            if 0 <= i < t.len() {
                nix_of(t[i].1, indent)
            } else {
                Seq::empty()
            },
    )
}

/// Quote a Nix string.
pub fn nix_string(s: &str) -> (r: String)
    ensures
        r@ == quoted(s@),
{
    let cs = chars(s);
    let mut out = String::new();
    out.push('"');
    let mut i: usize = 0;
    proof {
        assert(cs@.take(0) =~= Seq::<char>::empty());
        assert(out@ =~= seq!['"'] + nix_inside(cs@.take(0)));
    }
    while i < cs.len()
        invariant
            i <= cs@.len(),
            out@ == seq!['"'] + nix_inside(cs@.take(i as int)),
        decreases cs@.len() - i,
    {
        let c: char = cs[i];
        let ghost before = out@;
        assert(cs@.take(i + 1).drop_last() =~= cs@.take(i as int));
        if c == '"' {
            out.push('\\');
            out.push('"');
        } else if c == '\\' {
            out.push('\\');
            out.push('\\');
        } else if c == '$' {
            out.push('\\');
            out.push('$');
        } else if c == '\n' {
            out.push('\\');
            out.push('n');
        } else if c == '\r' {
            out.push('\\');
            out.push('r');
        } else if c == '\t' {
            out.push('\\');
            out.push('t');
        } else {
            out.push(c);
        }
        assert(out@ =~= before + nix_char(c));
        assert(out@ =~= seq!['"'] + (nix_inside(cs@.take(i as int)) + nix_char(c)));
        i += 1;
    }
    assert(cs@.take(i as int) =~= cs@);
    out.push('"');
    assert(out@ =~= quoted(s@));
    out
}

fn is_letter(c: char) -> (r: bool)
    ensures
        r == letter(c),
{
    let u: u32 = c as u32;
    (65 <= u && u <= 90) || (97 <= u && u <= 122)
}

fn is_numeral(c: char) -> (r: bool)
    ensures
        r == numeral(c),
{
    let u: u32 = c as u32;
    48 <= u && u <= 57
}

/// Bare where Nix allows a bare identifier, quoted otherwise. Every key the
/// config defines is bare; the quoting is there so a key that is not cannot
/// produce broken Nix.
pub fn nix_key(key: &str) -> (r: String)
    ensures
        r@ == key_text(key@),
{
    let cs = chars(key);
    if cs.len() == 0 || !(is_letter(cs[0]) || cs[0] == '_') {
        return nix_string(key);
    }
    let mut i: usize = 1;
    while i < cs.len()
        invariant
            1 <= i <= cs@.len(),
            cs@ == key@,
            letter(key@[0]) || key@[0] == '_',
            forall|k: int|
                1 <= k < i ==> letter(#[trigger] key@[k]) || numeral(key@[k]) || key@[k] == '_'
                    || key@[k] == '-' || key@[k] == '\'',
        decreases cs@.len() - i,
    {
        let c: char = cs[i];
        assert(c == key@[i as int]);
        if !(is_letter(c) || is_numeral(c) || c == '_' || c == '-' || c == '\'') {
            return nix_string(key);
        }
        i += 1;
    }
    key.to_owned()
}

fn pad(indent: usize, out: &mut String)
    ensures
        final(out)@ == old(out)@ + blanks(indent as nat),
{
    out.push_str(spaces(indent).as_str());
}

/// How deep lists and tables nest in a value.
pub open spec fn depth(v: SettingModel) -> nat
    decreases v,
{
    match v {
        SettingModel::List(items) => 1 + deepest(item_depths(items)),
        SettingModel::Table(t) => 1 + deepest(entry_depths(t)),
        _ => 0,
    }
}

/// How deep the items of a list nest.
pub open spec fn item_depths(items: Seq<SettingModel>) -> Seq<nat>
    decreases items,
{
    Seq::new(
        items.len(),
        |i: int|
            if 0 <= i < items.len() {
                depth(items[i])
            } else {
                0
            },
    )
}

/// How deep the values of a table nest.
pub open spec fn entry_depths(t: Seq<(Seq<char>, SettingModel)>) -> Seq<nat>
    decreases t,
{
    Seq::new(
        t.len(),
        |i: int|
            if 0 <= i < t.len() {
                depth(t[i].1)
            } else {
                0
            },
    )
}

/// The greatest of a list of numbers, zero of none.
pub open spec fn deepest(s: Seq<nat>) -> nat
    decreases s.len(),
{
    if s.len() == 0 {
        0
    } else if s.last() > deepest(s.drop_last()) {
        s.last()
    } else {
        deepest(s.drop_last())
    }
}

proof fn deepest_bounds(s: Seq<nat>, i: int)
    requires
        0 <= i < s.len(),
    ensures
        s[i] <= deepest(s),
    decreases s.len(),
{
    if i < s.len() - 1 {
        deepest_bounds(s.drop_last(), i);
        assert(s.drop_last()[i] == s[i]);
    }
}

/// An item of a list nests less deep than the list.
proof fn item_is_shallower(items: Seq<SettingModel>, i: int)
    requires
        0 <= i < items.len(),
    ensures
        depth(items[i]) < depth(SettingModel::List(items)),
{
    deepest_bounds(item_depths(items), i);
}

/// An entry of a table nests less deep than the table.
proof fn entry_is_shallower(t: Seq<(Seq<char>, SettingModel)>, i: int)
    requires
        0 <= i < t.len(),
    ensures
        depth(t[i].1) < depth(SettingModel::Table(t)),
{
    deepest_bounds(entry_depths(t), i);
}

/// Write a value as Nix, at an indent.
pub fn write_value(value: &Setting, indent: usize, out: &mut String)
    requires
        indent + 2 * depth(value.model()) + 2 <= usize::MAX,
    ensures
        final(out)@ == old(out)@ + nix_of(value.model(), indent as nat),
    decreases value, 1nat,
{
    match value {
        Setting::Text(s) => {
            out.push_str(nix_string(s.as_str()).as_str());
        },
        Setting::Integer(n) => {
            out.push_str(integer(*n).as_str());
        },
        Setting::Real(s) => {
            out.push_str(s.as_str());
        },
        Setting::Boolean(b) => {
            out.push_str(
                if *b {
                    "true"
                } else {
                    "false"
                },
            );
        },
        Setting::Datetime(s) => {
            out.push_str(nix_string(s.as_str()).as_str());
        },
        Setting::List(items) => {
            write_array(value, items, indent, out);
        },
        Setting::Table(t) => {
            let ghost head = out@;
            let ghost m = table_model(*t);
            let ghost keys = keys_of(m);
            let ghost texts = entry_texts(m, (indent + 2) as nat);
            assert(nix_of(value.model(), indent as nat) == table_text(keys, texts, indent as nat));
            assert(keys.len() == t@.len());
            if t.len() == 0 {
                out.push_str("{ }");
                return;
            }
            out.push_str("{\n");
            let mut i: usize = 0;
            assert(out@ =~= head + ("{\n"@ + entry_lines(keys, texts, 0, indent as nat)));
            while i < t.len()
                invariant
                    i <= t@.len(),
                    *value == Setting::Table(*t),
                    indent + 2 * depth(value.model()) + 2 <= usize::MAX,
                    m == table_model(*t),
                    value.model() == SettingModel::Table(m),
                    keys == keys_of(m),
                    texts == entry_texts(m, (indent + 2) as nat),
                    out@ == head + ("{\n"@ + entry_lines(keys, texts, i as int, indent as nat)),
                decreases t@.len() - i,
            {
                let entry = &t[i];
                let ghost sofar = entry_lines(keys, texts, i as int, indent as nat);
                proof {
                    entry_is_shallower(m, i as int);
                    assert(*entry == t@[i as int]);
                    assert(m[i as int] == (entry.0@, entry.1.model()));
                    assert(decreases_to!(*value => value->Table_0));
                    assert(decreases_to!(*t => t@[i as int]));
                    assert(decreases_to!(*entry => entry.1));
                    assert(keys[i as int] == entry.0@);
                }
                pad(indent + 2, out);
                out.push_str(nix_key(entry.0.as_str()).as_str());
                out.push_str(" = ");
                write_value(&entry.1, indent + 2, out);
                out.push_str(";\n");
                assert(texts[i as int] == nix_of(entry.1.model(), (indent + 2) as nat));
                assert(out@ =~= head + ("{\n"@ + (sofar + blanks((indent + 2) as nat) + key_text(
                    entry.0@,
                ) + " = "@ + texts[i as int] + ";\n"@)));
                i += 1;
            }
            pad(indent, out);
            out.push_str("}");
            assert(out@ =~= head + table_text(keys, texts, indent as nat));
        },
    }
}

/// Write a list as Nix, at an indent. `value` is the list.
fn write_array(value: &Setting, items: &Vec<Setting>, indent: usize, out: &mut String)
    requires
        *value == Setting::List(*items),
        indent + 2 * depth(value.model()) + 2 <= usize::MAX,
    ensures
        final(out)@ == old(out)@ + nix_of(value.model(), indent as nat),
    decreases value, 0nat,
{
    let ghost head = out@;
    let ghost m = list_model(*items);
    let ghost flat_texts = item_texts(m, indent as nat);
    let ghost tall_texts = item_texts(m, (indent + 2) as nat);
    assert(nix_of(value.model(), indent as nat) == list_text(
        m,
        flat_texts,
        tall_texts,
        indent as nat,
    ));
    if items.len() == 0 {
        out.push_str("[ ]");
        return;
    }
    let mut flat = true;
    let mut k: usize = 0;
    while k < items.len()
        invariant
            k <= items@.len(),
            m == list_model(*items),
            flat == forall|i: int| 0 <= i < k ==> !is_tall(#[trigger] m[i]),
        decreases items@.len() - k,
    {
        assert(m[k as int] == items@[k as int].model());
        match &items[k] {
            Setting::List(_) => {
                assert(is_tall(m[k as int]));
                flat = false;
            },
            Setting::Table(_) => {
                assert(is_tall(m[k as int]));
                flat = false;
            },
            _ => {},
        }
        k += 1;
    }
    let mut i: usize = 0;
    if flat {
        out.push_str("[");
        assert(out@ =~= head + ("["@ + flat_items(flat_texts, 0)));
        while i < items.len()
            invariant
                i <= items@.len(),
                *value == Setting::List(*items),
                indent + 2 * depth(value.model()) + 2 <= usize::MAX,
                m == list_model(*items),
                value.model() == SettingModel::List(m),
                flat_texts == item_texts(m, indent as nat),
                out@ == head + ("["@ + flat_items(flat_texts, i as int)),
            decreases items@.len() - i,
        {
            let item = &items[i];
            let ghost sofar = flat_items(flat_texts, i as int);
            proof {
                item_is_shallower(m, i as int);
                assert(m[i as int] == items@[i as int].model());
                assert(*item == items@[i as int]);
                assert(decreases_to!(*value => value->List_0));
                assert(decreases_to!(*items => items@[i as int]));
            }
            out.push_str(" ");
            write_value(item, indent, out);
            assert(flat_texts[i as int] == nix_of(item.model(), indent as nat));
            assert(out@ =~= head + ("["@ + (sofar + " "@ + flat_texts[i as int])));
            i += 1;
        }
        out.push_str(" ]");
        assert(out@ =~= head + list_text(m, flat_texts, tall_texts, indent as nat));
        return;
    }
    out.push_str("[\n");
    assert(out@ =~= head + ("[\n"@ + tall_items(tall_texts, 0, indent as nat)));
    while i < items.len()
        invariant
            i <= items@.len(),
            *value == Setting::List(*items),
            indent + 2 * depth(value.model()) + 2 <= usize::MAX,
            m == list_model(*items),
            value.model() == SettingModel::List(m),
            tall_texts == item_texts(m, (indent + 2) as nat),
            out@ == head + ("[\n"@ + tall_items(tall_texts, i as int, indent as nat)),
        decreases items@.len() - i,
    {
        let item = &items[i];
        let ghost sofar = tall_items(tall_texts, i as int, indent as nat);
        proof {
            item_is_shallower(m, i as int);
                assert(m[i as int] == items@[i as int].model());
            assert(*item == items@[i as int]);
            assert(decreases_to!(*value => value->List_0));
            assert(decreases_to!(*items => items@[i as int]));
        }
        pad(indent + 2, out);
        write_value(item, indent + 2, out);
        out.push_str("\n");
        assert(tall_texts[i as int] == nix_of(item.model(), (indent + 2) as nat));
        assert(out@ =~= head + ("[\n"@ + (sofar + blanks((indent + 2) as nat)
            + tall_texts[i as int] + "\n"@)));
        i += 1;
    }
    pad(indent, out);
    out.push_str("]");
    assert(out@ =~= head + list_text(m, flat_texts, tall_texts, indent as nat));
}

// ---- the configuration as settings ---------------------------------------

/// The word for a power policy.
pub open spec fn power_word(p: PowerPolicy) -> Seq<char> {
    match p {
        PowerPolicy::TriggerOnce => "trigger-once"@,
        PowerPolicy::AcRequired => "ac-required"@,
        PowerPolicy::Monitor => "monitor"@,
    }
}

/// The word for a policy that kills or watches.
pub open spec fn kill_word(kills: bool) -> Seq<char> {
    if kills {
        "kill"@
    } else {
        "monitor"@
    }
}

/// A list of texts.
pub open spec fn texts_model(list: Seq<Seq<char>>) -> SettingModel {
    SettingModel::List(list.map_values(|s: Seq<char>| SettingModel::Text(s)))
}

/// `[commands]`
pub open spec fn commands_model(c: CommandsConfig) -> SettingModel {
    SettingModel::Table(
        seq![
            (
                "kill_commands"@,
                SettingModel::List(
                    c.kill_commands@.map_values(|v: Vec<String>| texts_model(views(v@))),
                ),
            ),
        ],
    )
}

/// `[destruction]`, without a swap device where none is set.
pub open spec fn destruction_model(d: DestructionConfig) -> SettingModel {
    let fixed = seq![
        ("do_sync"@, SettingModel::Boolean(d.do_sync)),
        ("do_wipe_swap"@, SettingModel::Boolean(d.do_wipe_swap)),
        ("files_to_remove"@, texts_model(views(d.files_to_remove@))),
        ("folders_to_remove"@, texts_model(views(d.folders_to_remove@))),
        ("melt_self"@, SettingModel::Boolean(d.melt_self)),
    ];
    SettingModel::Table(
        match d.swap_device {
            Some(s) => fixed.push(("swap_device"@, SettingModel::Text(s@))),
            None => fixed,
        },
    )
}

/// `[display]`
pub open spec fn display_model(d: DisplayConfig) -> SettingModel {
    SettingModel::Table(
        seq![
            ("ignore"@, texts_model(views(d.ignore@))),
            ("policy"@, SettingModel::Text(kill_word(d.policy is Kill))),
        ],
    )
}

/// `[general]` without `require_auth`, which the NixOS module writes itself.
pub open spec fn general_model(g: GeneralConfig) -> SettingModel {
    SettingModel::Table(
        seq![
            ("dry_run"@, SettingModel::Boolean(g.dry_run)),
            ("log_file"@, SettingModel::Text(g.log_file@)),
            ("sleep_ms"@, SettingModel::Integer(g.sleep_ms as int)),
            ("watch_display"@, SettingModel::Boolean(g.watch_display)),
            ("watch_lid"@, SettingModel::Boolean(g.watch_lid)),
            ("watch_network"@, SettingModel::Boolean(g.watch_network)),
            ("watch_pci"@, SettingModel::Boolean(g.watch_pci)),
            ("watch_power"@, SettingModel::Boolean(g.watch_power)),
            ("watch_sdcard"@, SettingModel::Boolean(g.watch_sdcard)),
            ("watch_thunderbolt"@, SettingModel::Boolean(g.watch_thunderbolt)),
            ("watch_usb"@, SettingModel::Boolean(g.watch_usb)),
        ],
    )
}

/// `[lid]`
pub open spec fn lid_model(l: LidConfig) -> SettingModel {
    SettingModel::Table(
        seq![
            ("grace_secs"@, SettingModel::Integer(l.grace_secs as int)),
            ("policy"@, SettingModel::Text(kill_word(l.policy is Kill))),
        ],
    )
}

/// `[network]`
pub open spec fn network_model(n: NetworkConfig) -> SettingModel {
    SettingModel::Table(
        seq![
            ("grace_secs"@, SettingModel::Integer(n.grace_secs as int)),
            ("interfaces"@, texts_model(views(n.interfaces@))),
            ("policy"@, SettingModel::Text(kill_word(n.policy is Kill))),
        ],
    )
}

/// `[pci]`
pub open spec fn pci_model(p: PciConfig) -> SettingModel {
    SettingModel::Table(
        seq![
            ("ignore"@, texts_model(views(p.ignore@))),
            ("policy"@, SettingModel::Text(kill_word(p.policy is Kill))),
        ],
    )
}

/// `[power]`
pub open spec fn power_model(p: PowerConfig) -> SettingModel {
    SettingModel::Table(
        seq![
            ("grace_secs"@, SettingModel::Integer(p.grace_secs as int)),
            ("policy"@, SettingModel::Text(power_word(p.policy))),
            ("require_locked"@, SettingModel::Boolean(p.require_locked)),
        ],
    )
}

/// One SD card of the whitelist.
pub open spec fn card_model(e: SdCardWhitelistEntry) -> SettingModel {
    SettingModel::Table(seq![("serial"@, SettingModel::Text(e.serial@))])
}

/// The SD cards of the whitelist.
pub open spec fn card_models(s: Seq<SdCardWhitelistEntry>) -> Seq<SettingModel> {
    s.map_values(|e: SdCardWhitelistEntry| card_model(e))
}

/// One Thunderbolt device of the whitelist.
pub open spec fn thunderbolt_model(e: ThunderboltWhitelistEntry) -> SettingModel {
    SettingModel::Table(seq![("unique_id"@, SettingModel::Text(e.unique_id@))])
}

/// The Thunderbolt devices of the whitelist.
pub open spec fn thunderbolt_models(s: Seq<ThunderboltWhitelistEntry>) -> Seq<SettingModel> {
    s.map_values(|e: ThunderboltWhitelistEntry| thunderbolt_model(e))
}

/// One USB device of the whitelist.
pub open spec fn usb_model(e: WhitelistEntry) -> SettingModel {
    SettingModel::Table(
        seq![
            ("count"@, SettingModel::Integer(e.count as int)),
            ("product_id"@, SettingModel::Text(e.product_id@)),
            ("vendor_id"@, SettingModel::Text(e.vendor_id@)),
        ],
    )
}

/// The USB devices of the whitelist.
pub open spec fn usb_models(s: Seq<WhitelistEntry>) -> Seq<SettingModel> {
    s.map_values(|e: WhitelistEntry| usb_model(e))
}

/// A whitelist of devices.
pub open spec fn devices_model(devices: Seq<SettingModel>) -> SettingModel {
    SettingModel::Table(seq![("devices"@, SettingModel::List(devices))])
}

/// The configuration as settings, every table with its keys in alphabetical
/// order.
pub open spec fn config_model(c: Config) -> SettingModel {
    SettingModel::Table(
        seq![
            ("commands"@, commands_model(c.commands)),
            ("destruction"@, destruction_model(c.destruction)),
            ("display"@, display_model(c.display)),
            ("general"@, general_model(c.general)),
            ("lid"@, lid_model(c.lid)),
            ("network"@, network_model(c.network)),
            ("pci"@, pci_model(c.pci)),
            ("power"@, power_model(c.power)),
            (
                "sdcard_whitelist"@,
                devices_model(
                    card_models(c.sdcard_whitelist.devices@),
                ),
            ),
            (
                "thunderbolt_whitelist"@,
                devices_model(
                    thunderbolt_models(c.thunderbolt_whitelist.devices@),
                ),
            ),
            (
                "whitelist"@,
                devices_model(usb_models(c.whitelist.devices@)),
            ),
        ],
    )
}

/// Whether every number of the configuration is one the file format can hold.
pub open spec fn numbers_fit(c: Config) -> bool {
    &&& c.general.sleep_ms <= i64::MAX
    &&& c.power.grace_secs <= i64::MAX
    &&& c.network.grace_secs <= i64::MAX
    &&& c.lid.grace_secs <= i64::MAX
}

pub(crate) fn put(t: &mut Vec<(String, Setting)>, key: &str, v: Setting)
    ensures
        table_model(*final(t)) == table_model(*old(t)).push((key@, v.model())),
{
    let ghost before = table_model(*t);
    t.push((key.to_owned(), v));
    assert(table_model(*t) =~= before.push((key@, v.model())));
}

pub(crate) fn put_text(t: &mut Vec<(String, Setting)>, key: &str, s: &str)
    ensures
        table_model(*final(t)) == table_model(*old(t)).push((key@, SettingModel::Text(s@))),
{
    put(t, key, Setting::Text(s.to_owned()));
}

pub(crate) fn put_bool(t: &mut Vec<(String, Setting)>, key: &str, b: bool)
    ensures
        table_model(*final(t)) == table_model(*old(t)).push((key@, SettingModel::Boolean(b))),
{
    put(t, key, Setting::Boolean(b));
}

pub(crate) fn put_number(t: &mut Vec<(String, Setting)>, key: &str, n: u64)
    requires
        n <= i64::MAX,
    ensures
        table_model(*final(t)) == table_model(*old(t)).push(
            (key@, SettingModel::Integer(n as int)),
        ),
{
    put(t, key, Setting::Integer(n as i64));
}

pub(crate) fn texts(list: &[String]) -> (r: Setting)
    ensures
        r.model() == texts_model(views(list@)),
{
    let mut out: Vec<Setting> = Vec::new();
    let mut i: usize = 0;
    while i < list.len()
        invariant
            i <= list@.len(),
            out@.len() == i,
            forall|k: int|
                0 <= k < i ==> (#[trigger] out@[k]).model() == SettingModel::Text(list@[k]@),
        decreases list@.len() - i,
    {
        out.push(Setting::Text(list[i].clone()));
        i += 1;
    }
    let r = Setting::List(out);
    assert(r.model()->List_0 =~= texts_model(views(list@))->List_0);
    r
}

pub(crate) fn put_texts(t: &mut Vec<(String, Setting)>, key: &str, list: &[String])
    ensures
        table_model(*final(t)) == table_model(*old(t)).push((key@, texts_model(views(list@)))),
{
    let list = texts(list);
    put(t, key, list);
}

pub(crate) fn empty_table() -> (r: Vec<(String, Setting)>)
    ensures
        table_model(r) == Seq::<(Seq<char>, SettingModel)>::empty(),
{
    let r: Vec<(String, Setting)> = Vec::new();
    assert(table_model(r) =~= Seq::<(Seq<char>, SettingModel)>::empty());
    r
}

pub(crate) fn commands_setting(c: &CommandsConfig) -> (r: Setting)
    ensures
        r.model() == commands_model(*c),
{
    let mut list: Vec<Setting> = Vec::new();
    let mut i: usize = 0;
    while i < c.kill_commands.len()
        invariant
            i <= c.kill_commands@.len(),
            list@.len() == i,
            forall|k: int|
                0 <= k < i ==> (#[trigger] list@[k]).model() == texts_model(
                    views(c.kill_commands@[k]@),
                ),
        decreases c.kill_commands@.len() - i,
    {
        list.push(texts(c.kill_commands[i].as_slice()));
        i += 1;
    }
    let mut t = empty_table();
    let commands = Setting::List(list);
    assert(commands.model()->List_0 =~= c.kill_commands@.map_values(
        |v: Vec<String>| texts_model(views(v@)),
    ));
    put(&mut t, "kill_commands", commands);
    Setting::Table(t)
}

fn destruction_setting(d: &DestructionConfig) -> (r: Setting)
    ensures
        r.model() == destruction_model(*d),
{
    let mut t = empty_table();
    put_bool(&mut t, "do_sync", d.do_sync);
    put_bool(&mut t, "do_wipe_swap", d.do_wipe_swap);
    put_texts(&mut t, "files_to_remove", d.files_to_remove.as_slice());
    put_texts(&mut t, "folders_to_remove", d.folders_to_remove.as_slice());
    put_bool(&mut t, "melt_self", d.melt_self);
    if let Some(s) = &d.swap_device {
        put_text(&mut t, "swap_device", s.as_str());
    }
    assert(table_model(t) =~= destruction_model(*d)->Table_0);
    Setting::Table(t)
}

fn general_setting(g: &GeneralConfig) -> (r: Setting)
    requires
        g.sleep_ms <= i64::MAX,
    ensures
        r.model() == general_model(*g),
{
    let mut t = empty_table();
    put_bool(&mut t, "dry_run", g.dry_run);
    put_text(&mut t, "log_file", g.log_file.as_str());
    put_number(&mut t, "sleep_ms", g.sleep_ms);
    put_bool(&mut t, "watch_display", g.watch_display);
    put_bool(&mut t, "watch_lid", g.watch_lid);
    put_bool(&mut t, "watch_network", g.watch_network);
    put_bool(&mut t, "watch_pci", g.watch_pci);
    put_bool(&mut t, "watch_power", g.watch_power);
    put_bool(&mut t, "watch_sdcard", g.watch_sdcard);
    put_bool(&mut t, "watch_thunderbolt", g.watch_thunderbolt);
    put_bool(&mut t, "watch_usb", g.watch_usb);
    assert(table_model(t) =~= general_model(*g)->Table_0);
    Setting::Table(t)
}

pub(crate) fn kills(b: bool) -> (r: &'static str)
    ensures
        r@ == kill_word(b),
{
    if b {
        "kill"
    } else {
        "monitor"
    }
}

fn display_setting(d: &DisplayConfig) -> (r: Setting)
    ensures
        r.model() == display_model(*d),
{
    let mut t = empty_table();
    put_texts(&mut t, "ignore", d.ignore.as_slice());
    put_text(&mut t, "policy", kills(d.policy == DisplayPolicy::Kill));
    assert(table_model(t) =~= display_model(*d)->Table_0);
    Setting::Table(t)
}

fn lid_setting(l: &LidConfig) -> (r: Setting)
    requires
        l.grace_secs <= i64::MAX,
    ensures
        r.model() == lid_model(*l),
{
    let mut t = empty_table();
    put_number(&mut t, "grace_secs", l.grace_secs);
    put_text(&mut t, "policy", kills(l.policy == LidPolicy::Kill));
    assert(table_model(t) =~= lid_model(*l)->Table_0);
    Setting::Table(t)
}

fn network_setting(n: &NetworkConfig) -> (r: Setting)
    requires
        n.grace_secs <= i64::MAX,
    ensures
        r.model() == network_model(*n),
{
    let mut t = empty_table();
    put_number(&mut t, "grace_secs", n.grace_secs);
    put_texts(&mut t, "interfaces", n.interfaces.as_slice());
    put_text(&mut t, "policy", kills(n.policy == NetworkPolicy::Kill));
    assert(table_model(t) =~= network_model(*n)->Table_0);
    Setting::Table(t)
}

fn pci_setting(p: &PciConfig) -> (r: Setting)
    ensures
        r.model() == pci_model(*p),
{
    let mut t = empty_table();
    put_texts(&mut t, "ignore", p.ignore.as_slice());
    put_text(&mut t, "policy", kills(p.policy == PciPolicy::Kill));
    assert(table_model(t) =~= pci_model(*p)->Table_0);
    Setting::Table(t)
}

fn power_setting(p: &PowerConfig) -> (r: Setting)
    requires
        p.grace_secs <= i64::MAX,
    ensures
        r.model() == power_model(*p),
{
    let mut t = empty_table();
    put_number(&mut t, "grace_secs", p.grace_secs);
    let word = match p.policy {
        PowerPolicy::TriggerOnce => "trigger-once",
        PowerPolicy::AcRequired => "ac-required",
        PowerPolicy::Monitor => "monitor",
    };
    put_text(&mut t, "policy", word);
    put_bool(&mut t, "require_locked", p.require_locked);
    assert(table_model(t) =~= power_model(*p)->Table_0);
    Setting::Table(t)
}

pub(crate) fn devices_setting(list: Vec<Setting>) -> (r: Setting)
    ensures
        r.model() == devices_model(list_model(list)),
{
    let mut t = empty_table();
    put(&mut t, "devices", Setting::List(list));
    Setting::Table(t)
}

pub(crate) fn cards(devices: &[SdCardWhitelistEntry]) -> (r: Setting)
    ensures
        r.model() == devices_model(card_models(devices@)),
{
    let mut list: Vec<Setting> = Vec::new();
    let mut i: usize = 0;
    while i < devices.len()
        invariant
            i <= devices@.len(),
            list@.len() == i,
            forall|k: int| 0 <= k < i ==> (#[trigger] list@[k]).model() == card_model(devices@[k]),
        decreases devices@.len() - i,
    {
        let mut t = empty_table();
        put_text(&mut t, "serial", devices[i].serial.as_str());
        list.push(Setting::Table(t));
        i += 1;
    }
    assert(list_model(list) =~= card_models(devices@));
    devices_setting(list)
}

pub(crate) fn thunderbolts(devices: &[ThunderboltWhitelistEntry]) -> (r: Setting)
    ensures
        r.model() == devices_model(
            thunderbolt_models(devices@),
        ),
{
    let mut list: Vec<Setting> = Vec::new();
    let mut i: usize = 0;
    while i < devices.len()
        invariant
            i <= devices@.len(),
            list@.len() == i,
            forall|k: int|
                0 <= k < i ==> (#[trigger] list@[k]).model() == thunderbolt_model(devices@[k]),
        decreases devices@.len() - i,
    {
        let mut t = empty_table();
        put_text(&mut t, "unique_id", devices[i].unique_id.as_str());
        list.push(Setting::Table(t));
        i += 1;
    }
    assert(list_model(list) =~= thunderbolt_models(devices@));
    devices_setting(list)
}

fn usbs(devices: &[WhitelistEntry]) -> (r: Setting)
    ensures
        r.model() == devices_model(usb_models(devices@)),
{
    let mut list: Vec<Setting> = Vec::new();
    let mut i: usize = 0;
    while i < devices.len()
        invariant
            i <= devices@.len(),
            list@.len() == i,
            forall|k: int| 0 <= k < i ==> (#[trigger] list@[k]).model() == usb_model(devices@[k]),
        decreases devices@.len() - i,
    {
        let mut t = empty_table();
        put_number(&mut t, "count", devices[i].count as u64);
        put_text(&mut t, "product_id", devices[i].product_id.as_str());
        put_text(&mut t, "vendor_id", devices[i].vendor_id.as_str());
        assert(table_model(t) =~= usb_model(devices@[i as int])->Table_0);
        list.push(Setting::Table(t));
        i += 1;
    }
    assert(list_model(list) =~= usb_models(devices@));
    devices_setting(list)
}

/// The configuration as settings.
pub fn config_setting(c: &Config) -> (r: Setting)
    requires
        numbers_fit(*c),
    ensures
        r.model() == config_model(*c),
{
    let mut t = empty_table();
    put(&mut t, "commands", commands_setting(&c.commands));
    put(&mut t, "destruction", destruction_setting(&c.destruction));
    put(&mut t, "display", display_setting(&c.display));
    put(&mut t, "general", general_setting(&c.general));
    put(&mut t, "lid", lid_setting(&c.lid));
    put(&mut t, "network", network_setting(&c.network));
    put(&mut t, "pci", pci_setting(&c.pci));
    put(&mut t, "power", power_setting(&c.power));
    put(&mut t, "sdcard_whitelist", cards(c.sdcard_whitelist.devices.as_slice()));
    put(&mut t, "thunderbolt_whitelist", thunderbolts(c.thunderbolt_whitelist.devices.as_slice()));
    put(&mut t, "whitelist", usbs(c.whitelist.devices.as_slice()));
    assert(table_model(t) =~= config_model(*c)->Table_0);
    Setting::Table(t)
}

/// A list of texts nests one deep.
pub(crate) proof fn texts_are_shallow(list: Seq<Seq<char>>)
    ensures
        depth(texts_model(list)) <= 1,
{
    shallow_items(texts_model(list)->List_0, 0);
}

/// A list of values that nest at most `d` deep.
pub(crate) proof fn shallow_items(items: Seq<SettingModel>, d: nat)
    requires
        forall|i: int| 0 <= i < items.len() ==> depth(#[trigger] items[i]) <= d,
    ensures
        depth(SettingModel::List(items)) <= d + 1,
{
    shallow_numbers(item_depths(items), d);
}

/// A table of values that nest at most `d` deep.
pub(crate) proof fn shallow_entries(t: Seq<(Seq<char>, SettingModel)>, d: nat)
    requires
        forall|i: int| 0 <= i < t.len() ==> depth((#[trigger] t[i]).1) <= d,
    ensures
        depth(SettingModel::Table(t)) <= d + 1,
{
    shallow_numbers(entry_depths(t), d);
}

proof fn shallow_numbers(s: Seq<nat>, d: nat)
    requires
        forall|i: int| 0 <= i < s.len() ==> #[trigger] s[i] <= d,
    ensures
        deepest(s) <= d,
    decreases s.len(),
{
    if s.len() > 0 {
        assert forall|i: int| 0 <= i < s.drop_last().len() implies #[trigger] s.drop_last()[i]
            <= d by {
            assert(s.drop_last()[i] == s[i]);
        }
        shallow_numbers(s.drop_last(), d);
    }
}

/// A configuration nests at most five deep.
proof fn config_is_shallow(c: Config)
    ensures
        depth(config_model(c)) <= 5,
{
    let commands = commands_model(c.commands)->Table_0;
    assert forall|i: int| 0 <= i < commands[0].1->List_0.len() implies depth(
        #[trigger] commands[0].1->List_0[i],
    ) <= 1 by {
        texts_are_shallow(views(c.commands.kill_commands@[i]@));
    }
    shallow_items(commands[0].1->List_0, 1);
    shallow_entries(commands, 2);
    texts_are_shallow(views(c.destruction.files_to_remove@));
    texts_are_shallow(views(c.destruction.folders_to_remove@));
    shallow_entries(destruction_model(c.destruction)->Table_0, 1);
    texts_are_shallow(views(c.display.ignore@));
    shallow_entries(display_model(c.display)->Table_0, 1);
    shallow_entries(general_model(c.general)->Table_0, 1);
    shallow_entries(lid_model(c.lid)->Table_0, 1);
    texts_are_shallow(views(c.network.interfaces@));
    shallow_entries(network_model(c.network)->Table_0, 1);
    texts_are_shallow(views(c.pci.ignore@));
    shallow_entries(pci_model(c.pci)->Table_0, 1);
    shallow_entries(power_model(c.power)->Table_0, 1);
    let t = config_model(c)->Table_0;
    let cards = t[8].1->Table_0[0].1->List_0;
    assert forall|i: int| 0 <= i < cards.len() implies depth(#[trigger] cards[i]) <= 1 by {
        shallow_entries(cards[i]->Table_0, 0);
    }
    shallow_items(cards, 1);
    shallow_entries(t[8].1->Table_0, 2);
    let bolts = t[9].1->Table_0[0].1->List_0;
    assert forall|i: int| 0 <= i < bolts.len() implies depth(#[trigger] bolts[i]) <= 1 by {
        shallow_entries(bolts[i]->Table_0, 0);
    }
    shallow_items(bolts, 1);
    shallow_entries(t[9].1->Table_0, 2);
    let usb = t[10].1->Table_0[0].1->List_0;
    assert forall|i: int| 0 <= i < usb.len() implies depth(#[trigger] usb[i]) <= 1 by {
        shallow_entries(usb[i]->Table_0, 0);
    }
    shallow_items(usb, 1);
    shallow_entries(t[10].1->Table_0, 2);
    shallow_entries(t, 4);
}

/// The configuration as a Nix attrset.
pub open spec fn nix_config(c: Config) -> Seq<char> {
    "# services.plugkill.requireAuth = "@ + (if c.general.require_auth {
        "true"@
    } else {
        "false"@
    }) + ";\n"@ + nix_of(config_model(c), 0) + "\n"@
}

/// Emit the config as a Nix attrset for `services.plugkill.settings`. Keys come
/// out alphabetical.
///
/// `general.require_auth` is left out of the attrset: the NixOS module asserts
/// that key is absent from `services.plugkill.settings` because
/// `services.plugkill.requireAuth` writes it. It goes out as a comment naming
/// that option instead, so the output can be pasted as it stands.
pub fn to_nix(config: &Config) -> (r: Result<String, String>)
    ensures
        match r {
            Ok(s) => numbers_fit(*config) && s@ == nix_config(*config),
            Err(e) => !numbers_fit(*config) && e@
                == "failed to emit config as Nix: u64 value was too large"@,
        },
{
    let most: u64 = i64::MAX as u64;
    if config.general.sleep_ms > most || config.power.grace_secs > most
        || config.network.grace_secs > most || config.lid.grace_secs > most {
        return Err("failed to emit config as Nix: u64 value was too large".to_owned());
    }
    let value = config_setting(config);
    let auth = if config.general.require_auth {
        "true"
    } else {
        "false"
    };
    let mut out = cat3("# services.plugkill.requireAuth = ", auth, ";\n");
    proof {
        config_is_shallow(*config);
    }
    write_value(&value, 0, &mut out);
    out.push_str("\n");
    Ok(out)
}

// ---- what holds of the Nix text ------------------------------------------

/// What a Nix string means: escapes read back.
pub open spec fn nix_meaning(t: Seq<char>) -> Seq<char>
    decreases t.len(),
{
    if t.len() == 0 {
        Seq::empty()
    } else if t[0] == '\\' && t.len() >= 2 {
        let c = if t[1] == 'n' {
            '\n'
        } else if t[1] == 'r' {
            '\r'
        } else if t[1] == 't' {
            '\t'
        } else {
            t[1]
        };
        seq![c] + nix_meaning(t.skip(2))
    } else {
        seq![t[0]] + nix_meaning(t.skip(1))
    }
}

/// Escaping goes character by character from the front as from the back.
proof fn nix_inside_from_the_front(c: char, s: Seq<char>)
    ensures
        nix_inside(seq![c] + s) == nix_char(c) + nix_inside(s),
    decreases s.len(),
{
    let all = seq![c] + s;
    if s.len() == 0 {
        assert(all.drop_last() =~= Seq::<char>::empty());
        assert(nix_inside(all.drop_last()) =~= Seq::<char>::empty());
        assert(nix_inside(all) =~= nix_char(c) + nix_inside(s));
    } else {
        assert(all.drop_last() =~= seq![c] + s.drop_last());
        nix_inside_from_the_front(c, s.drop_last());
        assert(nix_inside(all) =~= nix_char(c) + nix_inside(s));
    }
}

/// Every string is read back from the Nix string that holds it.
pub proof fn nix_strings_mean_what_they_hold(s: Seq<char>)
    ensures
        nix_meaning(nix_inside(s)) == s,
    decreases s.len(),
{
    if s.len() == 0 {
        assert(nix_inside(s) =~= Seq::<char>::empty());
        assert(nix_meaning(nix_inside(s)) =~= s);
    } else {
        let c = s[0];
        let rest = s.skip(1);
        nix_strings_mean_what_they_hold(rest);
        assert(s =~= seq![c] + rest);
        nix_inside_from_the_front(c, rest);
        let t = nix_inside(s);
        let head = nix_char(c);
        assert(t =~= head + nix_inside(rest));
        assert(t[0] == head[0]);
        if head.len() == 2 {
            assert(t[1] == head[1]);
            assert(t.skip(2) =~= nix_inside(rest));
        } else {
            assert(t.skip(1) =~= nix_inside(rest));
        }
        assert(nix_meaning(t) =~= s);
    }
}

/// No Nix string starts an interpolation: every dollar sign in it stands
/// behind a backslash.
pub proof fn no_dollar_is_left_open(s: Seq<char>, i: int)
    requires
        0 <= i < nix_inside(s).len(),
        nix_inside(s)[i] == '$',
    ensures
        i > 0,
        nix_inside(s)[i - 1] == '\\',
    decreases s.len(),
{
    let front = nix_inside(s.drop_last());
    if i < front.len() {
        assert(nix_inside(s)[i] == front[i]);
        no_dollar_is_left_open(s.drop_last(), i);
        assert(nix_inside(s)[i - 1] == front[i - 1]);
    } else {
        let head = nix_char(s.last());
        assert(nix_inside(s)[i] == head[i - front.len()]);
        assert(i == front.len() + 1);
        assert(nix_inside(s)[i - 1] == head[0]);
    }
}

// ---- what holds of what is written ---------------------------------------

/// A text is written between quotes character by character: a quote, a backslash and a
/// dollar behind a backslash, the breaks and the tab as letters behind one, and every
/// other character as it is. So nothing inside ends the text or opens a substitution.
pub proof fn a_text_is_quoted_by_its_characters(s: Seq<char>, c: char)
    ensures
        quoted(Seq::<char>::empty()) == seq!['"', '"'],
        nix_inside(s.push(c)) == nix_inside(s) + if c == '"' || c == '\\' || c == '$' {
            seq!['\\', c]
        } else if c == '\n' {
            seq!['\\', 'n']
        } else if c == '\r' {
            seq!['\\', 'r']
        } else if c == '\t' {
            seq!['\\', 't']
        } else {
            seq![c]
        },
{
    assert(s.push(c).drop_last() =~= s);
    assert(quoted(Seq::<char>::empty()) =~= seq!['"', '"']);
}

/// A key is written bare exactly where it is a name: a letter or an underscore, and then
/// letters, digits, underscores, dashes and apostrophes. Any other is quoted.
pub proof fn a_key_is_bare_where_it_is_a_name(key: Seq<char>)
    ensures
        key.len() == 0 ==> key_text(key) == quoted(key),
        key.len() > 0 && !(65 <= key[0] as u32 <= 90 || 97 <= key[0] as u32 <= 122 || key[0] == '_')
            ==> key_text(key) == quoted(key),
        (exists|i: int| 1 <= i < key.len() && !name_char(#[trigger] key[i])) ==> key_text(key)
            == quoted(key),
        key.len() > 0 && (65 <= key[0] as u32 <= 90 || 97 <= key[0] as u32 <= 122 || key[0] == '_')
            && (forall|i: int| 1 <= i < key.len() ==> name_char(#[trigger] key[i])) ==> key_text(key)
            == key,
{
    assert forall|i: int| 1 <= i < key.len() implies (name_char(#[trigger] key[i]) <==> letter(key[i])
        || numeral(key[i]) || key[i] == '_' || key[i] == '-' || key[i] == '\'') by {}
}

/// A character that a name may hold.
pub open spec fn name_char(c: char) -> bool {
    65 <= c as u32 <= 90 || 97 <= c as u32 <= 122 || 48 <= c as u32 <= 57 || c == '_' || c == '-' || c
        == '\''
}

/// What a single value is written as.
pub proof fn a_value_is_written_so(s: Seq<char>, n: int, indent: nat)
    ensures
        nix_of(SettingModel::Text(s), indent) == quoted(s),
        nix_of(SettingModel::Integer(n), indent) == signed(n),
        nix_of(SettingModel::Boolean(true), indent) == "true"@,
        nix_of(SettingModel::Boolean(false), indent) == "false"@,
        nix_of(SettingModel::List(Seq::empty()), indent) == "[ ]"@,
        nix_of(SettingModel::Table(Seq::empty()), indent) == "{ }"@,
{
}

/// Each entry of a table has a line of its own, two spaces further in than the table:
/// the key, an equals sign, the value and a semicolon.
pub proof fn each_entry_has_its_line(
    t: Seq<(Seq<char>, SettingModel)>,
    key: Seq<char>,
    v: SettingModel,
    indent: nat,
)
    ensures
        nix_of(SettingModel::Table(t.push((key, v))), indent) == "{\n"@ + entry_lines(
            keys_of(t),
            entry_texts(t, indent + 2),
            t.len() as int,
            indent,
        ) + blanks(indent + 2) + key_text(key) + " = "@ + nix_of(v, indent + 2) + ";\n"@ + blanks(
            indent,
        ) + "}"@,
{
    let all = t.push((key, v));
    let n = t.len() as int;
    let keys = keys_of(all);
    let texts = entry_texts(all, indent + 2);
    assert(keys.len() == n + 1);
    assert(keys[n] == key);
    assert(texts[n] == nix_of(v, indent + 2));
    lines_of_a_part(keys, keys_of(t), texts, entry_texts(t, indent + 2), n, indent);
    let before = entry_lines(keys_of(t), entry_texts(t, indent + 2), n, indent);
    assert(entry_lines(keys, texts, n + 1, indent) == before + blanks(indent + 2) + key_text(key)
        + " = "@ + texts[n] + ";\n"@);
    assert("{\n"@ + (before + blanks(indent + 2) + key_text(key) + " = "@ + texts[n] + ";\n"@) + blanks(
        indent,
    ) + "}"@ =~= "{\n"@ + before + blanks(indent + 2) + key_text(key) + " = "@ + texts[n] + ";\n"@
        + blanks(indent) + "}"@);
}

proof fn lines_of_a_part(
    k1: Seq<Seq<char>>,
    k2: Seq<Seq<char>>,
    t1: Seq<Seq<char>>,
    t2: Seq<Seq<char>>,
    n: int,
    indent: nat,
)
    requires
        n <= k1.len() && n <= k2.len() && n <= t1.len() && n <= t2.len(),
        forall|i: int| 0 <= i < n ==> k1[i] == k2[i] && t1[i] == t2[i],
    ensures
        entry_lines(k1, t1, n, indent) == entry_lines(k2, t2, n, indent),
    decreases n,
{
    if n > 0 {
        lines_of_a_part(k1, k2, t1, t2, n - 1, indent);
    }
}

/// The words for the policies.
pub proof fn a_policy_is_named_so()
    ensures
        power_word(PowerPolicy::TriggerOnce) == "trigger-once"@,
        power_word(PowerPolicy::AcRequired) == "ac-required"@,
        power_word(PowerPolicy::Monitor) == "monitor"@,
        kill_word(true) == "kill"@,
        kill_word(false) == "monitor"@,
{
}

/// The Nix form begins with the comment that names the option for authentication, on or
/// off as it is set, and then has all sections in one attrset.
pub proof fn the_nix_form_begins_with_its_comment(c: Config)
    ensures
        c.general.require_auth ==> nix_config(c) == "# services.plugkill.requireAuth = "@ + "true"@
            + ";\n"@ + nix_of(config_model(c), 0) + "\n"@,
        !c.general.require_auth ==> nix_config(c) == "# services.plugkill.requireAuth = "@ + "false"@
            + ";\n"@ + nix_of(config_model(c), 0) + "\n"@,
        general_model(c.general)->Table_0.len() == 11,
        config_model(c)->Table_0.len() == 11,
{
}

/// The authentication setting is left to that comment: the attrset has no key for it.
pub proof fn the_attrset_leaves_authentication_out(g: GeneralConfig, i: int)
    requires
        0 <= i < general_model(g)->Table_0.len(),
    ensures
        general_model(g)->Table_0[i].0 != "require_auth"@,
{
    reveal_strlit("require_auth");
    reveal_strlit("dry_run");
    reveal_strlit("log_file");
    reveal_strlit("sleep_ms");
    reveal_strlit("watch_display");
    reveal_strlit("watch_lid");
    reveal_strlit("watch_network");
    reveal_strlit("watch_pci");
    reveal_strlit("watch_power");
    reveal_strlit("watch_sdcard");
    reveal_strlit("watch_thunderbolt");
    reveal_strlit("watch_usb");
    assert("require_auth"@[0] == 'r');
    assert(general_model(g)->Table_0[i].0[0] != 'r');
}

/// A configuration can be written where its four times fit in a signed number.
pub proof fn what_fits_can_be_written(c: Config)
    ensures
        numbers_fit(c) <==> c.general.sleep_ms <= 9223372036854775807 && c.power.grace_secs
            <= 9223372036854775807 && c.network.grace_secs <= 9223372036854775807 && c.lid.grace_secs
            <= 9223372036854775807,
{
}

/// A list of plain values stands on one line, and one with lists or tables in it on
/// several, each item two spaces further in.
pub proof fn a_list_is_written_so(items: Seq<SettingModel>, indent: nat)
    requires
        items.len() > 0,
    ensures
        (forall|i: int| 0 <= i < items.len() ==> !(#[trigger] items[i] is List || items[i] is Table))
            ==> nix_of(SettingModel::List(items), indent) == "["@ + flat_items(
            item_texts(items, indent),
            items.len() as int,
        ) + " ]"@,
        (exists|i: int| 0 <= i < items.len() && (#[trigger] items[i] is List || items[i] is Table))
            ==> nix_of(SettingModel::List(items), indent) == "[\n"@ + tall_items(
            item_texts(items, indent + 2),
            items.len() as int,
            indent,
        ) + blanks(indent) + "]"@,
        flat_items(item_texts(items, indent), 1) == Seq::<char>::empty() + " "@ + nix_of(
            items[0],
            indent,
        ),
{
    assert forall|i: int| 0 <= i < items.len() implies (is_tall(#[trigger] items[i]) <==> items[i] is List
        || items[i] is Table) by {}
    reveal_with_fuel(flat_items, 2);
    assert(item_texts(items, indent)[0] == nix_of(items[0], indent));
}

/// Each item of a list is written behind a space, or on a line of its own.
pub proof fn each_item_is_written_in_order(texts: Seq<Seq<char>>, n: int, indent: nat)
    requires
        0 <= n < texts.len(),
    ensures
        flat_items(texts, n + 1) == flat_items(texts, n) + " "@ + texts[n],
        tall_items(texts, n + 1, indent) == tall_items(texts, n, indent) + blanks(indent + 2) + texts[n]
            + "\n"@,
        flat_items(texts, 0).len() == 0,
        tall_items(texts, 0, indent).len() == 0,
{
}

} // verus!
