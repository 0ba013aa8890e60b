//! The laptop lid.

use vstd::prelude::*;

use crate::text::{
    begins, chars, contains_str, holds, is, lower, slice_views, strip_prefix, to_lower, trim,
    trimmed, words, words_of,
};

verus! {

/// State of the laptop lid.
#[derive(Debug, Clone, Copy, PartialEq, Eq, Structural)]
pub enum LidState {
    Open,
    Closed,
    Unknown,
}

impl LidState {
    /// The state in a word.
    pub open spec fn word(self) -> Seq<char> {
        match self {
            LidState::Open => "open"@,
            LidState::Closed => "closed"@,
            LidState::Unknown => "unknown"@,
        }
    }

    /// The state in a word.
    pub fn as_str(&self) -> (r: &'static str)
        ensures
            r@ == self.word(),
    {
        match self {
            LidState::Open => "open",
            LidState::Closed => "closed",
            LidState::Unknown => "unknown",
        }
    }
}

/// The state that a procfs lid file names, capitals or not.
pub open spec fn proc_state(contents: Seq<char>) -> LidState {
    let low = lower(trimmed(contents));
    if holds(low, "open"@) {
        LidState::Open
    } else if holds(low, "closed"@) {
        LidState::Closed
    } else {
        LidState::Unknown
    }
}

/// Lid state out of a procfs file, unknown where it could not be read.
pub fn read_lid_state_from_proc(contents: Option<&str>) -> (r: LidState)
    ensures
        r == match contents {
            Some(c) => proc_state(c@),
            None => LidState::Unknown,
        },
{
    match contents {
        Some(c) => {
            let c = chars(c);
            let low = to_lower(trim(c.as_slice()));
            if contains_str(low.as_str(), "open") {
                LidState::Open
            } else if contains_str(low.as_str(), "closed") {
                LidState::Closed
            } else {
                LidState::Unknown
            }
        },
        None => LidState::Unknown,
    }
}

/// The lid by what was asked of the two sources, each where it answered.
pub open spec fn lid_read(lid_closed: Option<bool>, contents: Option<&str>) -> LidState {
    match lid_closed {
        Some(true) => LidState::Closed,
        Some(false) => LidState::Open,
        None => match contents {
            Some(c) => proc_state(c@),
            None => LidState::Unknown,
        },
    }
}

/// The current lid state: what logind's `LidClosed` says, falling back to
/// procfs where logind said nothing.
pub fn read_lid_state(lid_closed: Option<bool>, contents: Option<&str>) -> (r: LidState)
    ensures
        r == match lid_closed {
            Some(true) => LidState::Closed,
            Some(false) => LidState::Open,
            None => match contents {
                Some(c) => proc_state(c@),
                None => LidState::Unknown,
            },
        },
        r == lid_read(lid_closed, contents),
{
    match lid_closed {
        Some(closed) => if closed {
            LidState::Closed
        } else {
            LidState::Open
        },
        None => read_lid_state_from_proc(contents),
    }
}

/// What follows the first word, at or after position `i`, that begins with
/// `notify=`.
pub open spec fn notify_from(ws: Seq<Seq<char>>, i: int) -> Option<Seq<char>>
    decreases ws.len() - i,
{
    if i >= ws.len() || i < 0 {
        None
    } else if begins(ws[i], "notify="@) {
        Some(ws[i].skip("notify="@.len() as int))
    } else {
        notify_from(ws, i + 1)
    }
}

/// What a devd line says about the lid.
pub open spec fn devd_state(line: Seq<char>) -> Option<LidState> {
    let notify = notify_from(words_of(line), 0);
    if !holds(line, "system=ACPI"@) || !holds(line, "subsystem=Lid"@) {
        None
    } else if notify == Some("0x00"@) || notify == Some("0"@) {
        Some(LidState::Closed)
    } else if notify == Some("0x01"@) || notify == Some("1"@) {
        Some(LidState::Open)
    } else {
        None
    }
}

/// Parse a devd event line for an ACPI lid notification.
///
/// `notify=0x00` is a closed lid, `notify=0x01` is open. Lines for anything
/// other than an ACPI Lid event return `None`.
pub fn parse_lid_devd_line(line: &str) -> (r: Option<LidState>)
    ensures
        r == devd_state(line@),
{
    if !contains_str(line, "system=ACPI") || !contains_str(line, "subsystem=Lid") {
        return None;
    }
    let all = chars(line);
    let ws = words(all.as_slice());
    let ghost wv = slice_views(ws@);
    let mut i: usize = 0;
    while i < ws.len()
        invariant
            i <= ws@.len(),
            wv == slice_views(ws@),
            wv == words_of(line@),
            holds(line@, "system=ACPI"@),
            holds(line@, "subsystem=Lid"@),
            notify_from(wv, 0) == notify_from(wv, i as int),
        decreases ws@.len() - i,
    {
        assert(wv[i as int] == ws@[i as int]@);
        if let Some(notify) = strip_prefix(ws[i], "notify=") {
            if is(notify, "0x00") || is(notify, "0") {
                return Some(LidState::Closed);
            }
            if is(notify, "0x01") || is(notify, "1") {
                proof {
                    reveal_strlit("0x00");
                    reveal_strlit("0");
                    reveal_strlit("0x01");
                    reveal_strlit("1");
                }
                return Some(LidState::Open);
            }
            return None;
        }
        i += 1;
    }
    None
}

/// The lid once a line has come in.
pub open spec fn lid_told(known: LidState, line: Seq<char>) -> LidState {
    match devd_state(line) {
        Some(state) => state,
        None => known,
    }
}

/// The lid after one more devd line: what the line says, or what was known.
pub fn lid_after(known: LidState, line: &str) -> (r: LidState)
    ensures
        r == match devd_state(line@) {
            Some(state) => state,
            None => known,
        },
        r == lid_told(known, line@),
{
    match parse_lid_devd_line(line) {
        Some(state) => state,
        None => known,
    }
}

// ---- what holds of the lid -----------------------------------------------

/// Whether a word of small letters stands at a place of a text, capitals or not.
pub open spec fn spelt_at(s: Seq<char>, word: Seq<char>, at: int) -> bool {
    0 <= at <= s.len() - word.len() && forall|k: int|
        0 <= k < word.len() ==> #[trigger] s[at + k] == word[k] || s[at + k] as u32 + 32
            == word[k] as u32
}

/// A word without white space, of small letters, stands in the trimmed text made small
/// exactly where it is spelt in the text.
proof fn a_word_is_held_where_spelt(s: Seq<char>, word: Seq<char>)
    requires
        word.len() > 0,
        forall|k: int| 0 <= k < word.len() ==> 97 <= #[trigger] word[k] as u32 <= 122,
    ensures
        holds(lower(trimmed(s)), word) <==> exists|at: int| spelt_at(s, word, at),
{
    let (a, b) = crate::text::trimming_drops_the_white_ends(s);
    let t = trimmed(s);
    let low = lower(t);
    crate::text::one_text_in_another(low, word);
    crate::text::small_letters(t);
    let n = word.len() as int;
    if holds(low, word) {
        let i = choose|i: int| 0 <= i <= low.len() - n && #[trigger] low.subrange(i, i + n) == word;
        assert forall|k: int| 0 <= k < n implies #[trigger] s[a + i + k] == word[k] || s[a + i
            + k] as u32 + 32 == word[k] as u32 by {
            assert(low.subrange(i, i + n)[k] == low[i + k]);
            assert(t[i + k] == s[a + i + k]);
            assert(low[i + k] == word[k]);
            if 65 <= t[i + k] as u32 <= 90 {
                assert(low[i + k] as u32 == t[i + k] as u32 + 32);
            }
        }
        assert(spelt_at(s, word, a + i));
    }
    if exists|at: int| spelt_at(s, word, at) {
        let at = choose|at: int| spelt_at(s, word, at);
        assert forall|k: int| 0 <= k < n implies a <= #[trigger] (at + k) < b && (s[at + k] == word[k]
            || s[at + k] as u32 + 32 == word[k] as u32) by {
            assert(s[at + k] == word[k] || s[at + k] as u32 + 32 == word[k] as u32);
            assert(97 <= word[k] as u32 <= 122);
            assert(!crate::text::is_space(s[at + k])) by {
                crate::text::white_space_is(s[at + k]);
            }
        }
        assert(a <= at + 0 < b);
        assert(a <= at + (n - 1) < b);
        let i = at - a;
        assert(low.subrange(i, i + n) =~= word) by {
            assert forall|k: int| 0 <= k < n implies low.subrange(i, i + n)[k] == word[k] by {
                assert(a <= at + k < b);
                assert(low.subrange(i, i + n)[k] == low[i + k]);
                assert(t[i + k] == s[at + k]);
                assert(97 <= word[k] as u32 <= 122);
                if s[at + k] == word[k] {
                    assert(low[i + k] == t[i + k]);
                } else {
                    assert(65 <= t[i + k] as u32 <= 90);
                    crate::order::code_fits(t[i + k]);
                    crate::order::code_fits(word[k]);
                    crate::order::code_fits(low[i + k]);
                    assert(low[i + k] as int == word[k] as int);
                    assert(low[i + k] == word[k]);
                }
            }
        }
    }
}

/// A lid file says open exactly where `open` stands somewhere in it, in small letters or
/// capitals, and closed exactly where `closed` does and `open` does not.
pub proof fn a_lid_file_says_open_or_closed(contents: Seq<char>)
    ensures
        proc_state(contents) is Open <==> exists|at: int| spelt_at(contents, seq!['o', 'p', 'e', 'n'], at),
        proc_state(contents) is Closed <==> !(proc_state(contents) is Open) && exists|at: int|
            spelt_at(contents, seq!['c', 'l', 'o', 's', 'e', 'd'], at),
{
    let open = seq!['o', 'p', 'e', 'n'];
    let closed = seq!['c', 'l', 'o', 's', 'e', 'd'];
    reveal_strlit("open");
    reveal_strlit("closed");
    assert("open"@ =~= open);
    assert("closed"@ =~= closed);
    a_word_is_held_where_spelt(contents, open);
    a_word_is_held_where_spelt(contents, closed);
}

/// A devd line tells of the lid exactly where it names the ACPI system and the Lid
/// subsystem and its first `notify=` word gives one of four values: 0x00 or 0 for
/// closed, 0x01 or 1 for open. Nothing else in the line matters.
pub proof fn a_lid_event_says_so(line: Seq<char>, i: int)
    requires
        0 <= i < words_of(line).len(),
        begins(words_of(line)[i], "notify="@),
        forall|k: int| 0 <= k < i ==> !begins(#[trigger] words_of(line)[k], "notify="@),
    ensures
        devd_state(line) == Some(LidState::Closed) <==> holds(line, "system=ACPI"@) && holds(
            line,
            "subsystem=Lid"@,
        ) && (words_of(line)[i] == "notify=0x00"@ || words_of(line)[i] == "notify=0"@),
        devd_state(line) == Some(LidState::Open) <==> holds(line, "system=ACPI"@) && holds(
            line,
            "subsystem=Lid"@,
        ) && (words_of(line)[i] == "notify=0x01"@ || words_of(line)[i] == "notify=1"@),
        devd_state(line) != Some(LidState::Unknown),
{
    let ws = words_of(line);
    notify_is_at(ws, 0, i);
    let w = ws[i];
    reveal_strlit("notify=");
    reveal_strlit("0x00");
    reveal_strlit("0");
    reveal_strlit("0x01");
    reveal_strlit("1");
    reveal_strlit("notify=0x00");
    reveal_strlit("notify=0");
    reveal_strlit("notify=0x01");
    reveal_strlit("notify=1");
    assert(w =~= "notify="@ + w.skip(7)) by {
        assert(w.take(7) == "notify="@);
    }
    assert("notify=0x00"@ =~= "notify="@ + "0x00"@);
    assert("notify=0"@ =~= "notify="@ + "0"@);
    assert("notify=0x01"@ =~= "notify="@ + "0x01"@);
    assert("notify=1"@ =~= "notify="@ + "1"@);
    assert("notify=0x00"@.skip(7) =~= "0x00"@);
    assert("notify=0"@.skip(7) =~= "0"@);
    assert("notify=0x01"@.skip(7) =~= "0x01"@);
    assert("notify=1"@.skip(7) =~= "1"@);
    assert("0x00"@[3] != "0x01"@[3]);
    assert("0"@[0] != "1"@[0]);
    assert("0x00"@.len() == 4 && "0x01"@.len() == 4 && "0"@.len() == 1 && "1"@.len() == 1);
}

/// A line without a `notify=` word, or of another system, says nothing of the lid.
pub proof fn a_line_without_a_notice_says_nothing(line: Seq<char>)
    requires
        (forall|k: int|
            0 <= k < words_of(line).len() ==> !begins(#[trigger] words_of(line)[k], "notify="@))
            || !holds(line, "system=ACPI"@) || !holds(line, "subsystem=Lid"@),
    ensures
        devd_state(line) is None,
{
    if forall|k: int|
        0 <= k < words_of(line).len() ==> !begins(#[trigger] words_of(line)[k], "notify="@) {
        notify_is_nowhere(words_of(line), 0);
    }
}

proof fn notify_is_at(ws: Seq<Seq<char>>, from: int, i: int)
    requires
        0 <= from <= i < ws.len(),
        begins(ws[i], "notify="@),
        forall|k: int| from <= k < i ==> !begins(#[trigger] ws[k], "notify="@),
    ensures
        notify_from(ws, from) == Some(ws[i].skip("notify="@.len() as int)),
    decreases i - from,
{
    if from < i {
        notify_is_at(ws, from + 1, i);
    }
}

proof fn notify_is_nowhere(ws: Seq<Seq<char>>, from: int)
    requires
        0 <= from,
        forall|k: int| from <= k < ws.len() ==> !begins(#[trigger] ws[k], "notify="@),
    ensures
        notify_from(ws, from) is None,
    decreases ws.len() - from,
{
    if from < ws.len() {
        notify_is_nowhere(ws, from + 1);
    }
}

/// What the login manager says of the lid counts, whatever the file says; the file
/// counts only where it said nothing.
pub proof fn the_login_manager_is_believed_first(contents: Option<&str>)
    ensures
        lid_read(Some(true), contents) is Closed,
        lid_read(Some(false), contents) is Open,
        lid_read(None, None) is Unknown,
        contents matches Some(c) ==> (lid_read(None, contents) is Open <==> exists|at: int|
            spelt_at(c@, seq!['o', 'p', 'e', 'n'], at)),
{
    if let Some(c) = contents {
        a_lid_file_says_open_or_closed(c@);
    }
}

/// A line about something else leaves the lid as it was known, and one about the lid
/// replaces it.
pub proof fn only_a_lid_event_moves_the_lid(known: LidState, line: Seq<char>)
    ensures
        !holds(line, "system=ACPI"@) || !holds(line, "subsystem=Lid"@) ==> lid_told(known, line)
            == known,
        devd_state(line) matches Some(s) ==> lid_told(known, line) == s,
        lid_told(lid_told(known, line), line) == lid_told(known, line),
{
}

/// The words for the states.
pub proof fn a_state_has_its_word()
    ensures
        LidState::Open.word() == "open"@,
        LidState::Closed.word() == "closed"@,
        LidState::Unknown.word() == "unknown"@,
{
}

} // verus!
