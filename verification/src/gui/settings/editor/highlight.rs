//! Colouring and numbering for the output panes.
//!
//! Two small tokenizers, one for TOML and one for Nix, rendered as Pango
//! markup.
//!
//! One colour set serves both a dark and a light ground, so every colour here
//! is a mid tone that keeps its contrast against both.

use vstd::prelude::*;

use crate::number::{dec, decimal, digit, digit_char, pad_front, padded_front};
use crate::text::{
    cat3, cat5, chars, is, join, joined, lines, lines_of, part, slice_views, text, trim,
    trim_start, trimmed, trimmed_front, views,
};

verus! {

#[derive(Debug, Clone, Copy, PartialEq, Eq, Structural)]
pub enum Lang {
    Toml,
    Nix,
}

#[derive(Debug, Clone, Copy, PartialEq, Eq, Structural)]
pub enum Token {
    Comment,
    Key,
    Str,
    Number,
    Bool,
    Punct,
    Plain,
}

impl Token {
    /// The colour, or none for text that keeps the label's own.
    pub open spec fn hue(self) -> Option<Seq<char>> {
        match self {
            Token::Comment => Some("#6d777f"@),
            Token::Key => Some("#2f7fbf"@),
            Token::Str => Some("#2e8a4e"@),
            Token::Number => Some("#a8780f"@),
            Token::Bool => Some("#8a5cd0"@),
            Token::Punct => Some("#7e878f"@),
            Token::Plain => None,
        }
    }

    /// The colour, or none for text that keeps the label's own.
    pub fn colour(self) -> (r: Option<&'static str>)
        ensures
            match r {
                Some(c) => self.hue() == Some(c@),
                None => self.hue() is None,
            },
    {
        match self {
            Token::Comment => Some("#6d777f"),
            Token::Key => Some("#2f7fbf"),
            Token::Str => Some("#2e8a4e"),
            Token::Number => Some("#a8780f"),
            Token::Bool => Some("#8a5cd0"),
            Token::Punct => Some("#7e878f"),
            Token::Plain => None,
        }
    }
}

// ---- characters ----------------------------------------------------------

/// Whether a character has the Unicode property Alphabetic.
pub uninterp spec fn alphabetic(c: char) -> bool;

/// Whether a character is in one of the Unicode number categories.
pub uninterp spec fn numeric(c: char) -> bool;

/// `char::is_alphabetic`, by the Unicode tables of the standard library.
#[verifier::external_body]
fn is_alphabetic(c: char) -> (r: bool)
    ensures
        r == alphabetic(c),
{
    c.is_alphabetic()
}

/// `char::is_numeric`, by the Unicode tables of the standard library.
#[verifier::external_body]
fn is_numeric(c: char) -> (r: bool)
    ensures
        r == numeric(c),
{
    c.is_numeric()
}

/// What runs of characters are made of.
#[derive(Debug, Clone, Copy, PartialEq, Eq, Structural)]
pub enum Class {
    /// Spaces and tabs.
    Blank,
    /// What may follow the first character of a number. Dots, colons and signs
    /// are in, so a TOML datetime or a float is one number and not five tokens.
    Number,
    /// Letters and digits of any script, underscores and dashes.
    Word,
}

/// A decimal digit.
pub open spec fn ascii_digit(c: char) -> bool {
    48 <= c as u32 <= 57
}

/// An ASCII letter.
pub open spec fn ascii_letter(c: char) -> bool {
    65 <= c as u32 <= 90 || 97 <= c as u32 <= 122
}

/// Whether a character belongs to a class.
pub open spec fn in_class(c: char, class: Class) -> bool {
    match class {
        Class::Blank => c == ' ' || c == '\t',
        Class::Number => ascii_digit(c) || ascii_letter(c) || c == '.' || c == '_' || c == '+' || c
            == '-' || c == ':',
        Class::Word => alphabetic(c) || numeric(c) || c == '_' || c == '-',
    }
}

fn is_ascii_digit(c: char) -> (r: bool)
    ensures
        r == ascii_digit(c),
{
    let u: u32 = c as u32;
    48 <= u && u <= 57
}

fn belongs(c: char, class: Class) -> (r: bool)
    ensures
        r == in_class(c, class),
{
    match class {
        Class::Blank => c == ' ' || c == '\t',
        Class::Number => {
            let u: u32 = c as u32;
            (48 <= u && u <= 57) || (65 <= u && u <= 90) || (97 <= u && u <= 122) || c == '.' || c
                == '_' || c == '+' || c == '-' || c == ':'
        },
        Class::Word => is_alphabetic(c) || is_numeric(c) || c == '_' || c == '-',
    }
}

/// How many characters at the front belong to a class.
pub open spec fn run_of(s: Seq<char>, class: Class) -> int
    decreases s.len(),
{
    if s.len() == 0 || !in_class(s[0], class) {
        0
    } else {
        1 + run_of(s.skip(1), class)
    }
}

proof fn run_bounds(s: Seq<char>, class: Class)
    ensures
        0 <= run_of(s, class) <= s.len(),
        s.len() > 0 && in_class(s[0], class) ==> run_of(s, class) >= 1,
    decreases s.len(),
{
    if s.len() > 0 && in_class(s[0], class) {
        run_bounds(s.skip(1), class);
    }
}

fn run(s: &[char], class: Class) -> (r: usize)
    ensures
        r == run_of(s@, class),
        r <= s@.len(),
{
    let mut n: usize = 0;
    assert(s@.skip(0) =~= s@);
    while n < s.len() && belongs(s[n], class)
        invariant
            n <= s@.len(),
            n + run_of(s@.skip(n as int), class) == run_of(s@, class),
        decreases s@.len() - n,
    {
        assert(s@.skip(n as int).skip(1) =~= s@.skip(n + 1));
        n += 1;
    }
    n
}

/// A bracket, a brace or another character that stands for itself.
pub open spec fn punctuation(c: char) -> bool {
    c == '[' || c == ']' || c == '{' || c == '}' || c == '(' || c == ')' || c == ',' || c == ';'
        || c == '=' || c == ':' || c == '.'
}

// ---- spans ---------------------------------------------------------------

/// Where a string that has been read up to position `i` ends.
pub open spec fn quote_end(s: Seq<char>, i: int, escaped: bool) -> int
    decreases s.len() - i,
{
    if i >= s.len() {
        s.len() as int
    } else if escaped {
        quote_end(s, i + 1, false)
    } else if s[i] == '\\' {
        quote_end(s, i + 1, true)
    } else if s[i] == '"' {
        i + 1
    } else {
        quote_end(s, i + 1, false)
    }
}

proof fn quote_end_bounds(s: Seq<char>, i: int, escaped: bool)
    requires
        0 <= i <= s.len(),
    ensures
        i <= quote_end(s, i, escaped) <= s.len(),
    decreases s.len() - i,
{
    if i < s.len() {
        quote_end_bounds(s, i + 1, false);
        quote_end_bounds(s, i + 1, true);
    }
}

/// The length of the string that starts here, closing quote included. An
/// unterminated string runs to the end of the line rather than swallowing it.
pub fn string_end(rest: &[char]) -> (r: usize)
    requires
        rest@.len() > 0,
    ensures
        r == quote_end(rest@, 1, false),
        1 <= r <= rest@.len(),
{
    let mut i: usize = 1;
    let mut escaped = false;
    proof {
        quote_end_bounds(rest@, 1, false);
    }
    while i < rest.len()
        invariant
            1 <= i <= rest@.len(),
            quote_end(rest@, 1, false) == quote_end(rest@, i as int, escaped),
        decreases rest@.len() - i,
    {
        let c: char = rest[i];
        if escaped {
            escaped = false;
        } else if c == '\\' {
            escaped = true;
        } else if c == '"' {
            return i + 1;
        }
        i += 1;
    }
    rest.len()
}

/// The first span of a stretch of text, and its length. With `keys`, a bare
/// word names something; without it, a bare word is a value and may be a
/// boolean.
pub open spec fn first_span(s: Seq<char>, keys: bool) -> (Token, int) {
    let c = s[0];
    if c == ' ' || c == '\t' {
        (Token::Plain, run_of(s, Class::Blank))
    } else if c == '#' {
        (Token::Comment, s.len() as int)
    } else if c == '"' {
        (Token::Str, quote_end(s, 1, false))
    } else if punctuation(c) {
        (Token::Punct, 1)
    } else if ascii_digit(c) || (c == '-' && s.len() > 1 && ascii_digit(s[1])) {
        (Token::Number, 1 + run_of(s.skip(1), Class::Number))
    } else if alphabetic(c) || c == '_' {
        let n = run_of(s, Class::Word);
        let word = s.take(n);
        (
            if keys {
                Token::Key
            } else if word == "true"@ || word == "false"@ {
                Token::Bool
            } else {
                Token::Plain
            },
            n,
        )
    } else {
        (Token::Plain, 1)
    }
}

proof fn first_span_bounds(s: Seq<char>, keys: bool)
    requires
        s.len() > 0,
    ensures
        1 <= first_span(s, keys).1 <= s.len(),
{
    run_bounds(s, Class::Blank);
    run_bounds(s, Class::Word);
    run_bounds(s.skip(1), Class::Number);
    quote_end_bounds(s, 1, false);
}

/// The spans of one stretch of text.
pub open spec fn scanned(s: Seq<char>, keys: bool) -> Seq<(Token, Seq<char>)>
    decreases s.len(),
    via scanned_decreases
{
    if s.len() == 0 {
        Seq::empty()
    } else {
        let (token, n) = first_span(s, keys);
        seq![(token, s.take(n))] + scanned(s.skip(n), keys)
    }
}

#[via_fn]
proof fn scanned_decreases(s: Seq<char>, keys: bool) {
    if s.len() > 0 {
        first_span_bounds(s, keys);
    }
}

/// The position of the `=` that makes this text an assignment, at or after
/// position `i`, ignoring one inside a string and one inside a comment.
pub open spec fn assigns_from(s: Seq<char>, i: int) -> Option<int>
    decreases s.len() - i,
    via assigns_decreases
{
    if i >= s.len() || i < 0 {
        None
    } else if s[i] == '"' {
        assigns_from(s, i + quote_end(s.skip(i), 1, false))
    } else if s[i] == '#' {
        None
    } else if s[i] == '=' {
        if trimmed(s.take(i)).len() > 0 {
            Some(i)
        } else {
            None
        }
    } else {
        assigns_from(s, i + 1)
    }
}

#[via_fn]
proof fn assigns_decreases(s: Seq<char>, i: int) {
    if 0 <= i < s.len() {
        quote_end_bounds(s.skip(i), 1, false);
    }
}

/// The spans of a line.
pub open spec fn spans(lang: Lang, line: Seq<char>) -> Seq<(Token, Seq<char>)> {
    let body = trimmed_front(line);
    let indent = line.take(line.len() - body.len());
    let front = if indent.len() > 0 {
        seq![(Token::Plain, indent)]
    } else {
        Seq::empty()
    };
    if body.len() == 0 {
        front
    } else if body[0] == '#' {
        front + seq![(Token::Comment, body)]
    } else {
        match assigns_from(body, 0) {
            // `key = value`, in both languages. What is left of the sign names
            // something, what is right of it is a value.
            Some(at) => front + scanned(body.take(at), true) + seq![
                (Token::Punct, body.subrange(at, at + 1)),
            ] + scanned(body.skip(at + 1), false),
            // No sign: a TOML section header names something, anything else is
            // a value, a bracket or a brace.
            None => front + scanned(body, lang == Lang::Toml && body[0] == '['),
        }
    }
}

/// Spans by the characters they hold.
pub open spec fn span_views(v: Seq<(Token, String)>) -> Seq<(Token, Seq<char>)> {
    v.map_values(|s: (Token, String)| (s.0, s.1@))
}

fn push_span(out: &mut Vec<(Token, String)>, token: Token, s: &[char])
    ensures
        span_views(final(out)@) == span_views(old(out)@).push((token, s@)),
{
    let ghost before = out@;
    out.push((token, text(s)));
    assert(span_views(out@) =~= span_views(before).push((token, s@)));
}

/// The first span of a stretch of text, and its length.
fn next_span(s: &[char], keys: bool) -> (r: (Token, usize))
    requires
        s@.len() > 0,
    ensures
        (r.0, r.1 as int) == first_span(s@, keys),
        1 <= r.1 <= s@.len(),
{
    proof {
        first_span_bounds(s@, keys);
    }
    let c: char = s[0];
    if c == ' ' || c == '\t' {
        return (Token::Plain, run(s, Class::Blank));
    }
    if c == '#' {
        return (Token::Comment, s.len());
    }
    if c == '"' {
        return (Token::Str, string_end(s));
    }
    if c == '[' || c == ']' || c == '{' || c == '}' || c == '(' || c == ')' || c == ',' || c == ';'
        || c == '=' || c == ':' || c == '.' {
        return (Token::Punct, 1);
    }
    if is_ascii_digit(c) || (c == '-' && s.len() > 1 && is_ascii_digit(s[1])) {
        let rest = part(s, 1, s.len());
        assert(rest@ =~= s@.skip(1));
        return (Token::Number, 1 + run(rest, Class::Number));
    }
    if is_alphabetic(c) || c == '_' {
        let n = run(s, Class::Word);
        let word = part(s, 0, n);
        assert(word@ =~= s@.take(n as int));
        let token = if keys {
            Token::Key
        } else if is(word, "true") || is(word, "false") {
            Token::Bool
        } else {
            Token::Plain
        };
        return (token, n);
    }
    (Token::Plain, 1)
}

/// The spans of one stretch of text. With `keys`, a bare word names
/// something; without it, a bare word is a value and may be a boolean.
pub fn scan(s: &[char], keys: bool, out: &mut Vec<(Token, String)>)
    ensures
        span_views(final(out)@) == span_views(old(out)@) + scanned(s@, keys),
{
    let ghost before = span_views(out@);
    let mut rest: &[char] = s;
    assert(before + scanned(rest@, keys) =~= before + scanned(s@, keys));
    while rest.len() > 0
        invariant
            span_views(out@) + scanned(rest@, keys) == before + scanned(s@, keys),
        decreases rest@.len(),
    {
        let (token, n) = next_span(rest, keys);
        let head = part(rest, 0, n);
        let tail = part(rest, n, rest.len());
        assert(head@ =~= rest@.take(n as int));
        assert(tail@ =~= rest@.skip(n as int));
        let ghost sofar = span_views(out@);
        push_span(out, token, head);
        assert(span_views(out@) + scanned(tail@, keys) =~= sofar + scanned(rest@, keys));
        rest = tail;
    }
    assert(span_views(out@) + scanned(rest@, keys) =~= span_views(out@));
}

/// The position of the `=` that makes this text an assignment, ignoring one
/// inside a string and one inside a comment.
pub fn assignment(body: &[char]) -> (r: Option<usize>)
    ensures
        match r {
            Some(at) => assigns_from(body@, 0) == Some(at as int) && at < body@.len(),
            None => assigns_from(body@, 0) is None,
        },
{
    let mut i: usize = 0;
    while i < body.len()
        invariant
            i <= body@.len(),
            assigns_from(body@, 0) == assigns_from(body@, i as int),
        decreases body@.len() - i,
    {
        let c: char = body[i];
        if c == '"' {
            let rest = part(body, i, body.len());
            assert(rest@ =~= body@.skip(i as int));
            i += string_end(rest);
        } else if c == '#' {
            return None;
        } else if c == '=' {
            let front = part(body, 0, i);
            assert(front@ =~= body@.take(i as int));
            return if trim(front).len() > 0 {
                Some(i)
            } else {
                None
            };
        } else {
            i += 1;
        }
    }
    None
}

/// One line as spans. The spans concatenate back to the line exactly, so
/// nothing can be dropped on the way to the pane.
pub fn tokens(lang: Lang, line: &str) -> (r: Vec<(Token, String)>)
    ensures
        span_views(r@) == spans(lang, line@),
{
    let mut out: Vec<(Token, String)> = Vec::new();
    let all = chars(line);
    let body = trim_start(all.as_slice());
    let n = all.len() - body.len();
    let ghost front = if n > 0 {
        seq![(Token::Plain, line@.take(n as int))]
    } else {
        Seq::empty()
    };
    assert(span_views(out@) =~= Seq::<(Token, Seq<char>)>::empty());
    if n > 0 {
        let indent = part(all.as_slice(), 0, n);
        assert(indent@ =~= line@.take(n as int));
        push_span(&mut out, Token::Plain, indent);
    }
    assert(span_views(out@) =~= front);
    if body.len() == 0 {
        return out;
    }
    if body[0] == '#' {
        push_span(&mut out, Token::Comment, body);
        assert(span_views(out@) =~= front + seq![(Token::Comment, body@)]);
        return out;
    }
    match assignment(body) {
        Some(at) => {
            let left = part(body, 0, at);
            assert(left@ =~= body@.take(at as int));
            scan(left, true, &mut out);
            let sign = part(body, at, at + 1);
            push_span(&mut out, Token::Punct, sign);
            let right = part(body, at + 1, body.len());
            assert(right@ =~= body@.skip(at + 1));
            assert(span_views(out@) =~= front + scanned(body@.take(at as int), true) + seq![
                (Token::Punct, sign@),
            ]);
            scan(right, false, &mut out);
        },
        None => {
            let names = lang == Lang::Toml && body[0] == '[';
            scan(body, names, &mut out);
        },
    }
    out
}

/// The text of the spans, one after the other.
pub open spec fn rebuilt(v: Seq<(Token, Seq<char>)>) -> Seq<char>
    decreases v.len(),
{
    if v.len() == 0 {
        Seq::empty()
    } else {
        rebuilt(v.drop_last()) + v.last().1
    }
}

proof fn rebuilt_joins(a: Seq<(Token, Seq<char>)>, b: Seq<(Token, Seq<char>)>)
    ensures
        rebuilt(a + b) == rebuilt(a) + rebuilt(b),
    decreases b.len(),
{
    if b.len() == 0 {
        assert(a + b =~= a);
        assert(rebuilt(a) + rebuilt(b) =~= rebuilt(a));
    } else {
        rebuilt_joins(a, b.drop_last());
        assert((a + b).drop_last() =~= a + b.drop_last());
        assert((a + b).last() == b.last());
        assert(rebuilt(a + b) =~= rebuilt(a) + rebuilt(b));
    }
}

proof fn rebuilt_one(t: Token, s: Seq<char>)
    ensures
        rebuilt(seq![(t, s)]) == s,
{
    let v = seq![(t, s)];
    assert(v.drop_last() =~= Seq::<(Token, Seq<char>)>::empty());
    assert(rebuilt(v.drop_last()) =~= Seq::<char>::empty());
    assert(v.last() == (t, s));
    assert(rebuilt(v) =~= s);
}

proof fn scanned_rebuilds(s: Seq<char>, keys: bool)
    ensures
        rebuilt(scanned(s, keys)) == s,
    decreases s.len(),
{
    if s.len() == 0 {
        assert(rebuilt(scanned(s, keys)) =~= s);
    } else {
        first_span_bounds(s, keys);
        let (token, n) = first_span(s, keys);
        scanned_rebuilds(s.skip(n), keys);
        rebuilt_joins(seq![(token, s.take(n))], scanned(s.skip(n), keys));
        rebuilt_one(token, s.take(n));
        assert(s.take(n) + s.skip(n) =~= s);
    }
}

proof fn assigns_inside(s: Seq<char>, i: int)
    requires
        0 <= i,
        assigns_from(s, i) is Some,
    ensures
        0 <= assigns_from(s, i)->0 < s.len(),
    decreases s.len() - i,
{
    if i < s.len() {
        if s[i] == '"' {
            quote_end_bounds(s.skip(i), 1, false);
            assigns_inside(s, i + quote_end(s.skip(i), 1, false));
        } else if s[i] != '#' && s[i] != '=' {
            assigns_inside(s, i + 1);
        }
    }
}

proof fn front_is_dropped(s: Seq<char>)
    ensures
        trimmed_front(s).len() <= s.len(),
        trimmed_front(s) == s.skip(s.len() - trimmed_front(s).len()),
    decreases s.len(),
{
    if s.len() > 0 && crate::text::is_space(s[0]) {
        front_is_dropped(s.drop_first());
        let n = trimmed_front(s).len();
        assert(s.drop_first().skip(s.len() - 1 - n) =~= s.skip(s.len() - n));
    } else {
        assert(s.skip(0) =~= s);
    }
}

/// The spans of a line concatenate back to the line exactly: nothing is dropped
/// and nothing is added.
pub proof fn spans_rebuild_the_line(lang: Lang, line: Seq<char>)
    ensures
        rebuilt(spans(lang, line)) == line,
{
    let body = trimmed_front(line);
    front_is_dropped(line);
    let indent = line.take(line.len() - body.len());
    let front = if indent.len() > 0 {
        seq![(Token::Plain, indent)]
    } else {
        Seq::empty()
    };
    assert(indent + body =~= line);
    assert(rebuilt(front) =~= indent) by {
        if indent.len() > 0 {
            rebuilt_one(Token::Plain, indent);
        }
    }
    if body.len() == 0 {
        assert(indent =~= line);
    } else if body[0] == '#' {
        rebuilt_joins(front, seq![(Token::Comment, body)]);
        rebuilt_one(Token::Comment, body);
    } else {
        match assigns_from(body, 0) {
            Some(at) => {
                assigns_inside(body, 0);
                let left = scanned(body.take(at), true);
                let sign = seq![(Token::Punct, body.subrange(at, at + 1))];
                let right = scanned(body.skip(at + 1), false);
                rebuilt_joins(front + left + sign, right);
                rebuilt_joins(front + left, sign);
                rebuilt_joins(front, left);
                rebuilt_one(Token::Punct, body.subrange(at, at + 1));
                scanned_rebuilds(body.take(at), true);
                scanned_rebuilds(body.skip(at + 1), false);
                assert(indent + body.take(at) + body.subrange(at, at + 1) + body.skip(at + 1)
                    =~= line);
            },
            None => {
                let keys = lang == Lang::Toml && body[0] == '[';
                rebuilt_joins(front, scanned(body, keys));
                scanned_rebuilds(body, keys);
            },
        }
    }
}

// ---- markup --------------------------------------------------------------

/// A control character that markup cannot hold as it is.
pub open spec fn control(u: u32) -> bool {
    (0x1 <= u <= 0x8) || (0xb <= u <= 0xc) || (0xe <= u <= 0x1f) || (0x7f <= u <= 0x84) || (0x86
        <= u <= 0x9f)
}

/// A number below 256 in hexadecimal, without leading zeros.
pub open spec fn short_hex(u: u32) -> Seq<char> {
    if u < 16 {
        seq![digit_char(u as nat)]
    } else {
        seq![digit_char((u / 16) as nat), digit_char((u % 16) as nat)]
    }
}

/// A character as markup: the five characters that markup uses itself as named
/// entities, a control character as a numbered one.
pub open spec fn markup_char(c: char) -> Seq<char> {
    if c == '&' {
        "&amp;"@
    } else if c == '<' {
        "&lt;"@
    } else if c == '>' {
        "&gt;"@
    } else if c == '\'' {
        "&apos;"@
    } else if c == '"' {
        "&quot;"@
    } else if control(c as u32) {
        "&#x"@ + short_hex(c as u32) + ";"@
    } else {
        seq![c]
    }
}

/// A text as markup.
pub open spec fn escaped(s: Seq<char>) -> Seq<char>
    decreases s.len(),
{
    if s.len() == 0 {
        Seq::empty()
    } else {
        escaped(s.drop_last()) + markup_char(s.last())
    }
}

/// One span as markup.
pub open spec fn span_markup(t: Token, s: Seq<char>) -> Seq<char> {
    match t.hue() {
        Some(colour) => "<span foreground=\""@ + colour + "\">"@ + escaped(s) + "</span>"@,
        None => escaped(s),
    }
}

/// Spans as markup.
pub open spec fn spans_markup(v: Seq<(Token, Seq<char>)>) -> Seq<char>
    decreases v.len(),
{
    if v.len() == 0 {
        Seq::empty()
    } else {
        spans_markup(v.drop_last()) + span_markup(v.last().0, v.last().1)
    }
}

/// A line as markup.
pub open spec fn line_text(lang: Lang, line: Seq<char>) -> Seq<char> {
    spans_markup(spans(lang, line))
}

/// Escape a text for markup.
pub fn markup_escape(s: &str) -> (r: String)
    ensures
        r@ == escaped(s@),
{
    let cs = chars(s);
    let mut out = String::new();
    let mut i: usize = 0;
    assert(cs@.take(0) =~= Seq::<char>::empty());
    while i < cs.len()
        invariant
            i <= cs@.len(),
            out@ == escaped(cs@.take(i as int)),
        decreases cs@.len() - i,
    {
        let c: char = cs[i];
        let u: u32 = c as u32;
        let ghost before = out@;
        assert(cs@.take(i + 1).drop_last() =~= cs@.take(i as int));
        if c == '&' {
            out.push_str("&amp;");
        } else if c == '<' {
            out.push_str("&lt;");
        } else if c == '>' {
            out.push_str("&gt;");
        } else if c == '\'' {
            out.push_str("&apos;");
        } else if c == '"' {
            out.push_str("&quot;");
        } else if (0x1 <= u && u <= 0x8) || (0xb <= u && u <= 0xc) || (0xe <= u && u <= 0x1f) || (
        0x7f <= u && u <= 0x84) || (0x86 <= u && u <= 0x9f) {
            let mut code = String::new();
            if u >= 16 {
                code.push(digit((u / 16) as u8));
            }
            code.push(digit((u % 16) as u8));
            assert(code@ =~= short_hex(u));
            let entity = cat3("&#x", code.as_str(), ";");
            out.push_str(entity.as_str());
        } else {
            out.push(c);
            assert(out@ =~= before + seq![c]);
        }
        assert(out@ == before + markup_char(c));
        i += 1;
    }
    assert(cs@.take(i as int) =~= cs@);
    out
}

/// One line as Pango markup. The text is escaped first, so a path holding an
/// ampersand or an angle bracket neither corrupts the pane nor vanishes.
pub fn line_markup(lang: Lang, line: &str) -> (r: String)
    ensures
        r@ == line_text(lang, line@),
{
    let v = tokens(lang, line);
    let ghost sv = span_views(v@);
    let mut out = String::new();
    let mut i: usize = 0;
    assert(sv.take(0) =~= Seq::<(Token, Seq<char>)>::empty());
    while i < v.len()
        invariant
            i <= v@.len(),
            sv == span_views(v@),
            out@ == spans_markup(sv.take(i as int)),
        decreases v@.len() - i,
    {
        let span = &v[i];
        assert(sv.take(i + 1).drop_last() =~= sv.take(i as int));
        assert(sv[i as int] == (span.0, span.1@));
        let inner = markup_escape(span.1.as_str());
        match span.0.colour() {
            Some(colour) => {
                let piece = cat5(
                    "<span foreground=\"",
                    colour,
                    "\">",
                    inner.as_str(),
                    "</span>",
                );
                out.push_str(piece.as_str());
            },
            None => {
                out.push_str(inner.as_str());
            },
        }
        i += 1;
    }
    assert(sv.take(i as int) =~= sv);
    out
}

/// The lines of a document as markup.
pub open spec fn markup_lines(lang: Lang, ls: Seq<Seq<char>>) -> Seq<Seq<char>> {
    ls.map_values(|l: Seq<char>| line_text(lang, l))
}

/// A whole document as Pango markup.
pub fn markup(lang: Lang, document: &str) -> (r: String)
    ensures
        r@ == joined(markup_lines(lang, lines_of(document@)), "\n"@),
{
    let all = chars(document);
    let ls = lines(all.as_slice());
    let ghost lv = slice_views(ls@);
    let mut out: Vec<String> = Vec::new();
    let mut i: usize = 0;
    while i < ls.len()
        invariant
            i <= ls@.len(),
            lv == slice_views(ls@),
            out@.len() == i,
            forall|k: int| 0 <= k < i ==> (#[trigger] out@[k])@ == line_text(lang, lv[k]),
        decreases ls@.len() - i,
    {
        assert(lv[i as int] == ls@[i as int]@);
        let line = text(ls[i]);
        out.push(line_markup(lang, line.as_str()));
        i += 1;
    }
    assert(views(out@) =~= markup_lines(lang, lv));
    join(out.as_slice(), "\n")
}

/// One line of a diff pane: a changed line is bold behind a star.
pub open spec fn diff_line(lang: Lang, line: Seq<char>, changed: bool) -> Seq<char> {
    if changed {
        "<b>* "@ + line_text(lang, line) + "</b>"@
    } else {
        "  "@ + line_text(lang, line)
    }
}

/// One diff line: the mark, and the colours inside it, so a changed line stays
/// marked while it is highlighted. The star is bold and the colour spans sit
/// within the bold, which is the nesting Pango accepts.
pub fn diff_line_markup(lang: Lang, line: &str, changed: bool) -> (r: String)
    ensures
        r@ == diff_line(lang, line@, changed),
{
    let body = line_markup(lang, line);
    if changed {
        cat3("<b>* ", body.as_str(), "</b>")
    } else {
        crate::text::cat2("  ", body.as_str())
    }
}

/// The numbers of a gutter, right aligned to the widest.
pub open spec fn gutter_lines(n: nat) -> Seq<Seq<char>> {
    Seq::new(n, |i: int| padded_front(dec((i + 1) as nat), dec(n).len()))
}

/// The line number gutter, right aligned to the widest number. It lives in a
/// label of its own beside the code, so a selection never picks it up and the
/// copy button never sees it.
pub fn gutter(count: usize) -> (r: String)
    ensures
        r@ == joined(gutter_lines(count as nat), "\n"@),
{
    let mut out: Vec<String> = Vec::new();
    let width: usize = chars(decimal(count as u64).as_str()).len();
    let mut i: usize = 0;
    while i < count
        invariant
            i <= count,
            width == dec(count as nat).len(),
            out@.len() == i,
            forall|k: int|
                0 <= k < i ==> (#[trigger] out@[k])@ == padded_front(
                    dec((k + 1) as nat),
                    dec(count as nat).len(),
                ),
        decreases count - i,
    {
        out.push(pad_front(decimal(i as u64 + 1).as_str(), width));
        i += 1;
    }
    assert(views(out@) =~= gutter_lines(count as nat));
    join(out.as_slice(), "\n")
}

/// Escaped text holds none of the characters that markup uses itself, so it
/// neither opens nor closes a tag.
pub proof fn escaped_text_holds_no_tags(s: Seq<char>, i: int)
    requires
        0 <= i < escaped(s).len(),
    ensures
        escaped(s)[i] != '<',
        escaped(s)[i] != '>',
        escaped(s)[i] != '"',
        escaped(s)[i] != '\'',
    decreases s.len(),
{
    let front = escaped(s.drop_last());
    if i < front.len() {
        escaped_text_holds_no_tags(s.drop_last(), i);
        assert(escaped(s)[i] == front[i]);
    } else {
        let m = markup_char(s.last());
        assert(escaped(s)[i] == m[i - front.len()]);
        reveal_strlit("&amp;");
        reveal_strlit("&lt;");
        reveal_strlit("&gt;");
        reveal_strlit("&apos;");
        reveal_strlit("&quot;");
        reveal_strlit("&#x");
        reveal_strlit(";");
        let c = s.last();
        let k = i - front.len();
        if control(c as u32) && c != '&' && c != '<' && c != '>' && c != '\'' && c != '"' {
            let h = short_hex(c as u32);
            if k < 3 {
                assert(m[k] == "&#x"@[k]);
            } else if k < 3 + h.len() {
                assert(m[k] == h[k - 3]);
            } else {
                assert(m[k] == ";"@[0]);
            }
        }
    }
}

// ---- nothing is lost -----------------------------------------------------

/// Markup without its tags.
pub open spec fn untagged(s: Seq<char>, inside: bool) -> Seq<char>
    decreases s.len(),
{
    if s.len() == 0 {
        Seq::empty()
    } else if s[0] == '<' {
        untagged(s.skip(1), true)
    } else if s[0] == '>' {
        untagged(s.skip(1), false)
    } else if inside {
        untagged(s.skip(1), true)
    } else {
        seq![s[0]] + untagged(s.skip(1), false)
    }
}

/// Whether a text holds no angle bracket.
pub open spec fn bracketless(s: Seq<char>) -> bool {
    forall|i: int| 0 <= i < s.len() ==> #[trigger] s[i] != '<' && s[i] != '>'
}

proof fn text_stays(p: Seq<char>, r: Seq<char>)
    requires
        bracketless(p),
    ensures
        untagged(p + r, false) == p + untagged(r, false),
    decreases p.len(),
{
    if p.len() == 0 {
        assert(p + r =~= r);
        assert(p + untagged(r, false) =~= untagged(r, false));
    } else {
        assert((p + r).skip(1) =~= p.skip(1) + r);
        assert((p + r)[0] == p[0]);
        text_stays(p.skip(1), r);
        assert(seq![p[0]] + (p.skip(1) + untagged(r, false)) =~= p + untagged(r, false));
    }
}

proof fn inside_goes(p: Seq<char>, r: Seq<char>)
    requires
        bracketless(p),
    ensures
        untagged(p + r, true) == untagged(r, true),
    decreases p.len(),
{
    if p.len() == 0 {
        assert(p + r =~= r);
    } else {
        assert((p + r).skip(1) =~= p.skip(1) + r);
        assert((p + r)[0] == p[0]);
        inside_goes(p.skip(1), r);
    }
}

/// A tag goes, and what follows it stays.
proof fn tag_goes(inner: Seq<char>, r: Seq<char>)
    requires
        bracketless(inner),
    ensures
        untagged(seq!['<'] + inner + seq!['>'] + r, false) == untagged(r, false),
{
    let all = seq!['<'] + inner + seq!['>'] + r;
    let rest = seq!['>'] + r;
    assert(all.skip(1) =~= inner + rest);
    assert(all[0] == '<');
    inside_goes(inner, rest);
    assert(rest.skip(1) =~= r);
    assert(rest[0] == '>');
}

proof fn hue_is_bracketless(t: Token)
    requires
        t.hue() is Some,
    ensures
        bracketless(t.hue()->0),
{
    reveal_strlit("#6d777f");
    reveal_strlit("#2f7fbf");
    reveal_strlit("#2e8a4e");
    reveal_strlit("#a8780f");
    reveal_strlit("#8a5cd0");
    reveal_strlit("#7e878f");
}

proof fn escaped_is_bracketless(s: Seq<char>)
    ensures
        bracketless(escaped(s)),
{
    assert forall|i: int| 0 <= i < escaped(s).len() implies #[trigger] escaped(s)[i] != '<'
        && escaped(s)[i] != '>' by {
        escaped_text_holds_no_tags(s, i);
    }
}

proof fn span_untagged(t: Token, s: Seq<char>, r: Seq<char>)
    ensures
        untagged(span_markup(t, s) + r, false) == escaped(s) + untagged(r, false),
{
    escaped_is_bracketless(s);
    match t.hue() {
        None => {
            text_stays(escaped(s), r);
        },
        Some(colour) => {
            reveal_strlit("<span foreground=\"");
            reveal_strlit("\">");
            reveal_strlit("</span>");
            hue_is_bracketless(t);
            let open = "<span foreground=\""@;
            let shut = "\">"@;
            let close = "</span>"@;
            let attribute = open.skip(1) + colour + seq!['"'];
            let after = escaped(s) + (close + r);
            assert(bracketless(open.skip(1)));
            assert(bracketless(attribute)) by {
                assert forall|i: int| 0 <= i < attribute.len() implies #[trigger] attribute[i]
                    != '<' && attribute[i] != '>' by {
                    if i < open.len() - 1 {
                        assert(attribute[i] == open.skip(1)[i]);
                    } else if i < open.len() - 1 + colour.len() {
                        assert(attribute[i] == colour[i - (open.len() - 1)]);
                    }
                }
            }
            assert(span_markup(t, s) + r =~= seq!['<'] + attribute + seq!['>'] + after);
            tag_goes(attribute, after);
            text_stays(escaped(s), close + r);
            let name = close.subrange(1, 6);
            assert(close + r =~= seq!['<'] + name + seq!['>'] + r);
            assert(bracketless(name));
            tag_goes(name, r);
        },
    }
}

proof fn escaped_joins(a: Seq<char>, b: Seq<char>)
    ensures
        escaped(a + b) == escaped(a) + escaped(b),
    decreases b.len(),
{
    if b.len() == 0 {
        assert(a + b =~= a);
        assert(escaped(a) + escaped(b) =~= escaped(a));
    } else {
        escaped_joins(a, b.drop_last());
        assert((a + b).drop_last() =~= a + b.drop_last());
        assert((a + b).last() == b.last());
        assert(escaped(a + b) =~= escaped(a) + escaped(b));
    }
}

proof fn spans_untagged(v: Seq<(Token, Seq<char>)>, r: Seq<char>)
    ensures
        untagged(spans_markup(v) + r, false) == escaped(rebuilt(v)) + untagged(r, false),
    decreases v.len(),
{
    if v.len() == 0 {
        assert(spans_markup(v) + r =~= r);
        assert(escaped(rebuilt(v)) + untagged(r, false) =~= untagged(r, false));
    } else {
        let front = v.drop_last();
        let (t, s) = v.last();
        assert(spans_markup(v) + r =~= spans_markup(front) + (span_markup(t, s) + r));
        spans_untagged(front, span_markup(t, s) + r);
        span_untagged(t, s, r);
        escaped_joins(rebuilt(front), s);
        assert(escaped(rebuilt(front)) + (escaped(s) + untagged(r, false)) =~= escaped(rebuilt(v))
            + untagged(r, false));
    }
}

/// Without its tags a line's markup is the line, escaped: the colours add nothing
/// to the text and take nothing from it.
pub proof fn markup_keeps_the_line(lang: Lang, line: Seq<char>)
    ensures
        untagged(line_text(lang, line), false) == escaped(line),
{
    spans_rebuild_the_line(lang, line);
    spans_untagged(spans(lang, line), Seq::empty());
    assert(line_text(lang, line) + Seq::<char>::empty() =~= line_text(lang, line));
    assert(escaped(line) + untagged(Seq::empty(), false) =~= escaped(line));
}

/// Lines, escaped.
pub open spec fn escaped_lines(ls: Seq<Seq<char>>) -> Seq<Seq<char>> {
    ls.map_values(|l: Seq<char>| escaped(l))
}

proof fn lines_untagged(lang: Lang, ls: Seq<Seq<char>>, r: Seq<char>)
    ensures
        untagged(joined(markup_lines(lang, ls), "\n"@) + r, false) == joined(
            escaped_lines(ls),
            "\n"@,
        ) + untagged(r, false),
    decreases ls.len(),
{
    let m = markup_lines(lang, ls);
    let e = escaped_lines(ls);
    if ls.len() == 0 {
        assert(joined(m, "\n"@) + r =~= r);
        assert(joined(e, "\n"@) + untagged(r, false) =~= untagged(r, false));
    } else {
        let front = ls.drop_last();
        let last = ls.last();
        let tail = line_text(lang, last) + r;
        spans_rebuild_the_line(lang, last);
        spans_untagged(spans(lang, last), r);
        assert(untagged(tail, false) == escaped(last) + untagged(r, false));
        if ls.len() > 1 {
            reveal_strlit("\n");
            assert(bracketless("\n"@));
            assert(m.drop_last() =~= markup_lines(lang, front));
            assert(e.drop_last() =~= escaped_lines(front));
            let before_it = joined(markup_lines(lang, front), "\n"@);
            assert(joined(m, "\n"@) + r =~= before_it + ("\n"@ + tail));
            lines_untagged(lang, front, "\n"@ + tail);
            text_stays("\n"@, tail);
            assert(joined(escaped_lines(front), "\n"@) + ("\n"@ + (escaped(last) + untagged(
                r,
                false,
            ))) =~= joined(e, "\n"@) + untagged(r, false));
        }
    }
}

/// Without its tags a document's markup is its lines, escaped and joined by newlines:
/// the colours add nothing to the document and take nothing from it.
pub proof fn markup_keeps_the_document(lang: Lang, document: Seq<char>)
    ensures
        untagged(joined(markup_lines(lang, lines_of(document)), "\n"@), false) == joined(
            escaped_lines(lines_of(document)),
            "\n"@,
        ),
{
    let shown = joined(markup_lines(lang, lines_of(document)), "\n"@);
    let plain = joined(escaped_lines(lines_of(document)), "\n"@);
    let none = Seq::<char>::empty();
    lines_untagged(lang, lines_of(document), none);
    assert(shown + none =~= shown);
    assert(plain + untagged(none, false) =~= plain);
}

/// Whether a character is written as an entity.
pub open spec fn special(c: char) -> bool {
    c == '&' || c == '<' || c == '>' || c == '\'' || c == '"' || control(c as u32)
}

/// Two characters' markup differs at a position that both have.
pub open spec fn differ(a: Seq<char>, b: Seq<char>) -> bool {
    exists|k: int| 0 <= k < a.len() && k < b.len() && #[trigger] a[k] != b[k]
}

proof fn digits_differ(a: nat, b: nat)
    requires
        a < 16,
        b < 16,
        a != b,
    ensures
        digit_char(a) != digit_char(b),
{
    crate::number::digit_round_trip(a);
    crate::number::digit_round_trip(b);
}

/// A hexadecimal digit is no semicolon.
proof fn digit_is_no_semicolon(a: nat)
    requires
        a < 16,
    ensures
        digit_char(a) != ';',
{
}

proof fn numbers_differ(c: char, d: char)
    requires
        c != d,
        control(c as u32),
        control(d as u32),
        !(c == '&' || c == '<' || c == '>' || c == '\'' || c == '"'),
        !(d == '&' || d == '<' || d == '>' || d == '\'' || d == '"'),
    ensures
        differ(markup_char(c), markup_char(d)),
{
    reveal_strlit("&#x");
    reveal_strlit(";");
    let (u, v) = (c as u32, d as u32);
    let (a, b) = (markup_char(c), markup_char(d));
    assert(a == "&#x"@ + short_hex(u) + ";"@);
    assert(b == "&#x"@ + short_hex(v) + ";"@);
    assert(a[3] == short_hex(u)[0] && b[3] == short_hex(v)[0]);
    if u < 16 && v < 16 {
        digits_differ(u as nat, v as nat);
        assert(a[3] != b[3]);
    } else if u < 16 {
        digit_is_no_semicolon((v % 16) as nat);
        assert(a[4] == ';' && b[4] == short_hex(v)[1]);
        assert(a[4] != b[4]);
    } else if v < 16 {
        digit_is_no_semicolon((u % 16) as nat);
        assert(b[4] == ';' && a[4] == short_hex(u)[1]);
        assert(a[4] != b[4]);
    } else if u / 16 != v / 16 {
        digits_differ((u / 16) as nat, (v / 16) as nat);
        assert(a[3] != b[3]);
    } else {
        digits_differ((u % 16) as nat, (v % 16) as nat);
        assert(a[4] == short_hex(u)[1] && b[4] == short_hex(v)[1]);
        assert(a[4] != b[4]);
    }
}

/// No character's markup begins like another's.
proof fn characters_differ(c: char, d: char)
    requires
        c != d,
    ensures
        differ(markup_char(c), markup_char(d)),
{
    reveal_strlit("&amp;");
    reveal_strlit("&lt;");
    reveal_strlit("&gt;");
    reveal_strlit("&apos;");
    reveal_strlit("&quot;");
    reveal_strlit("&#x");
    reveal_strlit(";");
    let (a, b) = (markup_char(c), markup_char(d));
    if !special(c) || !special(d) {
        assert(a[0] != b[0]);
    } else {
        let named = |x: char| x == '&' || x == '<' || x == '>' || x == '\'' || x == '"';
        if !named(c) && !named(d) {
            numbers_differ(c, d);
        } else {
            if !named(c) {
                assert(a[1] == "&#x"@[1]);
            }
            if !named(d) {
                assert(b[1] == "&#x"@[1]);
            }
            if a[1] == b[1] {
                assert(a[2] != b[2]);
            }
        }
    }
}

proof fn escaped_from_the_front(s: Seq<char>)
    requires
        s.len() > 0,
    ensures
        escaped(s) == markup_char(s[0]) + escaped(s.skip(1)),
{
    let first = seq![s[0]];
    assert(s =~= first + s.skip(1));
    escaped_joins(first, s.skip(1));
    assert(first.drop_last() =~= Seq::<char>::empty());
    assert(escaped(first.drop_last()) =~= Seq::<char>::empty());
    assert(first.last() == s[0]);
    assert(escaped(first) =~= markup_char(s[0]));
}

proof fn markup_is_never_empty(c: char)
    ensures
        markup_char(c).len() > 0,
{
    reveal_strlit("&amp;");
    reveal_strlit("&lt;");
    reveal_strlit("&gt;");
    reveal_strlit("&apos;");
    reveal_strlit("&quot;");
    reveal_strlit("&#x");
}

/// Escaping loses nothing: texts with the same markup are the same text.
pub proof fn escaping_tells_texts_apart(a: Seq<char>, b: Seq<char>)
    requires
        escaped(a) == escaped(b),
    ensures
        a == b,
    decreases a.len(),
{
    if a.len() > 0 {
        escaped_from_the_front(a);
        markup_is_never_empty(a[0]);
        assert(escaped(a).len() == markup_char(a[0]).len() + escaped(a.skip(1)).len());
    } else {
        assert(escaped(a).len() == 0);
    }
    if b.len() > 0 {
        escaped_from_the_front(b);
        markup_is_never_empty(b[0]);
        assert(escaped(b).len() == markup_char(b[0]).len() + escaped(b.skip(1)).len());
    } else {
        assert(escaped(b).len() == 0);
    }
    if a.len() == 0 || b.len() == 0 {
        assert(a.len() == 0 && b.len() == 0);
        assert(a =~= b);
    } else {
        let (x, y) = (markup_char(a[0]), markup_char(b[0]));
        if a[0] != b[0] {
            characters_differ(a[0], b[0]);
            let k = choose|k: int| 0 <= k < x.len() && k < y.len() && #[trigger] x[k] != y[k];
            assert(escaped(a)[k] == x[k]);
            assert(escaped(b)[k] == y[k]);
        } else {
            assert(escaped(a).skip(x.len() as int) =~= escaped(a.skip(1)));
            assert(escaped(b).skip(x.len() as int) =~= escaped(b.skip(1)));
            escaping_tells_texts_apart(a.skip(1), b.skip(1));
            assert(a =~= seq![a[0]] + a.skip(1));
            assert(b =~= seq![b[0]] + b.skip(1));
        }
    }
}

/// The pane loses no character: lines with the same markup are the same line.
pub proof fn markup_tells_lines_apart(lang: Lang, a: Seq<char>, b: Seq<char>)
    requires
        line_text(lang, a) == line_text(lang, b),
    ensures
        a == b,
{
    markup_keeps_the_line(lang, a);
    markup_keeps_the_line(lang, b);
    escaping_tells_texts_apart(a, b);
}

// ---- what holds of single characters and spans ---------------------------

/// The characters that mean something in markup are written by their names, and what
/// cannot be shown by its number; every other character is itself.
pub proof fn a_character_is_written_so(c: char)
    ensures
        markup_char('&') == "&amp;"@ && markup_char('<') == "&lt;"@ && markup_char('>') == "&gt;"@,
        markup_char('"') == "&quot;"@ && markup_char('\'') == "&apos;"@,
        c != '&' && c != '<' && c != '>' && c != '"' && c != '\'' && (32 <= c as u32 <= 126 || c
            == '\t' || c == '\n' || c == '\r' || c as u32 >= 160) ==> markup_char(c) == seq![c],
        1 <= c as u32 <= 8 || 14 <= c as u32 <= 15 || 11 <= c as u32 <= 12 ==> markup_char(c)
            == "&#x"@ + seq![digit_char(c as nat)] + ";"@,
        16 <= c as u32 <= 31 || 127 <= c as u32 <= 132 || 134 <= c as u32 <= 159 ==> markup_char(c)
            == "&#x"@ + seq![digit_char(c as nat / 16), digit_char(c as nat % 16)] + ";"@,
{
    crate::order::code_fits(c);
}

/// A run takes every character of its class from the start, and ends where there is one
/// of another.
pub proof fn a_run_goes_as_far_as_its_class(s: Seq<char>, class: Class)
    ensures
        0 <= run_of(s, class) <= s.len(),
        forall|k: int| 0 <= k < run_of(s, class) ==> in_class(#[trigger] s[k], class),
        run_of(s, class) < s.len() ==> !in_class(s[run_of(s, class)], class),
    decreases s.len(),
{
    if s.len() > 0 && in_class(s[0], class) {
        let rest = s.skip(1);
        a_run_goes_as_far_as_its_class(rest, class);
        let n = run_of(s, class);
        assert forall|k: int| 0 <= k < n implies in_class(#[trigger] s[k], class) by {
            if k > 0 {
                assert(rest[k - 1] == s[k]);
            }
        }
        if n < s.len() {
            assert(rest[n - 1] == s[n]);
        }
    }
}

/// A quoted text ends behind the next quote that no backslash stands before, and at the
/// end of the line where there is none.
pub proof fn a_quoted_text_ends_at_its_quote(body: Seq<char>, rest: Seq<char>)
    requires
        forall|k: int| 0 <= k < body.len() ==> body[k] != '"' && body[k] != '\\',
    ensures
        quote_end(seq!['"'] + body + seq!['"'] + rest, 1, false) == body.len() + 2,
        quote_end(seq!['"'] + body, 1, false) == body.len() + 1,
        quote_end(seq!['"', '\\', '"'] + body + seq!['"'] + rest, 1, false) == body.len() + 4,
{
    let s = seq!['"'] + body + seq!['"'] + rest;
    assert forall|k: int| 1 <= k < 1 + body.len() implies s[k] != '"' && s[k] != '\\' by {
        assert(s[k] == body[k - 1]);
    }
    assert(s[1 + body.len() as int] == '"');
    quote_end_is(s, 1, 1 + body.len() as int);
    let t = seq!['"'] + body;
    assert forall|k: int| 1 <= k < t.len() implies t[k] != '"' && t[k] != '\\' by {
        assert(t[k] == body[k - 1]);
    }
    quote_end_is(t, 1, t.len() as int);
    let u = seq!['"', '\\', '"'] + body + seq!['"'] + rest;
    assert forall|k: int| 3 <= k < 3 + body.len() implies u[k] != '"' && u[k] != '\\' by {
        assert(u[k] == body[k - 3]);
    }
    assert(u[1] == '\\' && u[2] == '"' && u[3 + body.len() as int] == '"');
    quote_end_is(u, 3, 3 + body.len() as int);
    assert(quote_end(u, 1, false) == quote_end(u, 2, true));
    assert(quote_end(u, 2, true) == quote_end(u, 3, false));
}

proof fn quote_end_is(s: Seq<char>, i: int, at: int)
    requires
        0 <= i <= at <= s.len(),
        forall|k: int| i <= k < at ==> s[k] != '"' && s[k] != '\\',
        at < s.len() ==> s[at] == '"',
    ensures
        quote_end(s, i, false) == if at < s.len() {
            at + 1
        } else {
            at
        },
    decreases at - i,
{
    if i < at {
        quote_end_is(s, i + 1, at);
    }
}

/// What stands before the first equals sign is a key and what stands behind it a value,
/// as long as neither a quote nor a comment begins before it.
pub proof fn a_key_stands_before_its_value(lang: Lang, key: Seq<char>, value: Seq<char>)
    requires
        key.len() > 0,
        !crate::text::is_space(key[0]),
        forall|k: int| 0 <= k < key.len() ==> key[k] != '"' && key[k] != '#' && key[k] != '=',
    ensures
        spans(lang, key + seq!['='] + value) == scanned(key, true) + seq![(Token::Punct, seq!['='])]
            + scanned(value, false),
{
    let line = key + seq!['='] + value;
    let n = key.len() as int;
    assert(line[0] == key[0]);
    assert(trimmed_front(line) == line);
    assert(line.take(0) =~= Seq::<char>::empty());
    assert forall|k: int| 0 <= k < n implies line[k] != '"' && line[k] != '#' && line[k] != '=' by {
        assert(line[k] == key[k]);
    }
    assert(line[n] == '=');
    assert(line.take(n) =~= key);
    let (a, b) = crate::text::trimming_drops_the_white_ends(key);
    assert(a < b) by {
        if a == b {
            assert(crate::text::is_space(key[0]));
        }
    }
    assigns_at(line, 0, n);
    assert(line.subrange(n, n + 1) =~= seq!['=']);
    assert(line.skip(n + 1) =~= value);
    let none = Seq::<(Token, Seq<char>)>::empty();
    assert(none + scanned(key, true) =~= scanned(key, true));
}

proof fn assigns_at(s: Seq<char>, i: int, at: int)
    requires
        0 <= i <= at < s.len(),
        forall|k: int| i <= k < at ==> s[k] != '"' && s[k] != '#' && s[k] != '=',
        s[at] == '=',
        trimmed(s.take(at)).len() > 0,
    ensures
        assigns_from(s, i) == Some(at),
    decreases at - i,
{
    if i < at {
        assigns_at(s, i + 1, at);
    }
}

/// What a span is, by its first character.
pub proof fn a_span_is_told_by_its_first_character(s: Seq<char>, keys: bool)
    requires
        s.len() > 0,
    ensures
        s[0] == '#' ==> first_span(s, keys) == (Token::Comment, s.len() as int),
        s[0] == '"' ==> first_span(s, keys).0 is Str,
        s[0] == '[' || s[0] == ']' || s[0] == '{' || s[0] == '}' || s[0] == ',' || s[0] == ';' || s[0]
            == '=' ==> first_span(s, keys) == (Token::Punct, 1int),
        48 <= s[0] as u32 <= 57 ==> first_span(s, keys).0 is Number,
        s[0] == '-' && s.len() > 1 && 48 <= s[1] as u32 <= 57 ==> first_span(s, keys).0 is Number,
        s[0] == ' ' || s[0] == '\t' ==> first_span(s, keys).0 is Plain,
        s[0] == '_' && keys ==> first_span(s, keys).0 is Key,
{
}

/// A line number is right aligned to the widest: all are as wide as the last.
pub proof fn line_numbers_are_aligned(n: nat, i: int)
    requires
        0 <= i < n,
    ensures
        gutter_lines(n).len() == n,
        gutter_lines(n)[i] == padded_front(dec((i + 1) as nat), dec(n).len()),
{
}

/// A changed line is bold behind a star, and any other stands two spaces in.
pub proof fn a_changed_line_is_starred(lang: Lang, line: Seq<char>)
    ensures
        diff_line(lang, line, true) == "<b>* "@ + line_text(lang, line) + "</b>"@,
        diff_line(lang, line, false) == "  "@ + line_text(lang, line),
{
}

/// A word of a value is a truth value exactly where it is `true` or `false`; where names
/// stand, every word is a key.
pub proof fn a_word_is_a_truth_value_or_a_key(s: Seq<char>)
    requires
        s.len() > 0,
        alphabetic(s[0]),
        s[0] != ' ' && s[0] != '\t' && s[0] != '#' && s[0] != '"' && s[0] != '-',
        !punctuation(s[0]),
        !(48 <= s[0] as u32 <= 57),
    ensures
        first_span(s, true).0 is Key,
        first_span(s, false).0 is Bool <==> s.take(run_of(s, Class::Word)) == "true"@ || s.take(
            run_of(s, Class::Word),
        ) == "false"@,
        first_span(s, false).1 == run_of(s, Class::Word),
{
}

} // verus!
