//! What the rows of the flag and argument lists say: a flag's state marker,
//! a value or the hint shown in its place, and an argument's label.

use vstd::prelude::*;

use crate::flag_panel::{decimal_len, indicator_width};
use crate::spec_model::FlagSpec;
use crate::text::{push_all, string_from_chars, string_of, string_push, views};
use crate::values::{ArgValue, FlagValue};

verus! {

/// The digit for `d` (below ten).
pub open spec fn digit_char(d: nat) -> char {
    if d == 0 { '0' }
    else if d == 1 { '1' }
    else if d == 2 { '2' }
    else if d == 3 { '3' }
    else if d == 4 { '4' }
    else if d == 5 { '5' }
    else if d == 6 { '6' }
    else if d == 7 { '7' }
    else if d == 8 { '8' }
    else { '9' }
}

/// The decimal digits of `n`, most significant first.
pub open spec fn decimal_text(n: nat) -> Seq<char>
    decreases n,
{
    if n < 10 {
        seq![digit_char(n)]
    } else {
        decimal_text(n / 10).push(digit_char(n % 10))
    }
}

/// A number takes as many characters as it has digits.
pub proof fn lemma_decimal_text_len(n: nat)
    ensures
        decimal_text(n).len() == decimal_len(n),
    decreases n,
{
    if n >= 10 {
        lemma_decimal_text_len(n / 10);
    }
}

fn digit(d: u32) -> (r: char)
    requires
        d < 10,
    ensures
        r == digit_char(d as nat),
{
    if d == 0 { '0' }
    else if d == 1 { '1' }
    else if d == 2 { '2' }
    else if d == 3 { '3' }
    else if d == 4 { '4' }
    else if d == 5 { '5' }
    else if d == 6 { '6' }
    else if d == 7 { '7' }
    else if d == 8 { '8' }
    else { '9' }
}

/// `n` written in decimal.
pub fn decimal_string(n: u32) -> (r: String)
    ensures
        r@ == decimal_text(n as nat),
{
    let mut m = n;
    let mut tail: Vec<char> = Vec::new();
    while m >= 10
        invariant
            decimal_text(n as nat) == decimal_text(m as nat) + tail@,
        decreases m,
    {
        let d = digit(m % 10);
        let ghost before = tail@;
        tail.insert(0, d);
        assert(decimal_text(m as nat) == decimal_text((m / 10) as nat).push(d));
        assert(decimal_text((m / 10) as nat).push(d) + before =~= decimal_text((m / 10) as nat) + tail@);
        m = m / 10;
    }
    let ghost before = tail@;
    tail.insert(0, digit(m));
    assert(tail@ =~= decimal_text(m as nat) + before);
    string_from_chars(&tail)
}

/// Joins words with "|" between them.
pub open spec fn join_bar(ws: Seq<Seq<char>>) -> Seq<char>
    decreases ws.len(),
{
    if ws.len() == 0 {
        Seq::empty()
    } else if ws.len() == 1 {
        ws[0]
    } else {
        join_bar(ws.drop_last()) + seq!['|'] + ws.last()
    }
}

/// The strings joined with "|" between them.
pub fn join_with_bars(parts: &Vec<String>) -> (r: String)
    ensures
        r@ == join_bar(views(parts@)),
{
    let mut r = String::new();
    let mut i: usize = 0;
    while i < parts.len()
        invariant
            i <= parts@.len(),
            r@ == join_bar(views(parts@.subrange(0, i as int))),
        decreases parts@.len() - i,
    {
        let ghost before = views(parts@.subrange(0, i as int));
        assert(views(parts@.subrange(0, i + 1)) =~= before.push(parts@[i as int]@));
        assert(views(parts@.subrange(0, i + 1)).drop_last() =~= before);
        if i > 0 {
            string_push(&mut r, '|');
        } else {
            assert(before.push(parts@[i as int]@) =~= seq![parts@[i as int]@]);
        }
        push_all(&mut r, parts[i].as_str());
        i = i + 1;
    }
    assert(parts@.subrange(0, parts@.len() as int) =~= parts@);
    r
}

/// How a flag's marker is coloured: set, explicitly negated, a count above
/// zero, a zero count, a filled string value, an empty one, or off.
#[derive(Debug, Clone, Copy, PartialEq, Eq, Structural)]
pub enum MarkerKind {
    On,
    Negated,
    Count,
    ZeroCount,
    Filled,
    Empty,
    Off,
}

/// A flag's marker: a check for a set boolean or negatable flag, a cross for
/// a negated one, "[n]" for a count, a filled or hollow dot in brackets for
/// a string value, a circle otherwise; each followed by a space.
pub open spec fn marker_spec(v: Option<FlagValue>) -> (Seq<char>, MarkerKind) {
    match v {
        Some(FlagValue::Bool(true)) | Some(FlagValue::NegBool(Some(true))) => ("✓ "@, MarkerKind::On),
        Some(FlagValue::NegBool(Some(false))) => ("✗ "@, MarkerKind::Negated),
        Some(FlagValue::Count(n)) => if n > 0 {
            (seq!['['] + decimal_text(n as nat) + seq![']', ' '], MarkerKind::Count)
        } else {
            ("[0] "@, MarkerKind::ZeroCount)
        },
        Some(FlagValue::String(s)) => if s@.len() == 0 {
            ("[·] "@, MarkerKind::Empty)
        } else {
            ("[•] "@, MarkerKind::Filled)
        },
        _ => ("○ "@, MarkerKind::Off),
    }
}

/// The value a flag has, if any.
pub open spec fn deref_value(value: Option<&FlagValue>) -> Option<FlagValue> {
    match value {
        Some(v) => Some(*v),
        None => None,
    }
}

/// A flag's marker (see `marker_spec`).
pub fn flag_marker(value: Option<&FlagValue>) -> (r: (String, MarkerKind))
    ensures
        (r.0@, r.1) == marker_spec(deref_value(value)),
{
    match value {
        Some(FlagValue::Bool(true)) | Some(FlagValue::NegBool(Some(true))) => (string_of("✓ "), MarkerKind::On),
        Some(FlagValue::NegBool(Some(false))) => (string_of("✗ "), MarkerKind::Negated),
        Some(FlagValue::Count(n)) => {
            if *n > 0 {
                let mut r = String::new();
                string_push(&mut r, '[');
                let digits = decimal_string(*n);
                push_all(&mut r, digits.as_str());
                string_push(&mut r, ']');
                string_push(&mut r, ' ');
                assert(r@ =~= seq!['['] + decimal_text(*n as nat) + seq![']', ' ']);
                (r, MarkerKind::Count)
            } else {
                (string_of("[0] "), MarkerKind::ZeroCount)
            }
        },
        Some(FlagValue::String(s)) => {
            if s.unicode_len() == 0 {
                (string_of("[·] "), MarkerKind::Empty)
            } else {
                (string_of("[•] "), MarkerKind::Filled)
            }
        },
        _ => (string_of("○ "), MarkerKind::Off),
    }
}

/// A flag's marker takes exactly the columns the value column allows for it.
pub proof fn lemma_marker_width(v: Option<FlagValue>)
    ensures
        marker_spec(v).0.len() == indicator_width(v),
{
    reveal_strlit("✓ ");
    reveal_strlit("✗ ");
    reveal_strlit("[0] ");
    reveal_strlit("[·] ");
    reveal_strlit("[•] ");
    reveal_strlit("○ ");
    match v {
        Some(FlagValue::Count(n)) => {
            lemma_decimal_text_len(n as nat);
        },
        _ => {},
    }
}

/// How a value slot is coloured: the choices it offers, a placeholder, or a
/// value.
#[derive(Debug, Clone, Copy, PartialEq, Eq, Structural)]
pub enum SlotKind {
    Choices,
    Placeholder,
    Value,
}

/// What a string flag's value slot shows when it is not being edited: the
/// value; for an empty one, its choices as "<a|b>" or its argument's name as
/// "<name>", or nothing for a flag that takes no value.
pub open spec fn flag_slot_spec(flag: FlagSpec, value: Seq<char>) -> Option<(Seq<char>, SlotKind)> {
    if value.len() > 0 {
        Some((value, SlotKind::Value))
    } else {
        match flag.arg {
            Some(a) => match a.choices {
                Some(cs) => Some((seq!['<'] + join_bar(views(cs@)) + seq!['>'], SlotKind::Choices)),
                None => Some((seq!['<'] + a.name@ + seq!['>'], SlotKind::Placeholder)),
            },
            None => None,
        }
    }
}

/// A string flag's value slot (see `flag_slot_spec`).
pub fn flag_slot(flag: &FlagSpec, value: &str) -> (r: Option<(String, SlotKind)>)
    ensures
        match r {
            Some((t, k)) => flag_slot_spec(*flag, value@) == Some((t@, k)),
            None => flag_slot_spec(*flag, value@) is None,
        },
{
    if value.unicode_len() > 0 {
        return Some((string_of(value), SlotKind::Value));
    }
    match &flag.arg {
        Some(a) => match &a.choices {
            Some(cs) => {
                let mut r = String::new();
                string_push(&mut r, '<');
                let joined = join_with_bars(cs);
                push_all(&mut r, joined.as_str());
                string_push(&mut r, '>');
                assert(r@ =~= seq!['<'] + join_bar(views(cs@)) + seq!['>']);
                Some((r, SlotKind::Choices))
            },
            None => {
                let mut r = String::new();
                string_push(&mut r, '<');
                push_all(&mut r, a.name.as_str());
                string_push(&mut r, '>');
                assert(r@ =~= seq!['<'] + a.name@ + seq!['>']);
                Some((r, SlotKind::Placeholder))
            },
        },
        None => None,
    }
}

/// Whether a filled string flag shows "(default)": its value is its first
/// default.
pub fn shows_default_mark(flag: &FlagSpec, value: &str) -> (r: bool)
    ensures
        r == (value@.len() > 0 && flag.default@.len() > 0 && flag.default@[0]@ == value@),
{
    value.unicode_len() > 0 && flag.default.len() > 0 && crate::text::str_eq(flag.default[0].as_str(), value)
}

/// An argument's label: "<name>" when it is required, "[name]" otherwise.
pub open spec fn arg_label_spec(a: ArgValue) -> Seq<char> {
    if a.required {
        seq!['<'] + a.name@ + seq!['>']
    } else {
        seq!['['] + a.name@ + seq![']']
    }
}

/// An argument's label (see `arg_label_spec`).
pub fn arg_label(a: &ArgValue) -> (r: String)
    ensures
        r@ == arg_label_spec(*a),
{
    let mut r = String::new();
    string_push(&mut r, if a.required { '<' } else { '[' });
    push_all(&mut r, a.name.as_str());
    string_push(&mut r, if a.required { '>' } else { ']' });
    assert(r@ =~= arg_label_spec(*a));
    r
}

/// What an argument's value slot shows when it is not being edited: the
/// value; for an empty one, its choices as "<a|b>" or "(empty)".
pub open spec fn arg_slot_spec(a: ArgValue) -> (Seq<char>, SlotKind) {
    if a.value@.len() > 0 {
        (a.value@, SlotKind::Value)
    } else if a.choices@.len() > 0 {
        (seq!['<'] + join_bar(views(a.choices@)) + seq!['>'], SlotKind::Choices)
    } else {
        ("(empty)"@, SlotKind::Placeholder)
    }
}

/// An argument's value slot (see `arg_slot_spec`).
pub fn arg_slot(a: &ArgValue) -> (r: (String, SlotKind))
    ensures
        (r.0@, r.1) == arg_slot_spec(*a),
{
    if a.value.unicode_len() > 0 {
        (string_of(a.value.as_str()), SlotKind::Value)
    } else if a.choices.len() > 0 {
        let mut r = String::new();
        string_push(&mut r, '<');
        let joined = join_with_bars(&a.choices);
        push_all(&mut r, joined.as_str());
        string_push(&mut r, '>');
        assert(r@ =~= seq!['<'] + join_bar(views(a.choices@)) + seq!['>']);
        (r, SlotKind::Choices)
    } else {
        (string_of("(empty)"), SlotKind::Placeholder)
    }
}

/// The choices shown after a filled argument's value, as " [a|b]"; none for
/// an argument without choices or without a value.
pub fn arg_choices_hint(a: &ArgValue) -> (r: Option<String>)
    ensures
        a.choices@.len() > 0 && a.value@.len() > 0 ==> (r matches Some(t) && t@ == seq![' ', '[']
            + join_bar(views(a.choices@)) + seq![']']),
        !(a.choices@.len() > 0 && a.value@.len() > 0) ==> r is None,
{
    if a.choices.len() > 0 && a.value.unicode_len() > 0 {
        let mut r = String::new();
        string_push(&mut r, ' ');
        string_push(&mut r, '[');
        let joined = join_with_bars(&a.choices);
        push_all(&mut r, joined.as_str());
        string_push(&mut r, ']');
        assert(r@ =~= seq![' ', '['] + join_bar(views(a.choices@)) + seq![']']);
        Some(r)
    } else {
        None
    }
}


// ── Row decorations ─────────────────────────────────────────────────

/// The cursor column of a list row: an arrow on the selected row, blanks
/// on the others.
pub open spec fn cursor_spec(selected: bool) -> Seq<char> {
    if selected {
        "▶ "@
    } else {
        "  "@
    }
}

/// The cursor column of a list row (see `cursor_spec`).
pub fn row_cursor(selected: bool) -> (r: String)
    ensures
        r@ == cursor_spec(selected),
{
    if selected {
        string_of("▶ ")
    } else {
        string_of("  ")
    }
}

/// The prompt before the command preview: an arrow when the preview is
/// focused (Enter runs the command), a dollar sign otherwise.
pub open spec fn prompt_spec(focused: bool) -> Seq<char> {
    if focused {
        "▶ "@
    } else {
        "$ "@
    }
}

/// The prompt before the command preview (see `prompt_spec`).
pub fn preview_prompt(focused: bool) -> (r: String)
    ensures
        r@ == prompt_spec(focused),
{
    if focused {
        string_of("▶ ")
    } else {
        string_of("$ ")
    }
}

/// The fixed texts a list row or list shows besides names and values.
#[derive(Debug, Clone, Copy, PartialEq, Eq, Structural)]
pub enum Decoration {
    /// After the name of a global flag.
    GlobalMark,
    /// After the name of a required flag.
    RequiredMark,
    /// Between a negatable flag's name and its negation.
    NegationSeparator,
    /// Between a name and its value.
    ValueSeparator,
    /// In place of the rows when a filter matches none.
    NoMatches,
}

/// The text of a decoration.
pub open spec fn decoration_spec(d: Decoration) -> Seq<char> {
    match d {
        Decoration::GlobalMark => " [G]"@,
        Decoration::RequiredMark => " *"@,
        Decoration::NegationSeparator => " / "@,
        Decoration::ValueSeparator => " = "@,
        Decoration::NoMatches => "(no matches)"@,
    }
}

/// The text of a decoration (see `decoration_spec`).
pub fn decoration(d: Decoration) -> (r: String)
    ensures
        r@ == decoration_spec(d),
{
    match d {
        Decoration::GlobalMark => string_of(" [G]"),
        Decoration::RequiredMark => string_of(" *"),
        Decoration::NegationSeparator => string_of(" / "),
        Decoration::ValueSeparator => string_of(" = "),
        Decoration::NoMatches => string_of("(no matches)"),
    }
}

} // verus!
