//! The flag panel: the filterable list of a command's flags, what Space,
//! Backspace and Enter on a flag ask the parent to do, and where the value
//! column and the negation names sit for mouse hits.

use vstd::prelude::*;

use crate::component::{Component, Filterable};
use crate::events::{EventResult, KeyCode, KeyPress, MouseInput, MouseKind};
use crate::geometry::Rect;
use crate::list_panel::{
    choice_key_outcome, edit_key_effect, list_mouse_effect, ChoiceEvent, EditEvent, FocusLostEvent,
    ListPanelBase, MouseResult,
};
use crate::matching::FilterableItem;
use crate::spec_model::FlagSpec;
use crate::text::{push_all, string_of, string_push, views};
use crate::values::{copy_opt_string, copy_strings, opt_chars, FlagValue};

verus! {

/// Actions that the flag panel can emit to its parent.
#[derive(Debug, Clone, PartialEq, Eq)]
pub enum FlagPanelAction {
    /// Toggle a Bool/NegBool/Count flag at the given index (Space or Enter on non-string).
    ToggleFlag(usize),
    /// Enter pressed on the selected flag row.
    EnterRequest(FlagPanelEnterRequest),
    /// Backspace pressed: clear/decrement flag at the given index.
    ClearFlag(usize),
    /// Mouse click on negate region: target state for the NegBool flag at the given index.
    NegBoolClick(usize, Option<bool>),
    /// Choice select confirmed: apply the selected value to the flag at the given index.
    ChoiceSelected { index: usize, value: String },
    /// Choice select cancelled: keep the typed text as the flag value.
    ChoiceCancelled { index: usize, value: String },
    /// Inline edit value changed (live sync to flag_values).
    ValueChanged { index: usize, value: String },
    /// Inline edit finished (Enter/Esc committed the value).
    EditFinished { index: usize, value: String },
}

/// Panel-owned interpretation of Enter on a flag row.
#[derive(Debug, Clone, PartialEq, Eq)]
pub enum FlagPanelEnterRequest {
    Toggle,
    ChoiceSelect { index: usize, choices: Vec<String>, current_value: String, value_column: u16 },
    EditOrComplete {
        index: usize,
        arg_name: Option<String>,
        current_value: String,
        value_column: u16,
    },
}

// ── Display strings and columns ─────────────────────────────────────

/// The short names as "-s" and the long names as "--long".
pub open spec fn flag_switches(f: FlagSpec) -> Seq<Seq<char>> {
    f.short@.map_values(|c: char| seq!['-', c]) + f.long@.map_values(
        |l: String| seq!['-', '-'] + l@,
    )
}

/// Joins words with ", " between them.
pub open spec fn join_comma(ws: Seq<Seq<char>>) -> Seq<char>
    decreases ws.len(),
{
    if ws.len() == 0 {
        Seq::empty()
    } else if ws.len() == 1 {
        ws[0]
    } else {
        join_comma(ws.drop_last()) + seq![',', ' '] + ws.last()
    }
}

/// The flag display string (e.g. "-v, --verbose"), or the flag's name when
/// it has neither short nor long names.
pub open spec fn flag_display_spec(f: FlagSpec) -> Seq<char> {
    if flag_switches(f).len() == 0 {
        f.name@
    } else {
        join_comma(flag_switches(f))
    }
}

fn switches_of(flag: &FlagSpec) -> (r: Vec<String>)
    ensures
        views(r@) == flag_switches(*flag),
{
    let mut parts: Vec<String> = Vec::new();
    let mut i: usize = 0;
    while i < flag.short.len()
        invariant
            i <= flag.short@.len(),
            views(parts@) == flag.short@.subrange(0, i as int).map_values(|c: char| seq!['-', c]),
        decreases flag.short@.len() - i,
    {
        let mut p = String::new();
        string_push(&mut p, '-');
        string_push(&mut p, flag.short[i]);
        assert(p@ =~= seq!['-', flag.short@[i as int]]);
        let ghost before = parts@;
        parts.push(p);
        assert(views(parts@) =~= views(before).push(seq!['-', flag.short@[i as int]]));
        assert(flag.short@.subrange(0, i + 1).map_values(|c: char| seq!['-', c])
            =~= flag.short@.subrange(0, i as int).map_values(|c: char| seq!['-', c]).push(
            seq!['-', flag.short@[i as int]],
        ));
        i = i + 1;
    }
    assert(flag.short@.subrange(0, flag.short@.len() as int) =~= flag.short@);
    let ghost shorts = views(parts@);
    let mut j: usize = 0;
    while j < flag.long.len()
        invariant
            j <= flag.long@.len(),
            views(parts@) == shorts + flag.long@.subrange(0, j as int).map_values(
                |l: String| seq!['-', '-'] + l@,
            ),
        decreases flag.long@.len() - j,
    {
        let mut p = String::new();
        string_push(&mut p, '-');
        string_push(&mut p, '-');
        push_all(&mut p, flag.long[j].as_str());
        assert(p@ =~= seq!['-', '-'] + flag.long@[j as int]@);
        let ghost before = parts@;
        parts.push(p);
        assert(views(parts@) =~= views(before).push(seq!['-', '-'] + flag.long@[j as int]@));
        assert(flag.long@.subrange(0, j + 1).map_values(|l: String| seq!['-', '-'] + l@)
            =~= flag.long@.subrange(0, j as int).map_values(|l: String| seq!['-', '-'] + l@).push(
            seq!['-', '-'] + flag.long@[j as int]@,
        ));
        j = j + 1;
    }
    assert(flag.long@.subrange(0, flag.long@.len() as int) =~= flag.long@);
    parts
}

/// Build the flag display string (e.g. "-v, --verbose").
pub fn flag_display_string(flag: &FlagSpec) -> (r: String)
    ensures
        r@ == flag_display_spec(*flag),
{
    let parts = switches_of(flag);
    if parts.len() == 0 {
        return string_of(flag.name.as_str());
    }
    let mut r = String::new();
    let mut i: usize = 0;
    while i < parts.len()
        invariant
            i <= parts@.len(),
            r@ == join_comma(views(parts@.subrange(0, i as int))),
        decreases parts@.len() - i,
    {
        let ghost before = views(parts@.subrange(0, i as int));
        assert(views(parts@.subrange(0, i + 1)) =~= before.push(parts@[i as int]@));
        assert(views(parts@.subrange(0, i + 1)).drop_last() =~= before);
        if i > 0 {
            string_push(&mut r, ',');
            string_push(&mut r, ' ');
        } else {
            assert(before.push(parts@[i as int]@) =~= seq![parts@[i as int]@]);
        }
        push_all(&mut r, parts[i].as_str());
        i = i + 1;
    }
    assert(parts@.subrange(0, parts@.len() as int) =~= parts@);
    r
}

/// The number of decimal digits of `n`.
pub open spec fn decimal_len(n: nat) -> nat
    decreases n,
{
    if n < 10 {
        1
    } else {
        1 + decimal_len(n / 10)
    }
}

fn decimal_digits(n: u32) -> (r: usize)
    ensures
        r == decimal_len(n as nat),
        r <= 10,
{
    proof {
        assert(pow10(10) == 10000000000) by {
            reveal_with_fuel(pow10, 11);
        }
        lemma_decimal_len_bound(n as nat, 10);
    }
    let mut m = n;
    let mut d: usize = 1;
    while m >= 10
        invariant
            1 <= d,
            d + decimal_len(m as nat) == 1 + decimal_len(n as nat),
            decimal_len(n as nat) <= 10,
        decreases m,
    {
        m = m / 10;
        d = d + 1;
    }
    d
}

/// Ten to the power `k`.
pub open spec fn pow10(k: nat) -> nat
    decreases k,
{
    if k == 0 {
        1
    } else {
        10 * pow10((k - 1) as nat)
    }
}

proof fn lemma_decimal_len_bound(n: nat, k: nat)
    requires
        n < pow10(k),
        k >= 1,
    ensures
        decimal_len(n) <= k,
    decreases k,
{
    if n >= 10 {
        assert(k > 1) by {
            if k == 1 {
                assert(pow10(1) == 10 * pow10(0));
            }
        }
        let p = pow10((k - 1) as nat);
        assert(n < 10 * p);
        assert(n / 10 < p) by (nonlinear_arith)
            requires
                n < 10 * p,
        ;
        lemma_decimal_len_bound(n / 10, (k - 1) as nat);
    }
}

/// The width of a flag's indicator: "[n] " for a count, four for a string
/// value's marker, two otherwise.
pub open spec fn indicator_width(v: Option<FlagValue>) -> nat {
    match v {
        Some(FlagValue::Count(n)) => decimal_len(n as nat) + 3,
        Some(FlagValue::String(_)) => 4,
        _ => 2,
    }
}

/// Where a flag's value starts, counted from the panel's left edge: border,
/// cursor, indicator, display string, " [G]" for a global flag, " *" for a
/// required one, and " = "; kept to 16 bits as the terminal grid is.
pub open spec fn value_column_spec(f: FlagSpec, v: Option<FlagValue>) -> u16 {
    ((1 + 2 + indicator_width(v) + flag_display_spec(f).len() + (if f.global {
        4nat
    } else {
        0nat
    }) + (if f.required {
        2nat
    } else {
        0nat
    }) + 3) % 65536) as u16
}

/// The column of a flag's value.
pub fn value_column_for_flag(flag: &FlagSpec, value: Option<&FlagValue>) -> (r: u16)
    ensures
        r == value_column_spec(
            *flag,
            match value {
                Some(v) => Some(*v),
                None => None,
            },
        ),
{
    let indicator: usize = match value {
        Some(FlagValue::Count(n)) => decimal_digits(*n) + 3,
        Some(FlagValue::String(_)) => 4,
        _ => 2,
    };
    let display = flag_display_string(flag);
    let len = display.unicode_len();
    let mut extra: usize = 0;
    if flag.global {
        extra = extra + 4;
    }
    if flag.required {
        extra = extra + 2;
    }
    let small = 1 + 2 + indicator + extra + 3;
    let total = (small + len % 65536) % 65536;
    proof {
        vstd::arithmetic::div_mod::lemma_add_mod_noop(small as int, len as int, 65536);
        assert(small < 65536);
        assert((small as int) % 65536 == small);
    }
    total as u16
}

/// The column where a negatable flag's negation name starts, for a panel
/// whose left edge is at `area_x`: border, cursor, indicator, the display
/// string's bytes, " [G]", " *", and " / "; wrapping at 16 bits.
pub open spec fn negate_col_spec(f: FlagSpec, area_x: u16) -> u16 {
    ((area_x + 1 + 2 + 2 + (vstd::utf8::encode_utf8(flag_display_spec(f)).len() as usize) + (if f.global {
        4nat
    } else {
        0nat
    }) + (if f.required {
        2nat
    } else {
        0nat
    }) + 3) % 65536) as u16
}

/// The negation columns of the negatable flags among `flags`, in order.
pub open spec fn negate_cols_spec(flags: Seq<FlagSpec>, area_x: u16) -> Seq<(usize, u16)>
    decreases flags.len(),
{
    if flags.len() == 0 {
        Seq::empty()
    } else {
        let rest = negate_cols_spec(flags.drop_last(), area_x);
        if flags.last().negate is Some {
            rest.push(((flags.len() - 1) as usize, negate_col_spec(flags.last(), area_x)))
        } else {
            rest
        }
    }
}

#[verifier::rlimit(30)]
fn negate_col(flag: &FlagSpec, area_x: u16) -> (r: u16)
    ensures
        r == negate_col_spec(*flag, area_x),
{
    let display = flag_display_string(flag);
    let bytes = display.as_str().len();
    let mut extra: usize = 0;
    if flag.global {
        extra = extra + 4;
    }
    if flag.required {
        extra = extra + 2;
    }
    let small = area_x as usize + 1 + 2 + 2 + extra + 3;
    let total = (small + bytes % 65536) % 65536;
    proof {
        vstd::arithmetic::div_mod::lemma_add_mod_noop(small as int, bytes as int, 65536);
        assert(bytes == (vstd::utf8::encode_utf8(display@).len() as usize));
    }
    total as u16
}

/// Compute the negate column of each negatable flag, for mouse hit-testing.
pub fn negate_columns(flags: &Vec<&FlagSpec>, area_x: u16) -> (r: Vec<(usize, u16)>)
    ensures
        r@ == negate_cols_spec(flag_seq(flags@), area_x),
{
    let mut out: Vec<(usize, u16)> = Vec::new();
    let mut i: usize = 0;
    while i < flags.len()
        invariant
            i <= flags@.len(),
            out@ == negate_cols_spec(flag_seq(flags@).subrange(0, i as int), area_x),
        decreases flags@.len() - i,
    {
        let ghost sub = flag_seq(flags@).subrange(0, i + 1);
        assert(sub.drop_last() =~= flag_seq(flags@).subrange(0, i as int));
        assert(sub.last() == *flags@[i as int]);
        let flag: &FlagSpec = flags[i];
        if flag.negate.is_some() {
            let col = negate_col(flag, area_x);
            out.push((i, col));
        }
        i = i + 1;
    }
    assert(flag_seq(flags@).subrange(0, flags@.len() as int) =~= flag_seq(flags@));
    out
}

/// The flags behind a list of references.
pub open spec fn flag_seq(v: Seq<&FlagSpec>) -> Seq<FlagSpec> {
    v.map_values(|f: &FlagSpec| *f)
}

// ── Filter items and Enter requests ─────────────────────────────────

/// The texts a flag is found by: its name, its long names with "--" and its
/// short names with "-".
pub open spec fn flag_name_texts(f: FlagSpec) -> Seq<Seq<char>> {
    seq![f.name@] + f.long@.map_values(|l: String| seq!['-', '-'] + l@) + f.short@.map_values(
        |c: char| seq!['-', c],
    )
}

/// Whether `item` is the filter item of flag `f`.
pub open spec fn is_flag_item(item: FilterableItem, f: FlagSpec) -> bool {
    &&& item.key@ == f.name@
    &&& views(item.name_texts@) == flag_name_texts(f)
    &&& (item.help is Some <==> f.help is Some)
    &&& opt_chars(item.help) == opt_chars(f.help)
}

fn flag_item(f: &FlagSpec) -> (r: FilterableItem)
    ensures
        is_flag_item(r, *f),
{
    let mut name_texts: Vec<String> = Vec::new();
    name_texts.push(string_of(f.name.as_str()));
    let mut j: usize = 0;
    while j < f.long.len()
        invariant
            j <= f.long@.len(),
            views(name_texts@) == seq![f.name@] + f.long@.subrange(0, j as int).map_values(
                |l: String| seq!['-', '-'] + l@,
            ),
        decreases f.long@.len() - j,
    {
        let mut p = String::new();
        string_push(&mut p, '-');
        string_push(&mut p, '-');
        push_all(&mut p, f.long[j].as_str());
        assert(p@ =~= seq!['-', '-'] + f.long@[j as int]@);
        let ghost before = name_texts@;
        name_texts.push(p);
        assert(views(name_texts@) =~= views(before).push(seq!['-', '-'] + f.long@[j as int]@));
        assert(f.long@.subrange(0, j + 1).map_values(|l: String| seq!['-', '-'] + l@)
            =~= f.long@.subrange(0, j as int).map_values(|l: String| seq!['-', '-'] + l@).push(
            seq!['-', '-'] + f.long@[j as int]@,
        ));
        j = j + 1;
    }
    assert(f.long@.subrange(0, f.long@.len() as int) =~= f.long@);
    let ghost head = views(name_texts@);
    let mut i: usize = 0;
    while i < f.short.len()
        invariant
            i <= f.short@.len(),
            views(name_texts@) == head + f.short@.subrange(0, i as int).map_values(
                |c: char| seq!['-', c],
            ),
        decreases f.short@.len() - i,
    {
        let mut p = String::new();
        string_push(&mut p, '-');
        string_push(&mut p, f.short[i]);
        assert(p@ =~= seq!['-', f.short@[i as int]]);
        let ghost before = name_texts@;
        name_texts.push(p);
        assert(views(name_texts@) =~= views(before).push(seq!['-', f.short@[i as int]]));
        assert(f.short@.subrange(0, i + 1).map_values(|c: char| seq!['-', c])
            =~= f.short@.subrange(0, i as int).map_values(|c: char| seq!['-', c]).push(
            seq!['-', f.short@[i as int]],
        ));
        i = i + 1;
    }
    assert(f.short@.subrange(0, f.short@.len() as int) =~= f.short@);
    FilterableItem { key: string_of(f.name.as_str()), name_texts, help: copy_opt_string(&f.help) }
}

/// The value recorded for the flag named `name`: the first entry with that name.
pub open spec fn flag_value_named(values: Seq<(String, FlagValue)>, name: Seq<char>) -> Option<FlagValue>
    decreases values.len(),
{
    if values.len() == 0 {
        None
    } else {
        match flag_value_named(values.drop_last(), name) {
            Some(v) => Some(v),
            None => if values.last().0@ == name {
                Some(values.last().1)
            } else {
                None
            },
        }
    }
}

fn find_flag_value<'a>(values: &'a Vec<(String, FlagValue)>, name: &str) -> (r: Option<&'a FlagValue>)
    ensures
        match r {
            Some(v) => flag_value_named(values@, name@) == Some(*v),
            None => flag_value_named(values@, name@) is None,
        },
{
    let mut i: usize = 0;
    while i < values.len()
        invariant
            i <= values@.len(),
            flag_value_named(values@.subrange(0, i as int), name@) is None,
        decreases values@.len() - i,
    {
        let ghost sub = values@.subrange(0, i + 1);
        assert(sub.drop_last() =~= values@.subrange(0, i as int));
        if crate::text::str_eq(values[i].0.as_str(), name) {
            proof {
                assert(flag_value_named(sub, name@) == Some(values@[i as int].1));
                lemma_flag_value_prefix(values@, i as int + 1, name@);
            }
            return Some(&values[i].1);
        }
        i = i + 1;
    }
    assert(values@.subrange(0, values@.len() as int) =~= values@);
    None
}

proof fn lemma_flag_value_prefix(values: Seq<(String, FlagValue)>, n: int, name: Seq<char>)
    requires
        0 <= n <= values.len(),
        flag_value_named(values.subrange(0, n), name) is Some,
    ensures
        flag_value_named(values, name) == flag_value_named(values.subrange(0, n), name),
    decreases values.len() - n,
{
    if n < values.len() {
        assert(values.subrange(0, n + 1).drop_last() =~= values.subrange(0, n));
        lemma_flag_value_prefix(values, n + 1, name);
    } else {
        assert(values.subrange(0, n) =~= values);
    }
}

/// Whether `r` is what Enter asks for on flag `index`: nothing past the list
/// or without a value; a toggle for a non-string value; for a string value,
/// the choice box when the flag's argument has choices, else editing (or
/// completion) of the value, each with the current value and its column.
pub open spec fn is_flag_enter(
    r: Option<FlagPanelEnterRequest>,
    index: int,
    flags: Seq<FlagSpec>,
    values: Seq<(String, FlagValue)>,
) -> bool {
    if index < 0 || index >= flags.len() {
        r is None
    } else {
        let f = flags[index];
        match flag_value_named(values, f.name@) {
            None => r is None,
            Some(FlagValue::String(cv)) => match f.arg {
                Some(a) => match a.choices {
                    Some(cs) => r matches Some(FlagPanelEnterRequest::ChoiceSelect { index: i, choices, current_value, value_column })
                        && i == index && views(choices@) == views(cs@) && current_value@ == cv@
                        && value_column == value_column_spec(f, Some(FlagValue::String(cv))),
                    None => r matches Some(FlagPanelEnterRequest::EditOrComplete { index: i, arg_name, current_value, value_column })
                        && i == index && arg_name is Some && opt_chars(arg_name) == a.name@
                        && current_value@ == cv@ && value_column == value_column_spec(
                        f,
                        Some(FlagValue::String(cv)),
                    ),
                },
                None => r matches Some(FlagPanelEnterRequest::EditOrComplete { index: i, arg_name, current_value, value_column })
                    && i == index && arg_name is None && current_value@ == cv@ && value_column
                    == value_column_spec(f, Some(FlagValue::String(cv))),
            },
            Some(_) => r == Some(FlagPanelEnterRequest::Toggle),
        }
    }
}

/// Whether two Enter requests ask for the same thing (strings compared by
/// their characters).
pub open spec fn same_request(a: FlagPanelEnterRequest, b: FlagPanelEnterRequest) -> bool {
    match (a, b) {
        (FlagPanelEnterRequest::Toggle, FlagPanelEnterRequest::Toggle) => true,
        (
            FlagPanelEnterRequest::ChoiceSelect { index: i1, choices: c1, current_value: v1, value_column: k1 },
            FlagPanelEnterRequest::ChoiceSelect { index: i2, choices: c2, current_value: v2, value_column: k2 },
        ) => i1 == i2 && views(c1@) == views(c2@) && v1@ == v2@ && k1 == k2,
        (
            FlagPanelEnterRequest::EditOrComplete { index: i1, arg_name: n1, current_value: v1, value_column: k1 },
            FlagPanelEnterRequest::EditOrComplete { index: i2, arg_name: n2, current_value: v2, value_column: k2 },
        ) => i1 == i2 && (n1 is Some <==> n2 is Some) && opt_chars(n1) == opt_chars(n2) && v1@
            == v2@ && k1 == k2,
        _ => false,
    }
}

fn copy_request(q: &FlagPanelEnterRequest) -> (r: FlagPanelEnterRequest)
    ensures
        same_request(r, *q),
{
    match q {
        FlagPanelEnterRequest::Toggle => FlagPanelEnterRequest::Toggle,
        FlagPanelEnterRequest::ChoiceSelect { index, choices, current_value, value_column } => {
            let cs = copy_strings(choices);
            assert(views(cs@) =~= views(choices@));
            FlagPanelEnterRequest::ChoiceSelect {
                index: *index,
                choices: cs,
                current_value: string_of(current_value.as_str()),
                value_column: *value_column,
            }
        },
        FlagPanelEnterRequest::EditOrComplete { index, arg_name, current_value, value_column } => {
            FlagPanelEnterRequest::EditOrComplete {
                index: *index,
                arg_name: copy_opt_string(arg_name),
                current_value: string_of(current_value.as_str()),
                value_column: *value_column,
            }
        },
    }
}

/// What Enter asks for on flag `index`.
pub fn build_enter_request(index: usize, flags: &Vec<&FlagSpec>, flag_values: &Vec<(String, FlagValue)>) -> (r:
    Option<FlagPanelEnterRequest>)
    ensures
        is_flag_enter(r, index as int, flag_seq(flags@), flag_values@),
{
    if index >= flags.len() {
        return None;
    }
    let flag: &FlagSpec = flags[index];
    let value = match find_flag_value(flag_values, flag.name.as_str()) {
        Some(v) => v,
        None => return None,
    };
    let current_value = match value {
        FlagValue::String(s) => string_of(s.as_str()),
        _ => return Some(FlagPanelEnterRequest::Toggle),
    };
    let value_column = value_column_for_flag(flag, Some(value));
    match &flag.arg {
        Some(arg) => match &arg.choices {
            Some(choices) => {
                let cs = copy_strings(choices);
                assert(views(cs@) =~= views(choices@));
                Some(FlagPanelEnterRequest::ChoiceSelect { index, choices: cs, current_value, value_column })
            },
            None => Some(
                FlagPanelEnterRequest::EditOrComplete {
                    index,
                    arg_name: Some(string_of(arg.name.as_str())),
                    current_value,
                    value_column,
                },
            ),
        },
        None => Some(
            FlagPanelEnterRequest::EditOrComplete { index, arg_name: None, current_value, value_column },
        ),
    }
}

/// Whether `reqs` lists, in order, the Enter requests of the first `n` flags
/// that have one.
pub open spec fn lists_enter_requests(
    reqs: Seq<FlagPanelEnterRequest>,
    flags: Seq<FlagSpec>,
    values: Seq<(String, FlagValue)>,
    n: int,
) -> bool
    decreases n,
{
    if n <= 0 {
        reqs.len() == 0
    } else if flag_value_named(values, flags[n - 1].name@) is None {
        lists_enter_requests(reqs, flags, values, n - 1)
    } else {
        reqs.len() > 0 && lists_enter_requests(reqs.drop_last(), flags, values, n - 1)
            && is_flag_enter(Some(reqs.last()), n - 1, flags, values)
    }
}

// ── The panel ───────────────────────────────────────────────────────

/// A flag list panel that owns its navigation state and handles events.
/// Flag values live with the parent; the panel emits actions for it to apply.
#[derive(Debug)]
pub struct FlagPanelComponent {
    pub base: ListPanelBase,
    /// Column start positions of negate strings, by flag index (for mouse clicks).
    pub negate_cols: Vec<(usize, u16)>,
    pub enter_requests: Vec<FlagPanelEnterRequest>,
}

/// The negate column recorded for flag `index`: the first entry for it.
pub open spec fn negate_col_of(cols: Seq<(usize, u16)>, index: usize) -> Option<u16>
    decreases cols.len(),
{
    if cols.len() == 0 {
        None
    } else {
        match negate_col_of(cols.drop_last(), index) {
            Some(c) => Some(c),
            None => if cols.last().0 == index {
                Some(cols.last().1)
            } else {
                None
            },
        }
    }
}

/// What the panel reports for Enter (or an activating click) on flag `index`.
pub open spec fn enter_result(p: FlagPanelComponent, index: usize, r: EventResult<FlagPanelAction>) -> bool {
    if index < p.enter_requests@.len() {
        r matches EventResult::Action(FlagPanelAction::EnterRequest(q)) && same_request(
            q,
            p.enter_requests@[index as int],
        )
    } else {
        r is Consumed
    }
}

/// A choice event as the panel's result.
pub open spec fn choice_mapped(ev: ChoiceEvent, r: EventResult<FlagPanelAction>) -> bool {
    match ev {
        ChoiceEvent::Selected { index, value } => r matches EventResult::Action(FlagPanelAction::ChoiceSelected { index: i, value: v })
            && i == index && v@ == value@,
        ChoiceEvent::Cancelled { index, value } => r matches EventResult::Action(FlagPanelAction::ChoiceCancelled { index: i, value: v })
            && i == index && v@ == value@,
        ChoiceEvent::Consumed => r is Consumed,
    }
}

/// A choice-box click result as the panel's result.
pub open spec fn click_mapped(m: MouseResult, r: EventResult<FlagPanelAction>) -> bool {
    match m {
        MouseResult::ChoiceClicked(ev) => choice_mapped(ev, r),
        MouseResult::NotHandled => r is NotHandled,
        _ => r is Consumed,
    }
}

/// An edit event as the panel's result.
pub open spec fn edit_mapped(ev: EditEvent, r: EventResult<FlagPanelAction>) -> bool {
    match ev {
        EditEvent::ValueChanged { index, value } => r matches EventResult::Action(FlagPanelAction::ValueChanged { index: i, value: v })
            && i == index && v@ == value@,
        EditEvent::EditFinished { index, value } => r matches EventResult::Action(FlagPanelAction::EditFinished { index: i, value: v })
            && i == index && v@ == value@,
        EditEvent::Consumed => r is Consumed,
    }
}

/// The action for a click on a negatable flag's row at column `col`: its
/// icon cycles it like Enter, its negation name sets it off, its name sets
/// it on.
pub open spec fn negate_click(p: FlagPanelComponent, index: usize, nc: u16, col: u16, area: Rect, r: EventResult<FlagPanelAction>) -> bool {
    if col < area.x + 5 {
        enter_result(p, index, r)
    } else if col >= nc {
        r == EventResult::Action(FlagPanelAction::NegBoolClick(index, Some(false)))
    } else {
        r == EventResult::Action(FlagPanelAction::NegBoolClick(index, Some(true)))
    }
}

impl FlagPanelComponent {
    /// An empty flag panel.
    pub fn new() -> (r: FlagPanelComponent)
        ensures
            r.base.is_fresh(),
            r.negate_cols@.len() == 0,
            r.enter_requests@.len() == 0,
    {
        FlagPanelComponent { base: ListPanelBase::new(), negate_cols: Vec::new(), enter_requests: Vec::new() }
    }

    /// The selected index.
    pub fn selected_index(&self) -> (r: usize)
        ensures
            r == self.base.list_state.selected_index,
    {
        self.base.selected_index()
    }

    /// Set whether the panel has focus.
    pub fn set_focused(&mut self, focused: bool)
        ensures
            *final(self) == (FlagPanelComponent {
                base: ListPanelBase { focused, ..old(self).base },
                ..*old(self)
            }),
    {
        self.base.set_focused(focused);
    }

    /// Set the hovered index.
    pub fn set_hovered_index(&mut self, idx: Option<usize>)
        ensures
            *final(self) == (FlagPanelComponent {
                base: ListPanelBase { hovered_index: idx, ..old(self).base },
                ..*old(self)
            }),
    {
        self.base.set_hovered_index(idx);
    }

    /// Set the mouse position.
    pub fn set_mouse_position(&mut self, pos: Option<(u16, u16)>)
        ensures
            *final(self) == (FlagPanelComponent {
                base: ListPanelBase { mouse_position: pos, ..old(self).base },
                ..*old(self)
            }),
    {
        self.base.set_mouse_position(pos);
    }

    /// Change the item count.
    pub fn set_total(&mut self, total: usize)
        ensures
            final(self).base.list_state.total_items == total,
            final(self).base.list_state.selected_index == if old(self).base.list_state.selected_index
                >= total && total > 0 {
                (total - 1) as usize
            } else {
                old(self).base.list_state.selected_index
            },
            *final(self) == (FlagPanelComponent { base: final(self).base, ..*old(self) }),
            final(self).base == (ListPanelBase { list_state: final(self).base.list_state, ..old(self).base }),
            final(self).base.list_state.scroll == old(self).base.list_state.scroll,
    {
        self.base.set_total(total);
    }

    /// Select `index` when it is in the list.
    pub fn select(&mut self, index: usize)
        ensures
            old(self).base.selects(final(self).base, crate::list_panel::selected_after(old(self).base.list_state, index as int)),
            *final(self) == (FlagPanelComponent { base: final(self).base, ..*old(self) }),
    {
        self.base.select(index);
    }

    /// Scroll so that the selection is visible.
    pub fn ensure_visible(&mut self, viewport_height: usize)
        ensures
            final(self).base.list_state.scroll == crate::list_state::scrolled_to_show(
                old(self).base.list_state.selected_index,
                old(self).base.list_state.scroll,
                viewport_height,
            ),
            final(self).base == (ListPanelBase { list_state: final(self).base.list_state, ..old(self).base }),
            final(self).base.list_state.selected_index == old(self).base.list_state.selected_index,
            final(self).base.list_state.total_items == old(self).base.list_state.total_items,
            *final(self) == (FlagPanelComponent { base: final(self).base, ..*old(self) }),
    {
        self.base.ensure_visible(viewport_height);
    }

    /// Cache the filter items of the flags.
    pub fn set_filterable_items_from_flags(&mut self, flags: &Vec<&FlagSpec>)
        ensures
            final(self).base.filterable_items@.len() == flags@.len(),
            forall|i: int| 0 <= i < flags@.len() ==> is_flag_item(#[trigger] final(self).base.filterable_items@[i], *flags@[i]),
            views(final(self).base.item_keys@) == flag_seq(flags@).map_values(|f: FlagSpec| f.name@),
            final(self).base == (ListPanelBase {
                item_keys: final(self).base.item_keys,
                filterable_items: final(self).base.filterable_items,
                ..old(self).base
            }),
            *final(self) == (FlagPanelComponent { base: final(self).base, ..*old(self) }),
    {
        let mut items: Vec<FilterableItem> = Vec::new();
        let mut i: usize = 0;
        while i < flags.len()
            invariant
                i <= flags@.len(),
                items@.len() == i,
                forall|k: int| 0 <= k < i ==> is_flag_item(#[trigger] items@[k], *flags@[k]),
            decreases flags@.len() - i,
        {
            items.push(flag_item(flags[i]));
            i = i + 1;
        }
        let ghost its = items@;
        self.base.set_filterable_items(items);
        assert(its.map_values(|it: FilterableItem| it.key@) =~= flag_seq(flags@).map_values(|f: FlagSpec| f.name@));
    }

    /// Record the Enter request of each flag that has one.
    pub fn set_enter_requests_from_flags(&mut self, flags: &Vec<&FlagSpec>, flag_values: &Vec<(String, FlagValue)>)
        ensures
            lists_enter_requests(final(self).enter_requests@, flag_seq(flags@), flag_values@, flags@.len() as int),
            *final(self) == (FlagPanelComponent { enter_requests: final(self).enter_requests, ..*old(self) }),
    {
        let mut reqs: Vec<FlagPanelEnterRequest> = Vec::new();
        let mut i: usize = 0;
        while i < flags.len()
            invariant
                i <= flags@.len(),
                lists_enter_requests(reqs@, flag_seq(flags@), flag_values@, i as int),
            decreases flags@.len() - i,
        {
            let q = build_enter_request(i, flags, flag_values);
            match q {
                Some(q) => {
                    let ghost before = reqs@;
                    reqs.push(q);
                    assert(reqs@.drop_last() =~= before);
                },
                None => {},
            }
            i = i + 1;
        }
        self.enter_requests = reqs;
    }

    /// Record where the negation names sit in a panel at `area_x`.
    pub fn set_negate_cols(&mut self, flags: &Vec<&FlagSpec>, area_x: u16)
        ensures
            final(self).negate_cols@ == negate_cols_spec(flag_seq(flags@), area_x),
            *final(self) == (FlagPanelComponent { negate_cols: final(self).negate_cols, ..*old(self) }),
    {
        self.negate_cols = negate_columns(flags, area_x);
    }

    /// Move selection up.
    pub fn move_up(&mut self)
        ensures
            old(self).base.selects(final(self).base, old(self).base.up_selection()),
            *final(self) == (FlagPanelComponent { base: final(self).base, ..*old(self) }),
    {
        self.base.move_up();
    }

    /// Set the scroll offset directly.
    pub fn set_scroll(&mut self, scroll: usize)
        ensures
            final(self).base.list_state.scroll == scroll as u16,
            final(self).base == (ListPanelBase { list_state: final(self).base.list_state, ..old(self).base }),
            final(self).base.list_state.selected_index == old(self).base.list_state.selected_index,
            final(self).base.list_state.total_items == old(self).base.list_state.total_items,
            *final(self) == (FlagPanelComponent { base: final(self).base, ..*old(self) }),
    {
        self.base.set_scroll(scroll);
    }

    /// Whether the choice box is open.
    pub fn is_choosing(&self) -> (r: bool)
        ensures
            r == self.base.choice_select.state is Some,
    {
        self.base.is_choosing()
    }

    /// The flag whose choice box is open.
    pub fn choice_select_index(&self) -> (r: Option<usize>)
        ensures
            r == self.base.choice_select_index,
    {
        self.base.choice_select_index()
    }

    /// Set the mouse position over the choice box.
    pub fn set_choice_select_mouse_position(&mut self, pos: Option<(u16, u16)>)
        ensures
            final(self).base.choice_select.mouse_position == pos,
            final(self).base.choice_select.state == old(self).base.choice_select.state,
            final(self).base == (ListPanelBase { choice_select: final(self).base.choice_select, ..old(self).base }),
            *final(self) == (FlagPanelComponent { base: final(self).base, ..*old(self) }),
    {
        self.base.set_choice_select_mouse_position(pos);
    }

    /// A click while the choice box is open.
    pub fn handle_choice_click(&mut self, col: u16, row: u16, overlay_rect: Option<Rect>) -> (r:
        EventResult<FlagPanelAction>)
        requires
            old(self).base.wf(),
            overlay_rect matches Some(rect) ==> rect.wf(),
        ensures
            final(self).base.wf(),
            final(self).negate_cols == old(self).negate_cols,
            final(self).enter_requests == old(self).enter_requests,
            exists|m: MouseResult|
                #[trigger] click_mapped(m, r) && crate::list_panel::choice_click_effect(
                    old(self).base,
                    col,
                    row,
                    overlay_rect,
                    final(self).base,
                    m,
                ),
    {
        let m = self.base.handle_choice_click(col, row, overlay_rect);
        let ghost gm = m;
        let r = match m {
            MouseResult::ChoiceClicked(ChoiceEvent::Selected { index, value }) => EventResult::Action(
                FlagPanelAction::ChoiceSelected { index, value },
            ),
            MouseResult::ChoiceClicked(ChoiceEvent::Cancelled { index, value }) => EventResult::Action(
                FlagPanelAction::ChoiceCancelled { index, value },
            ),
            MouseResult::NotHandled => EventResult::NotHandled,
            _ => EventResult::Consumed,
        };
        assert(click_mapped(gm, r));
        r
    }

    /// Open the choice box under flag `index`.
    pub fn open_choice_select(&mut self, index: usize, choices: Vec<String>, current_value: &str, value_column: u16)
        requires
            old(self).base.wf(),
        ensures
            final(self).base.wf(),
            final(self).base.choice_select_index == Some(index),
            final(self).base.value_column == value_column,
            final(self).base.choice_select.state matches Some(s) && s.choices@ == choices@
                && s.edit_input.chars@ == current_value@ && s.selected_index
                == crate::choice_select::first_choice_index(choices@, current_value@),
            final(self).base.editing == old(self).base.editing,
            final(self).base.list_state == old(self).base.list_state,
            final(self).negate_cols == old(self).negate_cols,
            final(self).enter_requests == old(self).enter_requests,
    {
        self.base.open_choice_select(index, choices, current_value, value_column);
    }

    /// Open the completion box under flag `index`, editing the current value.
    pub fn open_completion_select(
        &mut self,
        index: usize,
        choices: Vec<String>,
        descriptions: Vec<Option<String>>,
        current_value: &str,
        value_column: u16,
    )
        requires
            old(self).base.wf(),
        ensures
            final(self).base.wf(),
            final(self).base.choice_select_index == Some(index),
            final(self).base.value_column == value_column,
            final(self).base.editing,
            final(self).base.edit_input.chars@ == current_value@,
            final(self).base.choice_select.state matches Some(s) && s.choices@ == choices@
                && s.descriptions@ == descriptions@ && s.edit_input.chars@ == current_value@,
            final(self).base.list_state == old(self).base.list_state,
            final(self).negate_cols == old(self).negate_cols,
            final(self).enter_requests == old(self).enter_requests,
    {
        self.base.open_completion_select(index, choices, descriptions, current_value, value_column);
    }

    /// Anchor an open choice box under its item's value in a panel drawn in `area`.
    pub fn anchor_choice_select(&mut self, area: Rect)
        requires
            old(self).base.wf(),
        ensures
            final(self).base.wf(),
            match (old(self).base.choice_select.state, old(self).base.choice_select_index) {
                (Some(s), Some(i)) => final(self).base == (ListPanelBase {
                    choice_select: crate::choice_select::ChoiceSelectComponent {
                        state: Some(
                            crate::choice_select::ChoiceSelectInner {
                                anchor: crate::list_panel::choice_anchor(
                                    area,
                                    i,
                                    old(self).base.list_state.scroll,
                                    old(self).base.value_column,
                                ),
                                ..s
                            },
                        ),
                        ..old(self).base.choice_select
                    },
                    ..old(self).base
                }),
                _ => final(self).base == old(self).base,
            },
            *final(self) == (FlagPanelComponent { base: final(self).base, ..*old(self) }),
    {
        self.base.anchor_choice_select(area);
    }

    /// Whether a value is being edited inline.
    pub fn is_editing(&self) -> (r: bool)
        ensures
            r == self.base.editing,
    {
        self.base.is_editing()
    }

    /// Start editing `text`.
    pub fn start_editing(&mut self, text: &str)
        ensures
            final(self).base.editing,
            final(self).base.edit_input.chars@ == text@,
            final(self).base.edit_input.cursor == text@.len(),
            final(self).base.edit_input.wf(),
            final(self).base == (ListPanelBase { editing: true, edit_input: final(self).base.edit_input, ..old(self).base }),
            *final(self) == (FlagPanelComponent { base: final(self).base, ..*old(self) }),
    {
        self.base.start_editing(text);
    }

    /// Finish editing; the edited text.
    pub fn finish_editing(&mut self) -> (r: String)
        ensures
            r@ == old(self).base.edit_input.chars@,
            *final(self) == (FlagPanelComponent {
                base: ListPanelBase { editing: false, ..old(self).base },
                ..*old(self)
            }),
    {
        self.base.finish_editing()
    }

    /// The text being edited (empty when not editing).
    pub fn editing_text(&self) -> (r: String)
        ensures
            self.base.editing ==> r@ == self.base.edit_input.chars@,
            !self.base.editing ==> r@.len() == 0,
    {
        self.base.editing_text()
    }

    /// The Enter request recorded for flag `index`.
    fn enter_action_for_index(&self, index: usize) -> (r: EventResult<FlagPanelAction>)
        ensures
            enter_result(*self, index, r),
    {
        if index < self.enter_requests.len() {
            EventResult::Action(FlagPanelAction::EnterRequest(copy_request(&self.enter_requests[index])))
        } else {
            EventResult::Consumed
        }
    }

    /// The negate column recorded for flag `index`.
    fn negate_col_for(&self, index: usize) -> (r: Option<u16>)
        ensures
            r == negate_col_of(self.negate_cols@, index),
    {
        let mut i: usize = 0;
        while i < self.negate_cols.len()
            invariant
                i <= self.negate_cols@.len(),
                negate_col_of(self.negate_cols@.subrange(0, i as int), index) is None,
            decreases self.negate_cols@.len() - i,
        {
            let ghost sub = self.negate_cols@.subrange(0, i + 1);
            assert(sub.drop_last() =~= self.negate_cols@.subrange(0, i as int));
            if self.negate_cols[i].0 == index {
                proof {
                    assert(negate_col_of(sub, index) == Some(self.negate_cols@[i as int].1));
                    lemma_negate_col_prefix(self.negate_cols@, i as int + 1, index);
                }
                return Some(self.negate_cols[i].1);
            }
            i = i + 1;
        }
        assert(self.negate_cols@.subrange(0, self.negate_cols@.len() as int) =~= self.negate_cols@);
        None
    }

    /// The action for a click on flag `index` at column `col`.
    fn click_action(&self, index: usize, col: u16, area: Rect, activate: bool) -> (r: EventResult<FlagPanelAction>)
        ensures
            match negate_col_of(self.negate_cols@, index) {
                Some(nc) => negate_click(*self, index, nc, col, area, r),
                None => if activate {
                    enter_result(*self, index, r)
                } else {
                    r is Consumed
                },
            },
    {
        match self.negate_col_for(index) {
            Some(nc) => {
                if (col as u32) < (area.x as u32) + 5 {
                    self.enter_action_for_index(index)
                } else if col >= nc {
                    EventResult::Action(FlagPanelAction::NegBoolClick(index, Some(false)))
                } else {
                    EventResult::Action(FlagPanelAction::NegBoolClick(index, Some(true)))
                }
            },
            None => if activate {
                self.enter_action_for_index(index)
            } else {
                EventResult::Consumed
            },
        }
    }
}

proof fn lemma_negate_col_prefix(cols: Seq<(usize, u16)>, n: int, index: usize)
    requires
        0 <= n <= cols.len(),
        negate_col_of(cols.subrange(0, n), index) is Some,
    ensures
        negate_col_of(cols, index) == negate_col_of(cols.subrange(0, n), index),
    decreases cols.len() - n,
{
    if n < cols.len() {
        assert(cols.subrange(0, n + 1).drop_last() =~= cols.subrange(0, n));
        lemma_negate_col_prefix(cols, n + 1, index);
    } else {
        assert(cols.subrange(0, n) =~= cols);
    }
}

/// What a key does to the flag panel.
pub open spec fn flag_key_effect(p: FlagPanelComponent, key: KeyPress, n: FlagPanelComponent, r: EventResult<FlagPanelAction>) -> bool {
    &&& n.negate_cols == p.negate_cols
    &&& n.enter_requests == p.enter_requests
    &&& if p.base.choice_select.state is Some {
        exists|ev: ChoiceEvent|
            choice_key_outcome(p.base, p.base.choice_select.state->0, key.code, n.base, Some(ev))
                && choice_mapped(ev, r)
    } else if p.base.editing {
        exists|ev: EditEvent| edit_key_effect(p.base, key.code, n.base, ev) && edit_mapped(ev, r)
    } else {
        match key.code {
            KeyCode::Up | KeyCode::Char('k') => p.base.selects(n.base, p.base.up_selection()) && r is Consumed,
            KeyCode::Down | KeyCode::Char('j') => p.base.selects(n.base, p.base.down_selection()) && r is Consumed,
            KeyCode::Char(' ') => n.base == p.base && r == EventResult::Action(
                FlagPanelAction::ToggleFlag(p.base.list_state.selected_index),
            ),
            KeyCode::Backspace => n.base == p.base && r == EventResult::Action(
                FlagPanelAction::ClearFlag(p.base.list_state.selected_index),
            ),
            KeyCode::Enter => n.base == p.base && enter_result(p, p.base.list_state.selected_index, r),
            _ => n.base == p.base && r is NotHandled,
        }
    }
}

/// What a mouse event does to the flag panel.
pub open spec fn flag_mouse_effect(p: FlagPanelComponent, event: MouseInput, area: Rect, n: FlagPanelComponent, r: EventResult<FlagPanelAction>) -> bool {
    &&& n.negate_cols == p.negate_cols
    &&& n.enter_requests == p.enter_requests
    &&& exists|m: MouseResult|
        list_mouse_effect(p.base, event, area, n.base, m) && match m {
            MouseResult::ChoiceClicked(ev) => choice_mapped(ev, r),
            MouseResult::Consumed => r is Consumed,
            MouseResult::ClickActivate(index) => match negate_col_of(p.negate_cols@, index) {
                Some(nc) => negate_click(p, index, nc, event.column, area, r),
                None => enter_result(p, index, r),
            },
            MouseResult::ItemSelected(index) => match negate_col_of(p.negate_cols@, index) {
                Some(nc) => negate_click(p, index, nc, event.column, area, r),
                None => r is Consumed,
            },
            MouseResult::NotHandled => if event.kind is ScrollUp || event.kind is ScrollDown {
                r is Consumed
            } else {
                r is NotHandled
            },
        }
}

impl Component for FlagPanelComponent {
    type Action = FlagPanelAction;

    open spec fn inv(self) -> bool {
        self.base.wf()
    }

    open spec fn focus_gained_effect(self, new: Self, r: EventResult<FlagPanelAction>) -> bool {
        r is NotHandled && new == (FlagPanelComponent { base: ListPanelBase { focused: true, ..self.base }, ..self })
    }

    open spec fn focus_lost_effect(self, new: Self, r: EventResult<FlagPanelAction>) -> bool {
        &&& new.negate_cols == self.negate_cols
        &&& new.enter_requests == self.enter_requests
        &&& !new.base.focused
        &&& new.base.choice_select.state is None
        &&& !new.base.editing
        &&& new.base.list_state == self.base.list_state
        &&& new.base.filter_text == self.base.filter_text
        &&& (self.base.choice_select.state is Some && self.base.editing ==> (r matches EventResult::Action(FlagPanelAction::EditFinished { index, value })
            && index == (match self.base.choice_select_index {
            Some(i) => i,
            None => self.base.list_state.selected_index,
        }) && value@ == self.base.choice_select.typed_spec()))
        &&& (self.base.choice_select.state is Some && !self.base.editing ==> r is Consumed)
        &&& (self.base.choice_select.state is None && self.base.editing ==> (r matches EventResult::Action(FlagPanelAction::EditFinished { index, value })
            && index == self.base.list_state.selected_index && value@ == self.base.edit_input.chars@))
        &&& (self.base.choice_select.state is None && !self.base.editing ==> r is NotHandled
            && new.base == (ListPanelBase { focused: false, ..self.base }))
    }

    open spec fn key_effect(self, key: KeyPress, new: Self, r: EventResult<FlagPanelAction>) -> bool {
        flag_key_effect(self, key, new, r)
    }

    open spec fn mouse_effect(self, event: MouseInput, area: Rect, new: Self, r: EventResult<FlagPanelAction>) -> bool {
        flag_mouse_effect(self, event, area, new, r)
    }

    fn handle_focus_gained(&mut self) -> (r: EventResult<FlagPanelAction>) {
        self.base.handle_focus_gained();
        EventResult::NotHandled
    }

    fn handle_focus_lost(&mut self) -> (r: EventResult<FlagPanelAction>) {
        match self.base.handle_focus_lost() {
            FocusLostEvent::EditFinished { index, value } => EventResult::Action(FlagPanelAction::EditFinished { index, value }),
            FocusLostEvent::Consumed => EventResult::Consumed,
            FocusLostEvent::NotHandled => EventResult::NotHandled,
        }
    }

    /// The open choice box takes keys first, then inline editing; otherwise
    /// Up/k and Down/j move, Space toggles, Backspace clears and Enter asks
    /// for the flag's Enter request.
    fn handle_key(&mut self, key: KeyPress) -> (r: EventResult<FlagPanelAction>) {
        if self.base.is_choosing() {
            let ghost before = self.base;
            let ghost s = self.base.choice_select.state->0;
            let ev = self.base.handle_choice_key(key);
            return match ev {
                Some(event) => {
                    let ghost gev = event;
                    let r = map_choice_event(event);
                    assert(choice_key_outcome(before, s, key.code, self.base, Some(gev)) && choice_mapped(gev, r));
                    r
                },
                None => EventResult::Consumed,
            };
        }
        if self.base.editing {
            let ghost before = self.base;
            let ev = self.base.handle_editing_key(key);
            let ghost gev = ev;
            let r = map_edit_event(ev);
            assert(edit_key_effect(before, key.code, self.base, gev) && edit_mapped(gev, r));
            return r;
        }
        match key.code {
            KeyCode::Up | KeyCode::Char('k') => {
                self.base.move_up();
                EventResult::Consumed
            },
            KeyCode::Down | KeyCode::Char('j') => {
                self.base.move_down();
                EventResult::Consumed
            },
            KeyCode::Char(' ') => EventResult::Action(FlagPanelAction::ToggleFlag(self.base.selected_index())),
            KeyCode::Backspace => EventResult::Action(FlagPanelAction::ClearFlag(self.base.selected_index())),
            KeyCode::Enter => self.enter_action_for_index(self.base.selected_index()),
            _ => EventResult::NotHandled,
        }
    }

    /// Clicks on a negatable flag's row pick by column; other clicks select
    /// or activate; the wheel moves.
    fn handle_mouse(&mut self, event: MouseInput, area: Rect) -> (r: EventResult<FlagPanelAction>) {
        let ghost before = self.base;
        let m = self.base.handle_mouse(event, area);
        let ghost gm = m;
        assert(list_mouse_effect(before, event, area, self.base, gm));
        let r = match m {
            MouseResult::ChoiceClicked(ev) => map_choice_event(ev),
            MouseResult::Consumed => EventResult::Consumed,
            MouseResult::ClickActivate(index) => self.click_action(index, event.column, area, true),
            MouseResult::ItemSelected(index) => self.click_action(index, event.column, area, false),
            MouseResult::NotHandled => {
                match event.kind {
                    MouseKind::ScrollUp | MouseKind::ScrollDown => EventResult::Consumed,
                    _ => EventResult::NotHandled,
                }
            },
        };
        r
    }
}

fn map_edit_event(event: EditEvent) -> (r: EventResult<FlagPanelAction>)
    ensures
        edit_mapped(event, r),
{
    match event {
        EditEvent::ValueChanged { index, value } => EventResult::Action(FlagPanelAction::ValueChanged { index, value }),
        EditEvent::EditFinished { index, value } => EventResult::Action(FlagPanelAction::EditFinished { index, value }),
        EditEvent::Consumed => EventResult::Consumed,
    }
}

fn map_choice_event(event: ChoiceEvent) -> (r: EventResult<FlagPanelAction>)
    ensures
        choice_mapped(event, r),
{
    match event {
        ChoiceEvent::Selected { index, value } => EventResult::Action(FlagPanelAction::ChoiceSelected { index, value }),
        ChoiceEvent::Cancelled { index, value } => EventResult::Action(FlagPanelAction::ChoiceCancelled { index, value }),
        ChoiceEvent::Consumed => EventResult::Consumed,
    }
}

impl Filterable for FlagPanelComponent {
    open spec fn filter_view(self) -> Seq<char> {
        self.base.filter_text@
    }

    open spec fn apply_effect(self, text: Seq<char>, new: Self, r: Option<FlagPanelAction>) -> bool {
        &&& r is None
        &&& new.negate_cols == self.negate_cols
        &&& new.enter_requests == self.enter_requests
        &&& exists|mid: ListPanelBase|
            #![trigger mid.filter_text]
            mid.filter_text@ == text && (text.len() == 0 ==> mid.match_scores.entries@.len() == 0)
                && (text.len() > 0 ==> forall|k: Seq<char>|
                #![trigger crate::matching::score_get(mid.match_scores.entries@, k)]
                crate::matching::score_get(mid.match_scores.entries@, k) == match crate::matching::last_key_index(
                    self.base.filterable_items@,
                    self.base.filterable_items@.len() as int,
                    k,
                ) {
                    Some(m) => Some(crate::matching::item_scores(self.base.filterable_items@[m], text)),
                    None => None,
                }) && mid == (ListPanelBase {
                filter_text: mid.filter_text,
                match_scores: mid.match_scores,
                ..self.base
            }) && auto_selected(mid, new.base)
    }

    open spec fn clear_effect(self, new: Self, r: Option<FlagPanelAction>) -> bool {
        &&& r is None
        &&& new.negate_cols == self.negate_cols
        &&& new.enter_requests == self.enter_requests
        &&& new.base.filter_text@.len() == 0
        &&& new.base.match_scores.entries@.len() == 0
        &&& new.base == (ListPanelBase {
            filter_text: new.base.filter_text,
            match_scores: new.base.match_scores,
            filter_active: false,
            ..self.base
        })
    }

    open spec fn active_effect(self, active: bool, new: Self) -> bool {
        new == (FlagPanelComponent { base: ListPanelBase { filter_active: active, ..self.base }, ..self })
    }

    /// Score the flags against `text` and select the first match.
    fn apply_filter(&mut self, text: &str) -> (r: Option<FlagPanelAction>) {
        self.base.apply_filter_from_items(text);
        let ghost mid = self.base;
        self.base.auto_select_next_match();
        assert(mid.filter_text@ == text@);
        None
    }

    /// Clear the filter.
    fn clear_filter(&mut self) -> (r: Option<FlagPanelAction>) {
        self.base.clear_filter_state();
        None
    }

    /// Mark the filter input (in)active.
    fn set_filter_active(&mut self, active: bool) {
        self.base.filter_active = active;
    }

    /// Whether a filter is applied.
    fn has_active_filter(&self) -> (r: bool) {
        self.base.has_active_filter()
    }

    /// The filter text.
    fn filter_text(&self) -> (r: String) {
        string_of(self.base.filter_text.as_str())
    }
}

/// `new` results from moving `b` to its first match when the selection
/// does not match.
pub open spec fn auto_selected(b: ListPanelBase, new: ListPanelBase) -> bool {
    if b.match_scores.entries@.len() > 0 && (crate::matching::first_key_match(
        b.item_keys@,
        b.match_scores.entries@,
        b.list_state.selected_index as int,
    ) matches Some(i) && i != b.list_state.selected_index) {
        b.selects(
            new,
            crate::list_panel::selected_after(
                b.list_state,
                crate::matching::first_key_match(
                    b.item_keys@,
                    b.match_scores.entries@,
                    b.list_state.selected_index as int,
                )->0,
            ),
        )
    } else {
        new == b
    }
}

} // verus!
