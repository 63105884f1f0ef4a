//! The values a user sets on flags and positional arguments, and the
//! transitions that keys apply to them.

use vstd::prelude::*;

use crate::spec_model::{ArgSpec, FlagSpec};
use crate::text::string_of;

verus! {

/// Tracks the value set for a flag.
#[derive(Debug, Clone, PartialEq)]
pub enum FlagValue {
    /// Boolean flag toggled on/off.
    Bool(bool),
    /// Negatable boolean flag with three states: omitted (None), explicit on, explicit off.
    NegBool(Option<bool>),
    /// Flag with a string value.
    String(String),
    /// Count flag (e.g., -vvv).
    Count(u32),
}

/// State for one positional argument's user-entered value.
#[derive(Debug, Clone)]
pub struct ArgValue {
    pub name: String,
    pub value: String,
    pub required: bool,
    pub choices: Vec<String>,
    pub help: Option<String>,
}

/// The value after Space/Enter: a boolean flips, a negatable flag cycles
/// omitted → on → off → omitted, a count goes up by one, a string stays.
pub open spec fn toggled(v: FlagValue) -> FlagValue {
    match v {
        FlagValue::Bool(b) => FlagValue::Bool(!b),
        FlagValue::NegBool(None) => FlagValue::NegBool(Some(true)),
        FlagValue::NegBool(Some(true)) => FlagValue::NegBool(Some(false)),
        FlagValue::NegBool(Some(false)) => FlagValue::NegBool(None),
        FlagValue::Count(c) => FlagValue::Count((c + 1) as u32),
        FlagValue::String(s) => FlagValue::String(s),
    }
}

/// Whether a toggle would push a count past its largest value.
pub open spec fn toggle_overflows(v: FlagValue) -> bool {
    v matches FlagValue::Count(c) && c == u32::MAX
}

/// Whether `new` is `old` after Backspace: a boolean turns off, a count goes
/// down by one (never below zero), a string empties, a negatable flag becomes omitted.
pub open spec fn is_cleared(old: FlagValue, new: FlagValue) -> bool {
    match old {
        FlagValue::Bool(_) => new == FlagValue::Bool(false),
        FlagValue::Count(c) => new == FlagValue::Count(
            if c == 0 {
                0
            } else {
                (c - 1) as u32
            },
        ),
        FlagValue::String(_) => is_string_value(new, Seq::empty()),
        FlagValue::NegBool(_) => new == FlagValue::NegBool(None),
    }
}

/// Whether a value is a string value holding the given characters.
pub open spec fn is_string_value(v: FlagValue, s: Seq<char>) -> bool {
    v matches FlagValue::String(t) && t@ == s
}

/// Whether `a` and `b` are the same value (strings compared by their characters).
pub open spec fn same_value(a: FlagValue, b: FlagValue) -> bool {
    match (a, b) {
        (FlagValue::String(x), FlagValue::String(y)) => x@ == y@,
        (FlagValue::String(_), _) => false,
        (_, FlagValue::String(_)) => false,
        _ => a == b,
    }
}

/// The state of a negatable flag after a click on one of its names:
/// clicking the state it already has returns it to omitted.
pub open spec fn neg_clicked(state: Option<bool>, target: Option<bool>) -> Option<bool> {
    if state == target {
        None
    } else {
        target
    }
}

/// Characters of the value a flag starts with when it is a string flag.
pub open spec fn initial_string_chars(f: FlagSpec) -> Seq<char> {
    if f.default@.len() > 0 {
        f.default@[0]@
    } else {
        Seq::empty()
    }
}

/// Whether `v` is the value a flag starts with on a command's first visit:
/// a count starts at zero, a flag that takes a value starts at its first
/// default (or empty), a negatable flag starts omitted, any other is off.
pub open spec fn is_initial_flag_value(f: FlagSpec, v: FlagValue) -> bool {
    if f.count {
        v == FlagValue::Count(0)
    } else if f.arg is Some {
        is_string_value(v, initial_string_chars(f))
    } else if f.negate is Some {
        v == FlagValue::NegBool(None)
    } else {
        v == FlagValue::Bool(false)
    }
}

/// The characters of an optional string (empty when absent).
pub open spec fn opt_chars(o: Option<String>) -> Seq<char> {
    match o {
        Some(s) => s@,
        None => Seq::empty(),
    }
}

impl FlagValue {
    /// A copy of this value.
    pub fn copy_value(&self) -> (r: FlagValue)
        ensures
            r == *self,
    {
        match self {
            FlagValue::Bool(b) => FlagValue::Bool(*b),
            FlagValue::NegBool(s) => FlagValue::NegBool(*s),
            FlagValue::String(s) => FlagValue::String(s.clone()),
            FlagValue::Count(c) => FlagValue::Count(*c),
        }
    }

    /// Apply Space/Enter to this value.
    pub fn toggle(&mut self)
        requires
            !toggle_overflows(*old(self)),
        ensures
            *final(self) == toggled(*old(self)),
    {
        match self {
            FlagValue::Bool(b) => {
                *b = !*b;
            },
            FlagValue::NegBool(state) => {
                *state = match *state {
                    None => Some(true),
                    Some(true) => Some(false),
                    Some(false) => None,
                };
            },
            FlagValue::Count(c) => {
                *c = *c + 1;
            },
            FlagValue::String(_) => {},
        }
    }

    /// Apply Backspace to this value.
    pub fn clear(&mut self)
        ensures
            is_cleared(*old(self), *final(self)),
    {
        match self {
            FlagValue::Bool(b) => {
                *b = false;
            },
            FlagValue::Count(c) => {
                *c = c.saturating_sub(1);
            },
            FlagValue::String(s) => {
                *s = String::new();
            },
            FlagValue::NegBool(state) => {
                *state = None;
            },
        }
    }

    /// Apply a click on the positive (`Some(true)`) or negated (`Some(false)`)
    /// name of a negatable flag; other values are left as they are.
    pub fn click_negatable(&mut self, target: Option<bool>)
        ensures
            match *old(self) {
                FlagValue::NegBool(s) => *final(self) == FlagValue::NegBool(neg_clicked(s, target)),
                _ => *final(self) == *old(self),
            },
    {
        if let FlagValue::NegBool(state) = self {
            *state = if *state == target {
                None
            } else {
                target
            };
        }
    }

    /// The value a flag starts with on a command's first visit.
    pub fn initial_for(f: &FlagSpec) -> (r: FlagValue)
        ensures
            is_initial_flag_value(*f, r),
    {
        if f.count {
            FlagValue::Count(0)
        } else if f.arg.is_some() {
            if f.default.len() > 0 {
                FlagValue::String(string_of(f.default[0].as_str()))
            } else {
                FlagValue::String(String::new())
            }
        } else if f.negate.is_some() {
            FlagValue::NegBool(None)
        } else {
            FlagValue::Bool(false)
        }
    }
}

/// Copies of the given strings.
pub fn copy_strings(v: &Vec<String>) -> (r: Vec<String>)
    ensures
        r@.len() == v@.len(),
        forall|i: int| 0 <= i < v@.len() ==> r@[i]@ == v@[i]@,
{
    let mut r: Vec<String> = Vec::new();
    let mut i: usize = 0;
    while i < v.len()
        invariant
            i <= v.len(),
            r@.len() == i,
            forall|j: int| 0 <= j < i ==> r@[j]@ == v@[j]@,
        decreases v.len() - i,
    {
        r.push(string_of(v[i].as_str()));
        i = i + 1;
    }
    r
}

/// A copy of an optional string.
pub fn copy_opt_string(o: &Option<String>) -> (r: Option<String>)
    ensures
        r is Some <==> o is Some,
        opt_chars(r) == opt_chars(*o),
{
    match o {
        Some(s) => Some(string_of(s.as_str())),
        None => None,
    }
}

/// Whether `v` is the value an argument starts with on a command's first
/// visit: its first default (or empty), its choices and its help.
pub open spec fn is_default_arg_value(a: ArgSpec, v: ArgValue) -> bool {
    &&& v.name@ == a.name@
    &&& v.value@ == (if a.default@.len() > 0 {
        a.default@[0]@
    } else {
        Seq::<char>::empty()
    })
    &&& v.required == a.required
    &&& v.choices@.len() == (match a.choices {
        Some(c) => c@.len(),
        None => 0,
    })
    &&& forall|k: int|
        0 <= k < v.choices@.len() ==> #[trigger] v.choices@[k]@ == a.choices->0@[k]@
    &&& (v.help is Some <==> a.help is Some)
    &&& opt_chars(v.help) == opt_chars(a.help)
}

impl ArgValue {
    /// The value an argument starts with on a command's first visit.
    pub fn initial_for(a: &ArgSpec) -> (r: ArgValue)
        ensures
            is_default_arg_value(*a, r),
    {
        let choices = match &a.choices {
            Some(c) => copy_strings(c),
            None => Vec::new(),
        };
        let value = if a.default.len() > 0 {
            string_of(a.default[0].as_str())
        } else {
            String::new()
        };
        ArgValue {
            name: string_of(a.name.as_str()),
            value,
            required: a.required,
            choices,
            help: copy_opt_string(&a.help),
        }
    }

    /// A copy of this argument value.
    pub fn copy_arg(&self) -> (r: ArgValue)
        ensures
            r.name@ == self.name@,
            r.value@ == self.value@,
            r.required == self.required,
            r.choices@.len() == self.choices@.len(),
            forall|k: int| 0 <= k < self.choices@.len() ==> r.choices@[k]@ == self.choices@[k]@,
            r.help is Some <==> self.help is Some,
            opt_chars(r.help) == opt_chars(self.help),
    {
        ArgValue {
            name: string_of(self.name.as_str()),
            value: string_of(self.value.as_str()),
            required: self.required,
            choices: copy_strings(&self.choices),
            help: copy_opt_string(&self.help),
        }
    }
}

/// Toggling a negatable flag three times returns it to where it started.
pub proof fn lemma_negatable_toggle_cycles(s: Option<bool>)
    ensures
        toggled(toggled(toggled(FlagValue::NegBool(s)))) == FlagValue::NegBool(s),
{
}

/// Toggling a boolean flag twice returns it to where it started.
pub proof fn lemma_bool_toggle_involutive(b: bool)
    ensures
        toggled(toggled(FlagValue::Bool(b))) == FlagValue::Bool(b),
{
}

/// Backspace undoes Space on a count flag.
pub proof fn lemma_count_clear_undoes_toggle(c: u32)
    requires
        c < u32::MAX,
    ensures
        is_cleared(toggled(FlagValue::Count(c)), FlagValue::Count(c)),
{
}

/// Clicking the same name of a negatable flag twice returns it to where it started
/// when it started omitted, and leaves it omitted when it started on that state.
pub proof fn lemma_negatable_click_twice(s: Option<bool>, target: Option<bool>)
    requires
        target is Some,
    ensures
        s is None ==> neg_clicked(neg_clicked(s, target), target) == s,
        s == target ==> neg_clicked(s, target) is None,
{
}

} // verus!
