//! Assembling the command line from the spec, the flag values of every
//! level of the command path and the positional argument values.

use vstd::prelude::*;

use crate::flag_store::{
    lemma_level_index_props, lemma_setting_index_props, setting_index, store_get, FlagSettings, FlagStore,
};
use crate::spec_model::{find_subcommand_index, CliSpec, CommandSpec, FlagSpec};
use crate::text::{
    char_is_whitespace, contains_char, has_char, join_with_spaces, join_words, push_all,
    string_of, string_push, unicode_white_space, views,
};
use crate::values::{ArgValue, FlagValue};

verus! {

// ── Flag lookup ─────────────────────────────────────────────────────

/// The first position of a flag named `n` in `flags`.
#[verifier::opaque]
pub open spec fn flag_index(flags: Seq<FlagSpec>, n: Seq<char>) -> Option<int> {
    if exists|i: int| 0 <= i < flags.len() && #[trigger] flags[i].name@ == n {
        Some(
            choose|i: int|
                0 <= i < flags.len() && flags[i].name@ == n && forall|j: int|
                    0 <= j < i ==> #[trigger] flags[j].name@ != n,
        )
    } else {
        None
    }
}

/// Whether a flag is a global flag named `n`.
pub open spec fn global_named(f: FlagSpec, n: Seq<char>) -> bool {
    f.global && f.name@ == n
}

/// The first position of a global flag named `n` in `flags`.
#[verifier::opaque]
pub open spec fn global_index(flags: Seq<FlagSpec>, n: Seq<char>) -> Option<int> {
    if exists|i: int| 0 <= i < flags.len() && #[trigger] global_named(flags[i], n) {
        Some(
            choose|i: int|
                0 <= i < flags.len() && global_named(flags[i], n) && forall|j: int|
                    0 <= j < i ==> !#[trigger] global_named(flags[j], n),
        )
    } else {
        None
    }
}

proof fn lemma_least_flag(flags: Seq<FlagSpec>, n: Seq<char>, i: int)
    requires
        0 <= i < flags.len(),
        flags[i].name@ == n,
    ensures
        exists|m: int|
            0 <= m < flags.len() && flags[m].name@ == n && forall|j: int|
                0 <= j < m ==> #[trigger] flags[j].name@ != n,
    decreases i,
{
    if exists|j: int| 0 <= j < i && #[trigger] flags[j].name@ == n {
        let j = choose|j: int| 0 <= j < i && #[trigger] flags[j].name@ == n;
        lemma_least_flag(flags, n, j);
    } else {
        assert(forall|j: int| 0 <= j < i ==> #[trigger] flags[j].name@ != n);
    }
}

proof fn lemma_least_global(flags: Seq<FlagSpec>, n: Seq<char>, i: int)
    requires
        0 <= i < flags.len(),
        global_named(flags[i], n),
    ensures
        exists|m: int|
            0 <= m < flags.len() && global_named(flags[m], n) && forall|j: int|
                0 <= j < m ==> !#[trigger] global_named(flags[j], n),
    decreases i,
{
    if exists|j: int| 0 <= j < i && #[trigger] global_named(flags[j], n) {
        let j = choose|j: int| 0 <= j < i && #[trigger] global_named(flags[j], n);
        lemma_least_global(flags, n, j);
    } else {
        assert(forall|j: int| 0 <= j < i ==> !#[trigger] global_named(flags[j], n));
    }
}

/// What `flag_index` says of its answer.
pub proof fn lemma_flag_index_props(flags: Seq<FlagSpec>, n: Seq<char>)
    ensures
        match flag_index(flags, n) {
            Some(i) => 0 <= i < flags.len() && flags[i].name@ == n && forall|j: int|
                0 <= j < i ==> #[trigger] flags[j].name@ != n,
            None => forall|j: int| 0 <= j < flags.len() ==> #[trigger] flags[j].name@ != n,
        },
{
    reveal(flag_index);
    if exists|i: int| 0 <= i < flags.len() && #[trigger] flags[i].name@ == n {
        let i = choose|i: int| 0 <= i < flags.len() && #[trigger] flags[i].name@ == n;
        lemma_least_flag(flags, n, i);
    }
}

/// What `global_index` says of its answer.
pub proof fn lemma_global_index_props(flags: Seq<FlagSpec>, n: Seq<char>)
    ensures
        match global_index(flags, n) {
            Some(i) => 0 <= i < flags.len() && global_named(flags[i], n) && forall|j: int|
                0 <= j < i ==> !#[trigger] global_named(flags[j], n),
            None => forall|j: int| 0 <= j < flags.len() ==> !#[trigger] global_named(flags[j], n),
        },
{
    reveal(global_index);
    if exists|i: int| 0 <= i < flags.len() && #[trigger] global_named(flags[i], n) {
        let i = choose|i: int| 0 <= i < flags.len() && #[trigger] global_named(flags[i], n);
        lemma_least_global(flags, n, i);
    }
}

proof fn lemma_flag_index_is(flags: Seq<FlagSpec>, n: Seq<char>, i: int)
    requires
        0 <= i < flags.len(),
        flags[i].name@ == n,
        forall|j: int| 0 <= j < i ==> #[trigger] flags[j].name@ != n,
    ensures
        flag_index(flags, n) == Some(i),
{
    lemma_flag_index_props(flags, n);
    match flag_index(flags, n) {
        Some(c) => {
            if c < i {
                assert(flags[c].name@ != n);
            }
            if c > i {
                assert(flags[i].name@ != n);
            }
        },
        None => {
            assert(flags[i].name@ != n);
        },
    }
}

proof fn lemma_global_index_is(flags: Seq<FlagSpec>, n: Seq<char>, i: int)
    requires
        0 <= i < flags.len(),
        global_named(flags[i], n),
        forall|j: int| 0 <= j < i ==> !#[trigger] global_named(flags[j], n),
    ensures
        global_index(flags, n) == Some(i),
{
    lemma_global_index_props(flags, n);
    match global_index(flags, n) {
        Some(c) => {
            if c < i {
                assert(!global_named(flags[c], n));
            }
            if c > i {
                assert(!global_named(flags[i], n));
            }
        },
        None => {
            assert(!global_named(flags[i], n));
        },
    }
}

/// The flag spec a setting named `n` refers to: the first flag of the level
/// with that name, or else the first global flag of the root with that name.
pub open spec fn resolve_flag(n: Seq<char>, flags: Seq<FlagSpec>, globals: Seq<FlagSpec>) -> Option<
    FlagSpec,
> {
    match flag_index(flags, n) {
        Some(i) => Some(flags[i]),
        None => match global_index(globals, n) {
            Some(i) => Some(globals[i]),
            None => None,
        },
    }
}

/// Whether the root declares a global flag named `n`.
pub open spec fn is_global_name(globals: Seq<FlagSpec>, n: Seq<char>) -> bool {
    exists|k: int| 0 <= k < globals.len() && #[trigger] global_named(globals[k], n)
}

/// The spec of the flag named `name`, looked up in `flags`, then among the
/// global flags of `global_flags`.
pub fn find_flag_spec<'a>(name: &str, flags: &'a Vec<FlagSpec>, global_flags: &'a Vec<FlagSpec>) -> (r:
    Option<&'a FlagSpec>)
    ensures
        r is Some <==> resolve_flag(name@, flags@, global_flags@) is Some,
        r matches Some(f) ==> *f == resolve_flag(name@, flags@, global_flags@)->0,
{
    let mut i: usize = 0;
    while i < flags.len()
        invariant
            i <= flags.len(),
            forall|j: int| 0 <= j < i ==> #[trigger] flags@[j].name@ != name@,
        decreases flags.len() - i,
    {
        if crate::text::str_eq(flags[i].name.as_str(), name) {
            proof {
                lemma_flag_index_is(flags@, name@, i as int);
            }
            return Some(&flags[i]);
        }
        i = i + 1;
    }
    proof {
        lemma_flag_index_props(flags@, name@);
    }
    let mut k: usize = 0;
    while k < global_flags.len()
        invariant
            k <= global_flags.len(),
            flag_index(flags@, name@) is None,
            forall|j: int| 0 <= j < k ==> !#[trigger] global_named(global_flags@[j], name@),
        decreases global_flags.len() - k,
    {
        if global_flags[k].global && crate::text::str_eq(global_flags[k].name.as_str(), name) {
            proof {
                lemma_global_index_is(global_flags@, name@, k as int);
            }
            return Some(&global_flags[k]);
        }
        k = k + 1;
    }
    proof {
        lemma_global_index_props(global_flags@, name@);
    }
    None
}

/// Whether the root declares a global flag named `name`.
pub fn is_global_flag_name(globals: &Vec<FlagSpec>, name: &str) -> (r: bool)
    ensures
        r == is_global_name(globals@, name@),
{
    let mut k: usize = 0;
    while k < globals.len()
        invariant
            k <= globals.len(),
            forall|j: int| 0 <= j < k ==> !#[trigger] global_named(globals@[j], name@),
        decreases globals.len() - k,
    {
        if globals[k].global && crate::text::str_eq(globals[k].name.as_str(), name) {
            assert(global_named(globals@[k as int], name@));
            return true;
        }
        k = k + 1;
    }
    false
}

// ── Tokens of one flag ──────────────────────────────────────────────

/// `--long` for a flag with a long name, else `-s` for one with a short name.
pub open spec fn flag_prefix(f: FlagSpec) -> Option<Seq<char>> {
    if f.long@.len() > 0 {
        Some(seq!['-', '-'] + f.long@[0]@)
    } else if f.short@.len() > 0 {
        Some(seq!['-', f.short@[0]])
    } else {
        None
    }
}

/// `n` copies of `c`.
pub open spec fn repeat_char(c: char, n: nat) -> Seq<char> {
    Seq::new(n, |_i: int| c)
}

/// `n` copies of `w`.
pub open spec fn repeat_word(w: Seq<char>, n: nat) -> Seq<Seq<char>> {
    Seq::new(n, |_i: int| w)
}

/// The display text of one flag setting, or none when the flag is unset.
pub open spec fn display_token(f: FlagSpec, v: FlagValue) -> Option<Seq<char>> {
    match v {
        FlagValue::Bool(true) => flag_prefix(f),
        FlagValue::Bool(false) => None,
        FlagValue::NegBool(None) => None,
        FlagValue::NegBool(Some(true)) => flag_prefix(f),
        FlagValue::NegBool(Some(false)) => match f.negate {
            Some(n) => Some(n@),
            None => None,
        },
        FlagValue::Count(n) => if n == 0 {
            None
        } else if f.short@.len() > 0 {
            Some(seq!['-'] + repeat_char(f.short@[0], n as nat))
        } else if f.long@.len() > 0 {
            Some(join_words(repeat_word(seq!['-', '-'] + f.long@[0]@, n as nat)))
        } else {
            None
        },
        FlagValue::String(s) => if s@.len() == 0 {
            None
        } else {
            match flag_prefix(f) {
                Some(p) => if has_char(s@, ' ') {
                    Some(p + seq![' ', '"'] + s@ + seq!['"'])
                } else {
                    Some(p + seq![' '] + s@)
                },
                None => None,
            }
        },
    }
}

/// The separate process arguments of one flag setting.
pub open spec fn part_tokens(f: FlagSpec, v: FlagValue) -> Seq<Seq<char>> {
    match v {
        FlagValue::Bool(true) | FlagValue::NegBool(Some(true)) => match flag_prefix(f) {
            Some(p) => seq![p],
            None => Seq::empty(),
        },
        FlagValue::NegBool(Some(false)) => match f.negate {
            Some(n) => seq![n@],
            None => Seq::empty(),
        },
        FlagValue::Count(n) => if n == 0 {
            Seq::empty()
        } else if f.short@.len() > 0 {
            seq![seq!['-'] + repeat_char(f.short@[0], n as nat)]
        } else if f.long@.len() > 0 {
            repeat_word(seq!['-', '-'] + f.long@[0]@, n as nat)
        } else {
            Seq::empty()
        },
        FlagValue::String(s) => if s@.len() == 0 {
            Seq::empty()
        } else {
            match flag_prefix(f) {
                Some(p) => seq![p, s@],
                None => Seq::empty(),
            }
        },
        _ => Seq::empty(),
    }
}

/// The display text of the setting `(name, value)`, if it shows.
pub open spec fn format_flag_value_spec(
    name: Seq<char>,
    v: FlagValue,
    flags: Seq<FlagSpec>,
    globals: Seq<FlagSpec>,
) -> Option<Seq<char>> {
    match resolve_flag(name, flags, globals) {
        Some(f) => display_token(f, v),
        None => None,
    }
}

/// The process arguments of the setting `(name, value)`.
pub open spec fn format_flag_parts_spec(
    name: Seq<char>,
    v: FlagValue,
    flags: Seq<FlagSpec>,
    globals: Seq<FlagSpec>,
) -> Seq<Seq<char>> {
    match resolve_flag(name, flags, globals) {
        Some(f) => part_tokens(f, v),
        None => Seq::empty(),
    }
}

/// The process arguments of a setting, joined by spaces, are its display
/// text (nothing when it does not show), except for a string value holding
/// a space, which the display quotes.
pub proof fn lemma_flag_parts_join(name: Seq<char>, v: FlagValue, flags: Seq<FlagSpec>, globals: Seq<FlagSpec>)
    requires
        !(v matches FlagValue::String(s) && has_char(s@, ' ')),
    ensures
        join_words(format_flag_parts_spec(name, v, flags, globals)) == match format_flag_value_spec(
            name,
            v,
            flags,
            globals,
        ) {
            Some(t) => t,
            None => Seq::empty(),
        },
{
    match resolve_flag(name, flags, globals) {
        Some(f) => {
            match v {
                FlagValue::String(s) => {
                    if s@.len() > 0 {
                        match flag_prefix(f) {
                            Some(p) => {
                                assert(seq![p, s@].drop_last() =~= seq![p]);
                                assert(join_words(seq![p]) == p);
                                assert(join_words(seq![p, s@]) == p + seq![' '] + s@);
                                assert(part_tokens(f, v) == seq![p, s@]);
                                assert(display_token(f, v) == Some(p + seq![' '] + s@));
                            },
                            None => {},
                        }
                    }
                },
                FlagValue::Count(n) => {
                    if n > 0 && f.short@.len() > 0 {
                        assert(seq![seq!['-'] + repeat_char(f.short@[0], n as nat)].drop_last() =~= Seq::<Seq<char>>::empty());
                    }
                },
                FlagValue::NegBool(Some(false)) => {
                    match f.negate {
                        Some(x) => {
                            assert(seq![x@].drop_last() =~= Seq::<Seq<char>>::empty());
                        },
                        None => {},
                    }
                },
                _ => {
                    match flag_prefix(f) {
                        Some(p) => {
                            assert(seq![p].drop_last() =~= Seq::<Seq<char>>::empty());
                        },
                        None => {},
                    }
                },
            }
        },
        None => {},
    }
}

fn prefix_string(f: &FlagSpec) -> (r: Option<String>)
    ensures
        r is Some <==> flag_prefix(*f) is Some,
        r matches Some(p) ==> p@ == flag_prefix(*f)->0,
{
    if f.long.len() > 0 {
        let mut p = String::new();
        string_push(&mut p, '-');
        string_push(&mut p, '-');
        push_all(&mut p, f.long[0].as_str());
        assert(p@ =~= seq!['-', '-'] + f.long@[0]@);
        Some(p)
    } else if f.short.len() > 0 {
        let mut p = String::new();
        string_push(&mut p, '-');
        string_push(&mut p, f.short[0]);
        assert(p@ =~= seq!['-', f.short@[0]]);
        Some(p)
    } else {
        None
    }
}

fn dash_repeat(c: char, n: u32) -> (r: String)
    ensures
        r@ == seq!['-'] + repeat_char(c, n as nat),
{
    let mut r = String::new();
    string_push(&mut r, '-');
    let mut i: u32 = 0;
    while i < n
        invariant
            i <= n,
            r@ == seq!['-'] + repeat_char(c, i as nat),
        decreases n - i,
    {
        string_push(&mut r, c);
        assert(repeat_char(c, (i + 1) as nat) =~= repeat_char(c, i as nat).push(c));
        i = i + 1;
    }
    r
}

fn long_word(l: &String) -> (r: String)
    ensures
        r@ == seq!['-', '-'] + l@,
{
    let mut r = String::new();
    string_push(&mut r, '-');
    string_push(&mut r, '-');
    push_all(&mut r, l.as_str());
    assert(r@ =~= seq!['-', '-'] + l@);
    r
}

fn repeated_words(w: &String, n: u32) -> (r: Vec<String>)
    ensures
        views(r@) == repeat_word(w@, n as nat),
{
    let mut r: Vec<String> = Vec::new();
    let mut i: u32 = 0;
    while i < n
        invariant
            i <= n,
            views(r@) == repeat_word(w@, i as nat),
        decreases n - i,
    {
        let ghost before = r@;
        r.push(string_of(w.as_str()));
        assert(views(r@) =~= views(before).push(w@));
        assert(repeat_word(w@, (i + 1) as nat) =~= repeat_word(w@, i as nat).push(w@));
        i = i + 1;
    }
    r
}

/// Display text of one flag setting (for the command preview): `None` when
/// the flag is unset, off, or unknown.
pub fn format_flag_value(
    name: &str,
    value: &FlagValue,
    flags: &Vec<FlagSpec>,
    global_flags: &Vec<FlagSpec>,
) -> (r: Option<String>)
    ensures
        r is Some <==> format_flag_value_spec(name@, *value, flags@, global_flags@) is Some,
        r matches Some(t) ==> t@ == format_flag_value_spec(name@, *value, flags@, global_flags@)->0,
{
    let flag = match find_flag_spec(name, flags, global_flags) {
        Some(f) => f,
        None => return None,
    };
    match value {
        FlagValue::Bool(true) => prefix_string(flag),
        FlagValue::Bool(false) => None,
        FlagValue::NegBool(None) => None,
        FlagValue::NegBool(Some(true)) => prefix_string(flag),
        FlagValue::NegBool(Some(false)) => match &flag.negate {
            Some(n) => Some(string_of(n.as_str())),
            None => None,
        },
        FlagValue::Count(n) => {
            if *n == 0 {
                None
            } else if flag.short.len() > 0 {
                Some(dash_repeat(flag.short[0], *n))
            } else if flag.long.len() > 0 {
                let w = long_word(&flag.long[0]);
                let ws = repeated_words(&w, *n);
                Some(join_with_spaces(&ws))
            } else {
                None
            }
        },
        FlagValue::String(s) => {
            if s.unicode_len() == 0 {
                return None;
            }
            match prefix_string(flag) {
                Some(p) => {
                    let mut out = p;
                    if contains_char(s.as_str(), ' ') {
                        string_push(&mut out, ' ');
                        string_push(&mut out, '"');
                        push_all(&mut out, s.as_str());
                        string_push(&mut out, '"');
                        assert(out@ =~= flag_prefix(*flag)->0 + seq![' ', '"'] + s@ + seq!['"']);
                    } else {
                        string_push(&mut out, ' ');
                        push_all(&mut out, s.as_str());
                        assert(out@ =~= flag_prefix(*flag)->0 + seq![' '] + s@);
                    }
                    Some(out)
                },
                None => None,
            }
        },
    }
}

/// Append the separate process arguments of one flag setting to `parts`.
pub fn format_flag_parts(
    name: &str,
    value: &FlagValue,
    flags: &Vec<FlagSpec>,
    global_flags: &Vec<FlagSpec>,
    parts: &mut Vec<String>,
)
    ensures
        views(final(parts)@) == views(old(parts)@) + format_flag_parts_spec(
            name@,
            *value,
            flags@,
            global_flags@,
        ),
{
    let ghost before = views(parts@);
    let flag = match find_flag_spec(name, flags, global_flags) {
        Some(f) => f,
        None => {
            assert(views(parts@) =~= before + Seq::<Seq<char>>::empty());
            return ;
        },
    };
    let ghost toks = part_tokens(*flag, *value);
    let mut extra: Vec<String> = Vec::new();
    match value {
        FlagValue::Bool(true) | FlagValue::NegBool(Some(true)) => {
            if let Some(p) = prefix_string(flag) {
                extra.push(p);
            }
        },
        FlagValue::NegBool(Some(false)) => {
            if let Some(n) = &flag.negate {
                extra.push(string_of(n.as_str()));
            }
        },
        FlagValue::Count(n) => {
            if *n == 0 {
            } else if flag.short.len() > 0 {
                extra.push(dash_repeat(flag.short[0], *n));
            } else if flag.long.len() > 0 {
                let w = long_word(&flag.long[0]);
                extra = repeated_words(&w, *n);
            }
        },
        FlagValue::String(s) => {
            if s.unicode_len() > 0 {
                if let Some(p) = prefix_string(flag) {
                    extra.push(p);
                    extra.push(string_of(s.as_str()));
                }
            }
        },
        _ => {},
    }
    assert(views(extra@) =~= toks);
    append_all(parts, extra);
}

/// Move every string of `extra` to the end of `parts`.
fn append_all(parts: &mut Vec<String>, extra: Vec<String>)
    ensures
        views(final(parts)@) == views(old(parts)@) + views(extra@),
{
    let ghost start = views(parts@);
    let mut extra = extra;
    let ghost all = views(extra@);
    let mut i: usize = 0;
    let n = extra.len();
    while i < n
        invariant
            n == extra@.len(),
            i <= n,
            views(extra@) == all,
            views(parts@) == start + all.subrange(0, i as int),
        decreases n - i,
    {
        let ghost before = views(parts@);
        parts.push(string_of(extra[i].as_str()));
        assert(views(parts@) =~= before.push(all[i as int]));
        assert(all.subrange(0, i + 1) =~= all.subrange(0, i as int).push(all[i as int]));
        i = i + 1;
    }
    assert(all.subrange(0, n as int) =~= all);
}

// ── The whole command ───────────────────────────────────────────────

/// State needed for live preview of in-progress arg edits.
pub struct LiveArgPreview<'a> {
    /// Index of the arg currently being edited via choice select, if any.
    pub choice_select_index: Option<usize>,
    /// Current text in the choice select input.
    pub choice_select_text: &'a str,
    /// Whether inline editing is active.
    pub is_editing: bool,
    /// Index of the currently selected arg (for inline editing).
    pub editing_index: usize,
    /// Current text in the inline editor.
    pub editing_text: &'a str,
}

/// The program name the command starts with: `bin`, or `name` when `bin` is empty.
pub open spec fn bin_of(spec: CliSpec) -> Seq<char> {
    if spec.bin@.len() == 0 {
        spec.name@
    } else {
        spec.bin@
    }
}

/// The display texts of a level's settings, in order; `skip_globals` leaves
/// out the settings of global flags (they are shown once, after the binary).
pub open spec fn flag_words(
    settings: Seq<(String, FlagValue)>,
    flags: Seq<FlagSpec>,
    globals: Seq<FlagSpec>,
    skip_globals: bool,
) -> Seq<Seq<char>>
    decreases settings.len(),
{
    if settings.len() == 0 {
        Seq::empty()
    } else {
        let last = settings.last();
        flag_words(settings.drop_last(), flags, globals, skip_globals) + if skip_globals
            && is_global_name(globals, last.0@) {
            Seq::empty()
        } else {
            match format_flag_value_spec(last.0@, last.1, flags, globals) {
                Some(t) => seq![t],
                None => Seq::empty(),
            }
        }
    }
}

/// The process arguments of a level's settings, in order.
pub open spec fn flag_part_words(
    settings: Seq<(String, FlagValue)>,
    flags: Seq<FlagSpec>,
    globals: Seq<FlagSpec>,
    skip_globals: bool,
) -> Seq<Seq<char>>
    decreases settings.len(),
{
    if settings.len() == 0 {
        Seq::empty()
    } else {
        let last = settings.last();
        flag_part_words(settings.drop_last(), flags, globals, skip_globals) + if skip_globals
            && is_global_name(globals, last.0@) {
            Seq::empty()
        } else {
            format_flag_parts_spec(last.0@, last.1, flags, globals)
        }
    }
}

/// The command reached by following `path` from `cmd`; a name that does not
/// match a subcommand leaves the walk where it is.
pub open spec fn walk(cmd: CommandSpec, path: Seq<Seq<char>>) -> CommandSpec
    decreases path.len(),
{
    if path.len() == 0 {
        cmd
    } else {
        let c = walk(cmd, path.drop_last());
        match find_subcommand_index(c, path.last()) {
            Some(i) => c.subcommands@[i],
            None => c,
        }
    }
}

/// The words for the first `n` names of the path: each name, followed by
/// the texts of that level's non-global settings when the name matched a subcommand.
pub open spec fn level_words(
    spec: CliSpec,
    levels: Seq<(String, FlagSettings)>,
    path: Seq<Seq<char>>,
    n: nat,
    parts: bool,
) -> Seq<Seq<char>>
    decreases n,
{
    if n == 0 || n > path.len() {
        Seq::empty()
    } else {
        let prev = walk(spec.cmd, path.take(n - 1));
        let name = path[n - 1];
        level_words(spec, levels, path, (n - 1) as nat, parts) + seq![name] + match find_subcommand_index(
            prev,
            name,
        ) {
            Some(i) => match store_get(levels, join_words(path.take(n as int))) {
                Some(settings) => if parts {
                    flag_part_words(settings, prev.subcommands@[i].flags@, spec.cmd.flags@, true)
                } else {
                    flag_words(settings, prev.subcommands@[i].flags@, spec.cmd.flags@, true)
                },
                None => Seq::empty(),
            },
            None => Seq::empty(),
        }
    }
}

/// Whether a value is set: a boolean on, a negatable flag given either way,
/// a count above zero, or a non-empty string.
pub open spec fn is_set(v: FlagValue) -> bool {
    match v {
        FlagValue::Bool(b) => b,
        FlagValue::NegBool(s) => s is Some,
        FlagValue::Count(n) => n > 0,
        FlagValue::String(s) => s@.len() > 0,
    }
}

/// Whether a value is set (see `is_set`).
pub fn value_is_set(v: &FlagValue) -> (r: bool)
    ensures
        r == is_set(*v),
{
    match v {
        FlagValue::Bool(b) => *b,
        FlagValue::NegBool(s) => s.is_some(),
        FlagValue::Count(n) => *n > 0,
        FlagValue::String(s) => s.unicode_len() > 0,
    }
}

/// The value of the global flag `name` at the deepest of the first `k`
/// levels of `path` where it is set (its first setting there), or `v` when
/// it is set at none of them.
pub open spec fn deepest_value(
    levels: Seq<(String, FlagSettings)>,
    path: Seq<Seq<char>>,
    k: nat,
    name: Seq<char>,
    v: FlagValue,
) -> FlagValue
    decreases k,
{
    if k == 0 {
        v
    } else {
        match store_get(levels, join_words(path.take(k as int))) {
            Some(settings) => match setting_index(settings, name) {
                Some(j) => if is_set(settings[j].1) {
                    settings[j].1
                } else {
                    deepest_value(levels, path, (k - 1) as nat, name, v)
                },
                None => deepest_value(levels, path, (k - 1) as nat, name, v),
            },
            None => deepest_value(levels, path, (k - 1) as nat, name, v),
        }
    }
}

/// The value emitted for the root's setting `name` (holding `v`): a global
/// flag takes the value of the deepest level of the path where it is set
/// (the root's value when it is set nowhere below); any other flag keeps the
/// root's value.
pub open spec fn resolved_value(
    spec: CliSpec,
    levels: Seq<(String, FlagSettings)>,
    path: Seq<Seq<char>>,
    name: Seq<char>,
    v: FlagValue,
) -> FlagValue {
    if is_global_name(spec.cmd.flags@, name) {
        deepest_value(levels, path, path.len(), name, v)
    } else {
        v
    }
}

/// The words of the root's settings, in order, each with its resolved value.
pub open spec fn root_flag_words(
    settings: Seq<(String, FlagValue)>,
    spec: CliSpec,
    levels: Seq<(String, FlagSettings)>,
    path: Seq<Seq<char>>,
    parts: bool,
) -> Seq<Seq<char>>
    decreases settings.len(),
{
    if settings.len() == 0 {
        Seq::empty()
    } else {
        let last = settings.last();
        let v = resolved_value(spec, levels, path, last.0@, last.1);
        root_flag_words(settings.drop_last(), spec, levels, path, parts) + if parts {
            format_flag_parts_spec(last.0@, v, spec.cmd.flags@, spec.cmd.flags@)
        } else {
            match format_flag_value_spec(last.0@, v, spec.cmd.flags@, spec.cmd.flags@) {
                Some(t) => seq![t],
                None => Seq::empty(),
            }
        }
    }
}

/// The texts of the root level's settings, emitted right after the program
/// name: global flags with the value of the deepest level of the path where
/// they are set, the root's other flags with the root's values.
pub open spec fn root_words(
    spec: CliSpec,
    levels: Seq<(String, FlagSettings)>,
    path: Seq<Seq<char>>,
    parts: bool,
) -> Seq<Seq<char>> {
    match store_get(levels, Seq::empty()) {
        Some(settings) => root_flag_words(settings, spec, levels, path, parts),
        None => Seq::empty(),
    }
}

/// The value shown for argument `i`: the open choice box's text, else the
/// inline editor's text, else the stored value.
pub open spec fn effective_value(i: int, arg: ArgValue, preview: LiveArgPreview) -> Seq<char> {
    if preview.choice_select_index == Some(i as usize) {
        preview.choice_select_text@
    } else if preview.is_editing && preview.editing_index == i {
        preview.editing_text@
    } else {
        arg.value@
    }
}

/// The display words of the non-empty argument values (quoted when they hold a space).
pub open spec fn arg_words(args: Seq<ArgValue>, preview: LiveArgPreview, n: nat) -> Seq<Seq<char>>
    decreases n,
{
    if n == 0 || n > args.len() {
        Seq::empty()
    } else {
        let v = effective_value(n - 1, args[n - 1], preview);
        arg_words(args, preview, (n - 1) as nat) + if v.len() == 0 {
            Seq::empty()
        } else if has_char(v, ' ') {
            seq![seq!['"'] + v + seq!['"']]
        } else {
            seq![v]
        }
    }
}

/// The process arguments of the non-empty argument values (never quoted).
pub open spec fn arg_parts(args: Seq<ArgValue>, n: nat) -> Seq<Seq<char>>
    decreases n,
{
    if n == 0 || n > args.len() {
        Seq::empty()
    } else {
        arg_parts(args, (n - 1) as nat) + if args[n - 1].value@.len() == 0 {
            Seq::empty()
        } else {
            seq![args[n - 1].value@]
        }
    }
}

/// The words of the displayed command: the binary, the root's settings
/// (global flags first), each path name with its level's settings, then the arguments.
pub open spec fn display_words(
    spec: CliSpec,
    levels: Seq<(String, FlagSettings)>,
    path: Seq<Seq<char>>,
    args: Seq<ArgValue>,
    preview: LiveArgPreview,
) -> Seq<Seq<char>> {
    seq![bin_of(spec)] + root_words(spec, levels, path, false) + level_words(
        spec,
        levels,
        path,
        path.len(),
        false,
    ) + arg_words(args, preview, args.len())
}

/// How `split_words` stands after a prefix: the finished words and the word in progress.
pub open spec fn split_state(s: Seq<char>) -> (Seq<Seq<char>>, Seq<char>)
    decreases s.len(),
{
    if s.len() == 0 {
        (Seq::empty(), Seq::empty())
    } else {
        let (ws, cur) = split_state(s.drop_last());
        let c = s.last();
        if unicode_white_space(c) {
            if cur.len() > 0 {
                (ws.push(cur), Seq::empty())
            } else {
                (ws, Seq::empty())
            }
        } else {
            (ws, cur.push(c))
        }
    }
}

/// The maximal runs of non-whitespace characters of `s`, in order.
pub open spec fn split_words(s: Seq<char>) -> Seq<Seq<char>> {
    let (ws, cur) = split_state(s);
    if cur.len() > 0 {
        ws.push(cur)
    } else {
        ws
    }
}

/// The process arguments of the command: the words of the binary, the root's
/// settings, each path name with its level's settings, then the non-empty argument values.
pub open spec fn part_words(
    spec: CliSpec,
    levels: Seq<(String, FlagSettings)>,
    path: Seq<Seq<char>>,
    args: Seq<ArgValue>,
) -> Seq<Seq<char>> {
    split_words(bin_of(spec)) + root_words(spec, levels, path, true) + level_words(
        spec,
        levels,
        path,
        path.len(),
        true,
    ) + arg_parts(args, args.len())
}

/// Split `s` into its whitespace-separated words.
pub fn split_whitespace_words(s: &str) -> (r: Vec<String>)
    ensures
        views(r@) == split_words(s@),
{
    let n = s.unicode_len();
    let mut words: Vec<String> = Vec::new();
    let mut cur = String::new();
    let mut i: usize = 0;
    while i < n
        invariant
            n == s@.len(),
            i <= n,
            (views(words@), cur@) == split_state(s@.subrange(0, i as int)),
        decreases n - i,
    {
        let c = s.get_char(i);
        assert(s@.subrange(0, i + 1).drop_last() =~= s@.subrange(0, i as int));
        if char_is_whitespace(c) {
            if cur.unicode_len() > 0 {
                let ghost before = views(words@);
                let w = cur;
                words.push(w);
                cur = String::new();
                assert(views(words@) =~= before.push(w@));
            }
        } else {
            string_push(&mut cur, c);
        }
        i = i + 1;
    }
    assert(s@.subrange(0, n as int) =~= s@);
    if cur.unicode_len() > 0 {
        let ghost before = views(words@);
        let w = cur;
        words.push(w);
        assert(views(words@) =~= before.push(w@));
    }
    words
}

/// Push the display texts of `settings` onto `parts`.
fn push_flag_words(
    parts: &mut Vec<String>,
    settings: &FlagSettings,
    flags: &Vec<FlagSpec>,
    globals: &Vec<FlagSpec>,
    skip_globals: bool,
)
    ensures
        views(final(parts)@) == views(old(parts)@) + flag_words(
            settings@,
            flags@,
            globals@,
            skip_globals,
        ),
{
    let ghost start = views(parts@);
    let mut i: usize = 0;
    while i < settings.len()
        invariant
            i <= settings.len(),
            views(parts@) == start + flag_words(
                settings@.subrange(0, i as int),
                flags@,
                globals@,
                skip_globals,
            ),
        decreases settings.len() - i,
    {
        let ghost before = views(parts@);
        let ghost sub = settings@.subrange(0, i + 1);
        assert(sub.drop_last() =~= settings@.subrange(0, i as int));
        assert(sub.last() == settings@[i as int]);
        let skip = skip_globals && is_global_flag_name(globals, settings[i].0.as_str());
        if !skip {
            match format_flag_value(settings[i].0.as_str(), &settings[i].1, flags, globals) {
                Some(t) => {
                    parts.push(t);
                    assert(views(parts@) =~= before.push(t@));
                },
                None => {},
            }
        }
        assert(views(parts@) =~= start + flag_words(sub, flags@, globals@, skip_globals));
        i = i + 1;
    }
    assert(settings@.subrange(0, settings@.len() as int) =~= settings@);
}

/// Push the process arguments of `settings` onto `parts`.
fn push_flag_parts(
    parts: &mut Vec<String>,
    settings: &FlagSettings,
    flags: &Vec<FlagSpec>,
    globals: &Vec<FlagSpec>,
    skip_globals: bool,
)
    ensures
        views(final(parts)@) == views(old(parts)@) + flag_part_words(
            settings@,
            flags@,
            globals@,
            skip_globals,
        ),
{
    let ghost start = views(parts@);
    let mut i: usize = 0;
    while i < settings.len()
        invariant
            i <= settings.len(),
            views(parts@) == start + flag_part_words(
                settings@.subrange(0, i as int),
                flags@,
                globals@,
                skip_globals,
            ),
        decreases settings.len() - i,
    {
        let ghost before = views(parts@);
        let ghost sub = settings@.subrange(0, i + 1);
        assert(sub.drop_last() =~= settings@.subrange(0, i as int));
        assert(sub.last() == settings@[i as int]);
        let skip = skip_globals && is_global_flag_name(globals, settings[i].0.as_str());
        if !skip {
            format_flag_parts(settings[i].0.as_str(), &settings[i].1, flags, globals, parts);
        }
        assert(views(parts@) =~= start + flag_part_words(sub, flags@, globals@, skip_globals));
        i = i + 1;
    }
    assert(settings@.subrange(0, settings@.len() as int) =~= settings@);
}

/// Resolve the effective arg value, using live preview state when applicable.
pub fn effective_arg_value<'a>(index: usize, arg: &'a ArgValue, preview: &'a LiveArgPreview<'a>) -> (r:
    &'a str)
    ensures
        r@ == effective_value(index as int, *arg, *preview),
{
    if preview.choice_select_index == Some(index) {
        preview.choice_select_text
    } else if preview.is_editing && preview.editing_index == index {
        preview.editing_text
    } else {
        arg.value.as_str()
    }
}

proof fn lemma_walk_step(cmd: CommandSpec, path: Seq<Seq<char>>, i: int)
    requires
        0 <= i < path.len(),
    ensures
        walk(cmd, path.take(i + 1)) == (match find_subcommand_index(
            walk(cmd, path.take(i)),
            path[i],
        ) {
            Some(k) => walk(cmd, path.take(i)).subcommands@[k],
            None => walk(cmd, path.take(i)),
        }),
{
    assert(path.take(i + 1).drop_last() =~= path.take(i));
    assert(path.take(i + 1).last() == path[i]);
}

proof fn lemma_level_words_step(
    spec: CliSpec,
    levels: Seq<(String, FlagSettings)>,
    path: Seq<Seq<char>>,
    i: int,
    parts: bool,
)
    requires
        0 <= i < path.len(),
    ensures
        level_words(spec, levels, path, (i + 1) as nat, parts) == level_words(
            spec,
            levels,
            path,
            i as nat,
            parts,
        ) + seq![path[i]] + match find_subcommand_index(walk(spec.cmd, path.take(i)), path[i]) {
            Some(k) => match store_get(levels, join_words(path.take(i + 1))) {
                Some(settings) => if parts {
                    flag_part_words(
                        settings,
                        walk(spec.cmd, path.take(i)).subcommands@[k].flags@,
                        spec.cmd.flags@,
                        true,
                    )
                } else {
                    flag_words(
                        settings,
                        walk(spec.cmd, path.take(i)).subcommands@[k].flags@,
                        spec.cmd.flags@,
                        true,
                    )
                },
                None => Seq::empty(),
            },
            None => Seq::empty(),
        },
{
    assert(((i + 1) as nat - 1) as nat == i as nat);
}

/// Walk the path, pushing each name and (for matched subcommands) the words
/// of that level's non-global settings.
#[verifier::rlimit(40)]
fn push_level_words(
    spec: &CliSpec,
    flag_values: &FlagStore,
    command_path: &Vec<String>,
    parts: &mut Vec<String>,
    as_parts: bool,
)
    ensures
        views(final(parts)@) == views(old(parts)@) + level_words(
            *spec,
            flag_values.levels@,
            views(command_path@),
            command_path@.len() as nat,
            as_parts,
        ),
{
    let ghost start = views(parts@);
    let ghost path = views(command_path@);
    let mut cmd: &CommandSpec = &spec.cmd;
    let mut key = String::new();
    let mut i: usize = 0;
    assert(path.take(0) =~= Seq::<Seq<char>>::empty());
    while i < command_path.len()
        invariant
            i <= command_path.len(),
            path == views(command_path@),
            *cmd == walk(spec.cmd, path.take(i as int)),
            i > 0 ==> key@ == join_words(path.take(i as int)),
            i == 0 ==> key@.len() == 0,
            views(parts@) == start + level_words(
                *spec,
                flag_values.levels@,
                path,
                i as nat,
                as_parts,
            ),
        decreases command_path.len() - i,
    {
        let ghost prev = *cmd;
        let name = &command_path[i];
        assert(name@ == path[i as int]);
        // Key of this level: the names so far joined by spaces.
        if i > 0 {
            string_push(&mut key, ' ');
        }
        push_all(&mut key, name.as_str());
        proof {
            assert(path.take(i + 1) =~= path.take(i as int).push(path[i as int]));
            if i > 0 {
                crate::text::lemma_join_push(path.take(i as int), path[i as int]);
            } else {
                assert(path.take(1) =~= seq![path[0]]);
            }
        }
        assert(key@ == join_words(path.take(i + 1)));
        let ghost before = views(parts@);
        parts.push(string_of(name.as_str()));
        assert(views(parts@) =~= before.push(path[i as int]));
        let ghost mid = views(parts@);
        proof {
            lemma_walk_step(spec.cmd, path, i as int);
        }
        assert(name@ == path[i as int]);
        let ghost found = find_subcommand_index(prev, path[i as int]);
        match cmd.find_subcommand(name.as_str()) {
            Some(sub) => {
                assert(*sub == prev.subcommands@[found->0]);
                cmd = sub;
                match flag_values.get(key.as_str()) {
                    Some(level) => {
                        if as_parts {
                            push_flag_parts(parts, level, &cmd.flags, &spec.cmd.flags, true);
                            assert(views(parts@) == mid + flag_part_words(
                                store_get(flag_values.levels@, join_words(path.take(i + 1)))->0,
                                prev.subcommands@[found->0].flags@,
                                spec.cmd.flags@,
                                true,
                            ));
                        } else {
                            push_flag_words(parts, level, &cmd.flags, &spec.cmd.flags, true);
                            assert(views(parts@) == mid + flag_words(
                                store_get(flag_values.levels@, join_words(path.take(i + 1)))->0,
                                prev.subcommands@[found->0].flags@,
                                spec.cmd.flags@,
                                true,
                            ));
                        }
                    },
                    None => {
                        assert(views(parts@) =~= mid + Seq::<Seq<char>>::empty());
                    },
                }
            },
            None => {
                assert(views(parts@) =~= mid + Seq::<Seq<char>>::empty());
            },
        }
        proof {
            lemma_level_words_step(*spec, flag_values.levels@, path, i as int, as_parts);
        }
        assert(views(parts@) =~= start + level_words(
            *spec,
            flag_values.levels@,
            path,
            (i + 1) as nat,
            as_parts,
        ));
        i = i + 1;
    }
}

/// The key of the level of the first `k` names of `path`.
fn prefix_key(path: &Vec<String>, k: usize) -> (r: String)
    requires
        k <= path@.len(),
    ensures
        r@ == join_words(views(path@).take(k as int)),
{
    let mut names: Vec<String> = Vec::new();
    let mut i: usize = 0;
    while i < k
        invariant
            i <= k <= path@.len(),
            views(names@) == views(path@).take(i as int),
        decreases k - i,
    {
        let ghost before = views(names@);
        names.push(string_of(path[i].as_str()));
        assert(views(names@) =~= before.push(path@[i as int]@));
        assert(views(path@).take(i + 1) =~= views(path@).take(i as int).push(path@[i as int]@));
        i = i + 1;
    }
    join_with_spaces(&names)
}

/// The value of the global flag `name` at the deepest level of the path
/// where it is set, or `root_value` when it is set at none.
fn deepest_global_value(
    flag_values: &FlagStore,
    command_path: &Vec<String>,
    name: &str,
    root_value: &FlagValue,
) -> (r: FlagValue)
    ensures
        r == deepest_value(
            flag_values.levels@,
            views(command_path@),
            command_path@.len() as nat,
            name@,
            *root_value,
        ),
{
    let ghost p = views(command_path@);
    let ghost lv = flag_values.levels@;
    let mut k: usize = command_path.len();
    while k > 0
        invariant
            k <= command_path@.len(),
            p == views(command_path@),
            lv == flag_values.levels@,
            deepest_value(lv, p, command_path@.len() as nat, name@, *root_value) == deepest_value(
                lv,
                p,
                k as nat,
                name@,
                *root_value,
            ),
        decreases k,
    {
        let key = prefix_key(command_path, k);
        match flag_values.get(key.as_str()) {
            Some(settings) => {
                match crate::flag_store::setting_position(settings, name) {
                    Some(j) => {
                        if value_is_set(&settings[j].1) {
                            return settings[j].1.copy_value();
                        }
                    },
                    None => {},
                }
            },
            None => {},
        }
        k = k - 1;
    }
    root_value.copy_value()
}

/// Push the words of the root's settings (see `root_words`) onto `parts`.
fn push_root_words(
    spec: &CliSpec,
    flag_values: &FlagStore,
    command_path: &Vec<String>,
    parts: &mut Vec<String>,
    as_parts: bool,
)
    ensures
        views(final(parts)@) == views(old(parts)@) + root_words(
            *spec,
            flag_values.levels@,
            views(command_path@),
            as_parts,
        ),
{
    let root_key = String::new();
    assert(root_key@ =~= Seq::<char>::empty());
    let settings = match flag_values.get(root_key.as_str()) {
        Some(root) => root,
        None => {
            return ;
        },
    };
    let ghost start = views(parts@);
    let ghost lv = flag_values.levels@;
    let ghost p = views(command_path@);
    let mut i: usize = 0;
    while i < settings.len()
        invariant
            i <= settings@.len(),
            lv == flag_values.levels@,
            p == views(command_path@),
            views(parts@) == start + root_flag_words(settings@.subrange(0, i as int), *spec, lv, p, as_parts),
        decreases settings.len() - i,
    {
        let ghost before = views(parts@);
        let ghost sub = settings@.subrange(0, i + 1);
        assert(sub.drop_last() =~= settings@.subrange(0, i as int));
        assert(sub.last() == settings@[i as int]);
        let name = settings[i].0.as_str();
        let value = if is_global_flag_name(&spec.cmd.flags, name) {
            deepest_global_value(flag_values, command_path, name, &settings[i].1)
        } else {
            settings[i].1.copy_value()
        };
        assert(value == resolved_value(*spec, lv, p, settings@[i as int].0@, settings@[i as int].1));
        if as_parts {
            format_flag_parts(name, &value, &spec.cmd.flags, &spec.cmd.flags, parts);
        } else {
            match format_flag_value(name, &value, &spec.cmd.flags, &spec.cmd.flags) {
                Some(t) => {
                    parts.push(t);
                    assert(views(parts@) =~= before.push(t@));
                },
                None => {},
            }
        }
        assert(views(parts@) =~= start + root_flag_words(sub, *spec, lv, p, as_parts));
        i = i + 1;
    }
    assert(settings@.subrange(0, settings@.len() as int) =~= settings@);
}

/// Build the full command string from the current state (for display).
/// Values containing spaces are quoted.
pub fn build_command(
    spec: &CliSpec,
    flag_values: &FlagStore,
    command_path: &Vec<String>,
    arg_values: &Vec<ArgValue>,
    preview: &LiveArgPreview,
) -> (r: String)
    ensures
        r@ == join_words(
            display_words(*spec, flag_values.levels@, views(command_path@), arg_values@, *preview),
        ),
{
    let mut parts: Vec<String> = Vec::new();
    if spec.bin.unicode_len() == 0 {
        parts.push(string_of(spec.name.as_str()));
    } else {
        parts.push(string_of(spec.bin.as_str()));
    }
    assert(views(parts@) =~= seq![bin_of(*spec)]);
    push_root_words(spec, flag_values, command_path, &mut parts, false);
    push_level_words(spec, flag_values, command_path, &mut parts, false);
    let ghost mid = views(parts@);
    let mut i: usize = 0;
    while i < arg_values.len()
        invariant
            i <= arg_values.len(),
            views(parts@) == mid + arg_words(arg_values@, *preview, i as nat),
        decreases arg_values.len() - i,
    {
        let ghost before = views(parts@);
        let value = effective_arg_value(i, &arg_values[i], preview);
        if value.unicode_len() > 0 {
            if contains_char(value, ' ') {
                let mut q = String::new();
                string_push(&mut q, '"');
                push_all(&mut q, value);
                string_push(&mut q, '"');
                assert(q@ =~= seq!['"'] + value@ + seq!['"']);
                parts.push(q);
                assert(views(parts@) =~= before.push(seq!['"'] + value@ + seq!['"']));
            } else {
                parts.push(string_of(value));
                assert(views(parts@) =~= before.push(value@));
            }
        }
        assert(views(parts@) =~= mid + arg_words(arg_values@, *preview, (i + 1) as nat));
        i = i + 1;
    }
    join_with_spaces(&parts)
}

/// Build the command as a list of separate argument strings (for process execution).
/// Unlike `build_command()`, this does NOT quote values — each element is a separate arg.
pub fn build_command_parts(
    spec: &CliSpec,
    flag_values: &FlagStore,
    command_path: &Vec<String>,
    arg_values: &Vec<ArgValue>,
) -> (r: Vec<String>)
    ensures
        views(r@) == part_words(*spec, flag_values.levels@, views(command_path@), arg_values@),
{
    let mut parts: Vec<String> = if spec.bin.unicode_len() == 0 {
        split_whitespace_words(spec.name.as_str())
    } else {
        split_whitespace_words(spec.bin.as_str())
    };
    push_root_words(spec, flag_values, command_path, &mut parts, true);
    push_level_words(spec, flag_values, command_path, &mut parts, true);
    let ghost mid = views(parts@);
    let mut i: usize = 0;
    while i < arg_values.len()
        invariant
            i <= arg_values.len(),
            views(parts@) == mid + arg_parts(arg_values@, i as nat),
        decreases arg_values.len() - i,
    {
        let ghost before = views(parts@);
        if arg_values[i].value.unicode_len() > 0 {
            parts.push(string_of(arg_values[i].value.as_str()));
            assert(views(parts@) =~= before.push(arg_values@[i as int].value@));
        }
        assert(views(parts@) =~= mid + arg_parts(arg_values@, (i + 1) as nat));
        i = i + 1;
    }
    parts
}


// ── Process arguments against the displayed command ────────────────

/// `p` joined by spaces reads as `d` joined by spaces, and one is empty
/// exactly when the other is.
pub open spec fn same_text(p: Seq<Seq<char>>, d: Seq<Seq<char>>) -> bool {
    &&& join_words(p) == join_words(d)
    &&& (p.len() == 0 <==> d.len() == 0)
}

proof fn lemma_join_append(a: Seq<Seq<char>>, b: Seq<Seq<char>>)
    requires
        a.len() > 0,
        b.len() > 0,
    ensures
        join_words(a + b) == join_words(a) + seq![' '] + join_words(b),
    decreases b.len(),
{
    if b.len() == 1 {
        assert((a + b).drop_last() =~= a);
    } else {
        lemma_join_append(a, b.drop_last());
        assert((a + b).drop_last() =~= a + b.drop_last());
        assert(join_words(a + b) == join_words(a + b.drop_last()) + seq![' '] + b.last());
        assert(join_words(b) == join_words(b.drop_last()) + seq![' '] + b.last());
    }
}

proof fn lemma_same_text_append(p1: Seq<Seq<char>>, d1: Seq<Seq<char>>, p2: Seq<Seq<char>>, d2: Seq<Seq<char>>)
    requires
        same_text(p1, d1),
        same_text(p2, d2),
    ensures
        same_text(p1 + p2, d1 + d2),
{
    if p1.len() == 0 {
        assert(p1 + p2 =~= p2);
        assert(d1 + d2 =~= d2);
    } else if p2.len() == 0 {
        assert(p1 + p2 =~= p1);
        assert(d1 + d2 =~= d1);
    } else {
        lemma_join_append(p1, p2);
        lemma_join_append(d1, d2);
    }
}

/// A string value holding a space (the display quotes it).
pub open spec fn spaced(v: FlagValue) -> bool {
    v matches FlagValue::String(t) && has_char(t@, ' ')
}

/// No setting stored on any level holds a string value with a space.
pub open spec fn no_spaced_values(levels: Seq<(String, FlagSettings)>) -> bool {
    forall|i: int, j: int| 0 <= i < levels.len() && 0 <= j < levels[i].1@.len() ==> !spaced(#[trigger] levels[i].1@[j].1)
}

/// The display of one setting as a list of words.
pub open spec fn shown(t: Option<Seq<char>>) -> Seq<Seq<char>> {
    match t {
        Some(w) => seq![w],
        None => Seq::empty(),
    }
}

proof fn lemma_setting_same_text(name: Seq<char>, v: FlagValue, flags: Seq<FlagSpec>, globals: Seq<FlagSpec>)
    requires
        !spaced(v),
    ensures
        same_text(format_flag_parts_spec(name, v, flags, globals), shown(format_flag_value_spec(name, v, flags, globals))),
{
    lemma_flag_parts_join(name, v, flags, globals);
    match format_flag_value_spec(name, v, flags, globals) {
        Some(t) => {
            assert(join_words(seq![t]) == t);
            let f = resolve_flag(name, flags, globals)->0;
            match v {
                FlagValue::Count(n) => {
                    if f.short@.len() == 0 {
                        assert(repeat_word(seq!['-', '-'] + f.long@[0]@, n as nat).len() > 0);
                    }
                },
                _ => {},
            }
        },
        None => {},
    }
}

proof fn lemma_flag_words_same_text(
    settings: Seq<(String, FlagValue)>,
    flags: Seq<FlagSpec>,
    globals: Seq<FlagSpec>,
    skip_globals: bool,
)
    requires
        forall|j: int| 0 <= j < settings.len() ==> !spaced(#[trigger] settings[j].1),
    ensures
        same_text(
            flag_part_words(settings, flags, globals, skip_globals),
            flag_words(settings, flags, globals, skip_globals),
        ),
    decreases settings.len(),
{
    if settings.len() == 0 {
    } else {
        let last = settings.last();
        assert(!spaced(settings[settings.len() - 1].1));
        lemma_flag_words_same_text(settings.drop_last(), flags, globals, skip_globals);
        if skip_globals && is_global_name(globals, last.0@) {
            assert(flag_part_words(settings, flags, globals, skip_globals) =~= flag_part_words(settings.drop_last(), flags, globals, skip_globals));
            assert(flag_words(settings, flags, globals, skip_globals) =~= flag_words(settings.drop_last(), flags, globals, skip_globals));
        } else {
            lemma_setting_same_text(last.0@, last.1, flags, globals);
            assert(flag_words(settings, flags, globals, skip_globals) == flag_words(settings.drop_last(), flags, globals, skip_globals) + shown(format_flag_value_spec(last.0@, last.1, flags, globals)));
            lemma_same_text_append(
                flag_part_words(settings.drop_last(), flags, globals, skip_globals),
                flag_words(settings.drop_last(), flags, globals, skip_globals),
                format_flag_parts_spec(last.0@, last.1, flags, globals),
                shown(format_flag_value_spec(last.0@, last.1, flags, globals)),
            );
        }
    }
}


proof fn lemma_stored_not_spaced(levels: Seq<(String, FlagSettings)>, key: Seq<char>)
    requires
        no_spaced_values(levels),
    ensures
        store_get(levels, key) matches Some(t) ==> forall|j: int|
            0 <= j < t.len() ==> !spaced(#[trigger] t[j].1),
{
    lemma_level_index_props(levels, key);
}

proof fn lemma_deepest_not_spaced(
    levels: Seq<(String, FlagSettings)>,
    path: Seq<Seq<char>>,
    k: nat,
    name: Seq<char>,
    v: FlagValue,
)
    requires
        no_spaced_values(levels),
        !spaced(v),
    ensures
        !spaced(deepest_value(levels, path, k, name, v)),
    decreases k,
{
    if k > 0 {
        let key = join_words(path.take(k as int));
        lemma_stored_not_spaced(levels, key);
        match store_get(levels, key) {
            Some(t) => {
                lemma_setting_index_props(t, name);
            },
            None => {},
        }
        lemma_deepest_not_spaced(levels, path, (k - 1) as nat, name, v);
    }
}

proof fn lemma_root_flag_words_same_text(
    settings: Seq<(String, FlagValue)>,
    spec: CliSpec,
    levels: Seq<(String, FlagSettings)>,
    path: Seq<Seq<char>>,
)
    requires
        no_spaced_values(levels),
        forall|j: int| 0 <= j < settings.len() ==> !spaced(#[trigger] settings[j].1),
    ensures
        same_text(
            root_flag_words(settings, spec, levels, path, true),
            root_flag_words(settings, spec, levels, path, false),
        ),
    decreases settings.len(),
{
    if settings.len() > 0 {
        let last = settings.last();
        assert(!spaced(settings[settings.len() - 1].1));
        let v = resolved_value(spec, levels, path, last.0@, last.1);
        lemma_deepest_not_spaced(levels, path, path.len(), last.0@, last.1);
        lemma_root_flag_words_same_text(settings.drop_last(), spec, levels, path);
        lemma_setting_same_text(last.0@, v, spec.cmd.flags@, spec.cmd.flags@);
        lemma_same_text_append(
            root_flag_words(settings.drop_last(), spec, levels, path, true),
            root_flag_words(settings.drop_last(), spec, levels, path, false),
            format_flag_parts_spec(last.0@, v, spec.cmd.flags@, spec.cmd.flags@),
            shown(format_flag_value_spec(last.0@, v, spec.cmd.flags@, spec.cmd.flags@)),
        );
    }
}

proof fn lemma_level_words_same_text(
    spec: CliSpec,
    levels: Seq<(String, FlagSettings)>,
    path: Seq<Seq<char>>,
    n: nat,
)
    requires
        no_spaced_values(levels),
    ensures
        same_text(level_words(spec, levels, path, n, true), level_words(spec, levels, path, n, false)),
    decreases n,
{
    if n > 0 && n <= path.len() {
        let prev = walk(spec.cmd, path.take(n - 1));
        let name = path[n - 1];
        lemma_level_words_same_text(spec, levels, path, (n - 1) as nat);
        assert(join_words(seq![name]) == name);
        lemma_same_text_append(
            level_words(spec, levels, path, (n - 1) as nat, true),
            level_words(spec, levels, path, (n - 1) as nat, false),
            seq![name],
            seq![name],
        );
        let key = join_words(path.take(n as int));
        lemma_stored_not_spaced(levels, key);
        match find_subcommand_index(prev, name) {
            Some(i) => match store_get(levels, key) {
                Some(t) => {
                    lemma_flag_words_same_text(t, prev.subcommands@[i].flags@, spec.cmd.flags@, true);
                    lemma_same_text_append(
                        level_words(spec, levels, path, (n - 1) as nat, true) + seq![name],
                        level_words(spec, levels, path, (n - 1) as nat, false) + seq![name],
                        flag_part_words(t, prev.subcommands@[i].flags@, spec.cmd.flags@, true),
                        flag_words(t, prev.subcommands@[i].flags@, spec.cmd.flags@, true),
                    );
                },
                None => {
                    assert(level_words(spec, levels, path, n, true) =~= level_words(spec, levels, path, (n - 1) as nat, true) + seq![name]);
                    assert(level_words(spec, levels, path, n, false) =~= level_words(spec, levels, path, (n - 1) as nat, false) + seq![name]);
                },
            },
            None => {
                assert(level_words(spec, levels, path, n, true) =~= level_words(spec, levels, path, (n - 1) as nat, true) + seq![name]);
                assert(level_words(spec, levels, path, n, false) =~= level_words(spec, levels, path, (n - 1) as nat, false) + seq![name]);
            },
        }
    }
}

proof fn lemma_args_same(args: Seq<ArgValue>, preview: LiveArgPreview, n: nat)
    requires
        preview.choice_select_index is None,
        !preview.is_editing,
        forall|i: int| 0 <= i < args.len() ==> !has_char(#[trigger] args[i].value@, ' '),
    ensures
        arg_parts(args, n) == arg_words(args, preview, n),
    decreases n,
{
    if n > 0 && n <= args.len() {
        assert(!has_char(args[n - 1].value@, ' '));
        lemma_args_same(args, preview, (n - 1) as nat);
    }
}

/// A name whose only whitespace is single spaces between its words: it
/// starts and ends with a non-whitespace character.
pub open spec fn plain_name(s: Seq<char>) -> bool {
    &&& s.len() > 0
    &&& !unicode_white_space(s[0])
    &&& forall|i: int|
        0 <= i < s.len() && unicode_white_space(#[trigger] s[i]) ==> s[i] == ' ' && i + 1 < s.len()
            && !unicode_white_space(s[i + 1])
}

proof fn lemma_split_state_plain(p: Seq<char>)
    requires
        p.len() > 0,
        !unicode_white_space(p[0]),
        forall|i: int|
            0 <= i < p.len() && unicode_white_space(#[trigger] p[i]) ==> p[i] == ' ' && (i + 1
                < p.len() ==> !unicode_white_space(p[i + 1])),
    ensures
        !unicode_white_space(p.last()) ==> split_state(p).1.len() > 0 && join_words(
            split_state(p).0.push(split_state(p).1),
        ) == p,
        unicode_white_space(p.last()) ==> split_state(p).1.len() == 0 && split_state(p).0.len() > 0
            && join_words(split_state(p).0) + seq![' '] == p,
    decreases p.len(),
{
    let c = p.last();
    if p.len() == 1 {
        assert(split_state(p.drop_last()) == (Seq::<Seq<char>>::empty(), Seq::<char>::empty()));
        assert(split_state(p).1 =~= seq![c]);
        assert(seq![c] =~= p);
    } else {
        let q = p.drop_last();
        assert forall|i: int|
            0 <= i < q.len() && unicode_white_space(#[trigger] q[i]) implies q[i] == ' ' && (i + 1
                < q.len() ==> !unicode_white_space(q[i + 1])) by {
            assert(q[i] == p[i]);
            assert(unicode_white_space(p[i]));
            if i + 1 < q.len() {
                assert(q[i + 1] == p[i + 1]);
            }
        }
        lemma_split_state_plain(q);
        let (w, cur) = split_state(q);
        let n = p.len() - 1;
        assert(q.last() == p[n - 1]);
        if unicode_white_space(c) {
            assert(unicode_white_space(p[n]));
            if unicode_white_space(p[n - 1]) {
                assert(!unicode_white_space(p[n]));
            }
            assert(p =~= q + seq![' ']);
        } else if unicode_white_space(q.last()) {
            assert(split_state(p).1 =~= seq![c]);
            assert(w.push(seq![c]).drop_last() =~= w);
            assert(p =~= (join_words(w) + seq![' ']) + seq![c]);
        } else {
            let cur2 = cur.push(c);
            assert(split_state(p) == (w, cur2));
            if w.len() == 0 {
                assert(w.push(cur) =~= seq![cur]);
                assert(w.push(cur2) =~= seq![cur2]);
                assert(p =~= q.push(c));
            } else {
                assert(w.push(cur).drop_last() =~= w);
                assert(w.push(cur2).drop_last() =~= w);
                assert(join_words(w.push(cur)) == join_words(w) + seq![' '] + cur);
                assert(join_words(w.push(cur2)) == join_words(w) + seq![' '] + cur2);
                assert(p =~= q.push(c));
                assert(join_words(w) + seq![' '] + cur2 =~= (join_words(w) + seq![' '] + cur).push(c));
            }
        }
    }
}

proof fn lemma_plain_name_same_text(s: Seq<char>)
    requires
        plain_name(s),
    ensures
        same_text(split_words(s), seq![s]),
{
    lemma_split_state_plain(s);
    let n = s.len() - 1;
    assert(s.last() == s[n]);
    if unicode_white_space(s[n]) {
        assert(n + 1 < s.len());
    }
    assert(join_words(seq![s]) == s);
}

/// The process arguments joined by spaces read exactly as the displayed
/// command, when the program name has no whitespace but single spaces
/// between words, no flag value and no argument value holds a space, and no
/// argument is being edited (the display quotes values with spaces; the
/// arguments split the program name at any whitespace).
pub proof fn lemma_parts_join_display(
    spec: CliSpec,
    levels: Seq<(String, FlagSettings)>,
    path: Seq<Seq<char>>,
    args: Seq<ArgValue>,
    preview: LiveArgPreview,
)
    requires
        plain_name(bin_of(spec)),
        no_spaced_values(levels),
        forall|i: int| 0 <= i < args.len() ==> !has_char(#[trigger] args[i].value@, ' '),
        preview.choice_select_index is None,
        !preview.is_editing,
    ensures
        join_words(part_words(spec, levels, path, args)) == join_words(
            display_words(spec, levels, path, args, preview),
        ),
{
    lemma_plain_name_same_text(bin_of(spec));
    lemma_stored_not_spaced(levels, Seq::empty());
    match store_get(levels, Seq::empty()) {
        Some(t) => lemma_root_flag_words_same_text(t, spec, levels, path),
        None => {},
    }
    lemma_level_words_same_text(spec, levels, path, path.len());
    lemma_args_same(args, preview, args.len());
    let a = arg_parts(args, args.len());
    lemma_same_text_append(
        split_words(bin_of(spec)),
        seq![bin_of(spec)],
        root_words(spec, levels, path, true),
        root_words(spec, levels, path, false),
    );
    lemma_same_text_append(
        split_words(bin_of(spec)) + root_words(spec, levels, path, true),
        seq![bin_of(spec)] + root_words(spec, levels, path, false),
        level_words(spec, levels, path, path.len(), true),
        level_words(spec, levels, path, path.len(), false),
    );
    assert(same_text(a, a));
    lemma_same_text_append(
        split_words(bin_of(spec)) + root_words(spec, levels, path, true) + level_words(
            spec,
            levels,
            path,
            path.len(),
            true,
        ),
        seq![bin_of(spec)] + root_words(spec, levels, path, false) + level_words(
            spec,
            levels,
            path,
            path.len(),
            false,
        ),
        a,
        a,
    );
}


// ── Shell words of the displayed command ───────────────────────────

/// The state of reading shell words: the finished words, the word being
/// read, whether inside double quotes, and whether a word has started.
pub type ShellState = (Seq<Seq<char>>, Seq<char>, bool, bool);

/// Read one character as a POSIX shell splits words, for text without
/// backslashes or single quotes: a double quote opens or closes a quoted
/// part (and starts a word), a space outside quotes ends the word, any other
/// character belongs to the word.
pub open spec fn shell_step(st: ShellState, c: char) -> ShellState {
    if c == '"' {
        (st.0, st.1, !st.2, true)
    } else if c == ' ' && !st.2 {
        if st.3 {
            (st.0.push(st.1), Seq::empty(), false, false)
        } else {
            (st.0, st.1, false, false)
        }
    } else {
        (st.0, st.1.push(c), st.2, true)
    }
}

/// The state after reading `s`.
pub open spec fn shell_state(s: Seq<char>) -> ShellState
    decreases s.len(),
{
    if s.len() == 0 {
        (Seq::empty(), Seq::empty(), false, false)
    } else {
        shell_step(shell_state(s.drop_last()), s.last())
    }
}

/// The words a shell reads from `s`.
pub open spec fn shell_words(s: Seq<char>) -> Seq<Seq<char>> {
    let st = shell_state(s);
    if st.3 {
        st.0.push(st.1)
    } else {
        st.0
    }
}

proof fn lemma_shell_chunk(s: Seq<char>, t: Seq<char>)
    requires
        forall|i: int| 0 <= i < t.len() ==> #[trigger] t[i] != '"',
        shell_state(s).2 || forall|i: int| 0 <= i < t.len() ==> #[trigger] t[i] != ' ',
    ensures
        shell_state(s + t) == (shell_state(s).0, shell_state(s).1 + t, shell_state(s).2, shell_state(s).3 || t.len()
            > 0),
    decreases t.len(),
{
    if t.len() == 0 {
        assert(s + t =~= s);
        assert(shell_state(s).1 + t =~= shell_state(s).1);
    } else {
        let u = t.drop_last();
        assert forall|i: int| 0 <= i < u.len() implies #[trigger] u[i] != '"' by {
            assert(u[i] == t[i]);
        }
        if !shell_state(s).2 {
            assert forall|i: int| 0 <= i < u.len() implies #[trigger] u[i] != ' ' by {
                assert(u[i] == t[i]);
            }
        }
        lemma_shell_chunk(s, u);
        assert((s + t).drop_last() =~= s + u);
        assert((s + t).last() == t[t.len() - 1]);
        assert(shell_state(s).1 + t =~= (shell_state(s).1 + u).push(t.last()));
    }
}

/// A word for the shell: not empty, without spaces or double quotes.
pub open spec fn plain_word(w: Seq<char>) -> bool {
    &&& w.len() > 0
    &&& forall|i: int| 0 <= i < w.len() ==> #[trigger] w[i] != ' ' && w[i] != '"'
}

/// The displayed text of a string flag reads, as shell words, exactly as its
/// process arguments: the flag and its value, one word even when the value
/// holds spaces (the display quotes it). This holds for a flag name that is
/// a plain word and a value without double quotes.
pub proof fn lemma_string_flag_display_splits_to_parts(f: FlagSpec, v: String)
    requires
        flag_prefix(f) matches Some(p) && plain_word(p),
        !has_char(v@, '"'),
    ensures
        v@.len() > 0 ==> display_token(f, FlagValue::String(v)) is Some,
        display_token(f, FlagValue::String(v)) matches Some(t) ==> shell_words(t) == part_tokens(
            f,
            FlagValue::String(v),
        ),
{
    let p = flag_prefix(f)->0;
    if v@.len() > 0 {
        let e = Seq::<char>::empty();
        assert forall|i: int| 0 <= i < p.len() implies #[trigger] p[i] != '"' && p[i] != ' ' by {}
        assert forall|i: int| 0 <= i < v@.len() implies #[trigger] v@[i] != '"' by {}
        lemma_shell_chunk(e, p);
        assert(e + p =~= p);
        assert(shell_state(p) == (Seq::<Seq<char>>::empty(), p, false, true));
        let p1 = p.push(' ');
        assert(p1.drop_last() =~= p);
        assert(shell_state(p1) == (seq![p], Seq::<char>::empty(), false, false));
        if has_char(v@, ' ') {
            let p2 = p1.push('"');
            assert(p2.drop_last() =~= p1);
            assert(shell_state(p2) == (seq![p], Seq::<char>::empty(), true, true));
            lemma_shell_chunk(p2, v@);
            let p3 = p2 + v@;
            assert(shell_state(p3) == (seq![p], v@, true, true)) by {
                assert(Seq::<char>::empty() + v@ =~= v@);
            }
            let p4 = p3.push('"');
            assert(p4.drop_last() =~= p3);
            assert(p4 =~= p + seq![' ', '"'] + v@ + seq!['"']);
            assert(shell_state(p4) == (seq![p], v@, false, true));
            assert(seq![p].push(v@) =~= seq![p, v@]);
        } else {
            assert forall|i: int| 0 <= i < v@.len() implies #[trigger] v@[i] != ' ' by {}
            lemma_shell_chunk(p1, v@);
            let p3 = p1 + v@;
            assert(p3 =~= p + seq![' '] + v@);
            assert(Seq::<char>::empty() + v@ =~= v@);
            assert(seq![p].push(v@) =~= seq![p, v@]);
        }
    }
}

/// The same for a flag setting as the command shows it and as it passes it
/// to the process: a string flag's display text reads back as its process
/// arguments.
pub proof fn lemma_flag_value_splits_to_parts(name: Seq<char>, v: String, flags: Seq<FlagSpec>, globals: Seq<FlagSpec>)
    requires
        resolve_flag(name, flags, globals) matches Some(f) && (flag_prefix(f) matches Some(p) && plain_word(p)),
        !has_char(v@, '"'),
    ensures
        format_flag_value_spec(name, FlagValue::String(v), flags, globals) matches Some(t) ==> shell_words(t)
            == format_flag_parts_spec(name, FlagValue::String(v), flags, globals),
{
    lemma_string_flag_display_splits_to_parts(resolve_flag(name, flags, globals)->0, v);
}

/// A value shown as one display word (quoted when it holds a space) reads
/// back as that value, one shell word.
proof fn lemma_value_word_reads_back(v: Seq<char>)
    requires
        v.len() > 0,
        !has_char(v, '"'),
    ensures
        shell_words(if has_char(v, ' ') {
            seq!['"'] + v + seq!['"']
        } else {
            v
        }) == seq![v],
{
    let e = Seq::<char>::empty();
    assert forall|i: int| 0 <= i < v.len() implies #[trigger] v[i] != '"' by {}
    if has_char(v, ' ') {
        let q = seq!['"'];
        assert(q.drop_last() =~= e);
        assert(shell_state(e) == (Seq::<Seq<char>>::empty(), e, false, false));
        assert(q.last() == '"');
        assert(shell_state(q) == (Seq::<Seq<char>>::empty(), e, true, true));
        lemma_shell_chunk(q, v);
        assert(e + v =~= v);
        let w = (q + v).push('"');
        assert(w.drop_last() =~= q + v);
        assert(w =~= seq!['"'] + v + seq!['"']);
        assert(Seq::<Seq<char>>::empty().push(v) =~= seq![v]);
    } else {
        assert forall|i: int| 0 <= i < v.len() implies #[trigger] v[i] != ' ' by {}
        lemma_shell_chunk(e, v);
        assert(e + v =~= v);
        assert(Seq::<Seq<char>>::empty().push(v) =~= seq![v]);
    }
}

/// With no argument being edited, each argument word of the displayed
/// command reads back, as shell words, as exactly the value passed to the
/// process for it, for values without double quotes.
pub proof fn lemma_arg_words_read_back(args: Seq<ArgValue>, preview: LiveArgPreview, n: nat)
    requires
        preview.choice_select_index is None,
        !preview.is_editing,
        forall|i: int| 0 <= i < args.len() ==> !has_char(#[trigger] args[i].value@, '"'),
    ensures
        arg_words(args, preview, n).len() == arg_parts(args, n).len(),
        forall|k: int|
            0 <= k < arg_words(args, preview, n).len() ==> shell_words(#[trigger] arg_words(args, preview, n)[k])
                == seq![arg_parts(args, n)[k]],
    decreases n,
{
    if n > 0 && n <= args.len() {
        lemma_arg_words_read_back(args, preview, (n - 1) as nat);
        let v = args[n - 1].value@;
        assert(!has_char(v, '"'));
        if v.len() > 0 {
            lemma_value_word_reads_back(v);
        }
    }
}

/// A count flag set to `n` shows as its short name repeated `n` times after
/// one dash (`-vvv` for three), and passes one such argument; with only a
/// long name it passes `--name` `n` times. At zero it shows nothing.
pub proof fn lemma_count_flag_repeats(f: FlagSpec, n: u32)
    ensures
        n == 0 ==> display_token(f, FlagValue::Count(n)) is None && part_tokens(f, FlagValue::Count(n)).len() == 0,
        n > 0 && f.short@.len() > 0 ==> (display_token(f, FlagValue::Count(n)) matches Some(t) && t.len() == n
            + 1 && t[0] == '-' && (forall|i: int| 1 <= i <= n ==> #[trigger] t[i] == f.short@[0]) && part_tokens(
            f,
            FlagValue::Count(n),
        ) == seq![t]),
        n > 0 && f.short@.len() == 0 && f.long@.len() > 0 ==> part_tokens(f, FlagValue::Count(n)).len() == n
            && forall|i: int|
            0 <= i < n ==> #[trigger] part_tokens(f, FlagValue::Count(n))[i] == seq!['-', '-'] + f.long@[0]@,
{
    if n > 0 && f.short@.len() > 0 {
        let t = seq!['-'] + repeat_char(f.short@[0], n as nat);
        assert forall|i: int| 1 <= i <= n implies #[trigger] t[i] == f.short@[0] by {
            assert(t[i] == repeat_char(f.short@[0], n as nat)[i - 1]);
        }
    }
}

} // verus!
