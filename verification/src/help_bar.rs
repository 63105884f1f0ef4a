//! The help bar: which key hints it shows in each context, and the padding
//! that pushes the theme indicator to its right edge.
use vstd::prelude::*;

use crate::events::Focus;

verus! {

/// Which key hints the help bar shows: those of the theme picker, a choice
/// box, an inline edit, filter typing, an applied filter, or the focused panel.
#[derive(Debug, Clone, Copy, PartialEq, Eq, Structural)]
pub enum HelpContext {
    ThemePicking,
    Choosing,
    Editing,
    Filtering,
    FilterApplied,
    Panel(Focus),
}

/// A single keyboard shortcut entry: a key (such as `"↑↓"`) and its
/// description (such as `"navigate"`).
#[derive(Debug, Clone, Copy)]
pub struct Keybind<'a> {
    pub key: &'a str,
    pub desc: &'a str,
}

/// The hints as (key, description) text.
pub open spec fn hints(binds: Seq<Keybind>) -> Seq<(Seq<char>, Seq<char>)> {
    binds.map_values(|b: Keybind| (b.key@, b.desc@))
}

/// The hints shown in each context.
pub open spec fn hint_table(context: HelpContext) -> Seq<(Seq<char>, Seq<char>)> {
    match context {
        HelpContext::ThemePicking => seq![("↑↓"@, "navigate"@), ("⏎"@, "confirm"@), ("Esc"@, "cancel"@)],
        HelpContext::Choosing => seq![("↑↓"@, "select"@), ("⏎"@, "confirm"@), ("Esc"@, "keep text"@)],
        HelpContext::Editing => seq![("⏎"@, "confirm"@), ("Esc"@, "cancel"@)],
        HelpContext::Filtering => seq![("⏎"@, "apply"@), ("Esc"@, "clear"@), ("↑↓"@, "navigate"@)],
        HelpContext::FilterApplied => seq![
            ("↑↓/jk"@, "next match"@),
            ("/"@, "new filter"@),
            ("Esc"@, "clear filter"@),
        ],
        HelpContext::Panel(Focus::Commands) => seq![
            ("↑↓"@, "navigate"@),
            ("⇥"@, "next"@),
            ("/"@, "filter"@),
            ("^r"@, "run"@),
            ("q"@, "quit"@),
        ],
        HelpContext::Panel(Focus::Flags) => seq![
            ("⏎/Space"@, "toggle"@),
            ("↑↓"@, "navigate"@),
            ("⇥"@, "next"@),
            ("/"@, "filter"@),
            ("^r"@, "run"@),
            ("q"@, "quit"@),
        ],
        HelpContext::Panel(Focus::Args) => seq![
            ("⏎"@, "edit"@),
            ("↑↓"@, "navigate"@),
            ("⇥"@, "next"@),
            ("/"@, "filter"@),
            ("^r"@, "run"@),
            ("q"@, "quit"@),
        ],
        HelpContext::Panel(Focus::Preview) => seq![("⏎"@, "run"@), ("⇥"@, "next"@), ("q"@, "quit"@)],
    }
}

fn kb(key: &'static str, desc: &'static str) -> (r: Keybind<'static>)
    ensures
        r.key@ == key@,
        r.desc@ == desc@,
{
    Keybind { key, desc }
}

/// The key hints the help bar shows in `context`.
pub fn keybinds(context: HelpContext) -> (r: Vec<Keybind<'static>>)
    ensures
        hints(r@) == hint_table(context),
{
    let r = match context {
        HelpContext::ThemePicking => vec![kb("↑↓", "navigate"), kb("⏎", "confirm"), kb("Esc", "cancel")],
        HelpContext::Choosing => vec![kb("↑↓", "select"), kb("⏎", "confirm"), kb("Esc", "keep text")],
        HelpContext::Editing => vec![kb("⏎", "confirm"), kb("Esc", "cancel")],
        HelpContext::Filtering => vec![kb("⏎", "apply"), kb("Esc", "clear"), kb("↑↓", "navigate")],
        HelpContext::FilterApplied => vec![
            kb("↑↓/jk", "next match"),
            kb("/", "new filter"),
            kb("Esc", "clear filter"),
        ],
        HelpContext::Panel(Focus::Commands) => vec![
            kb("↑↓", "navigate"),
            kb("⇥", "next"),
            kb("/", "filter"),
            kb("^r", "run"),
            kb("q", "quit"),
        ],
        HelpContext::Panel(Focus::Flags) => vec![
            kb("⏎/Space", "toggle"),
            kb("↑↓", "navigate"),
            kb("⇥", "next"),
            kb("/", "filter"),
            kb("^r", "run"),
            kb("q", "quit"),
        ],
        HelpContext::Panel(Focus::Args) => vec![
            kb("⏎", "edit"),
            kb("↑↓", "navigate"),
            kb("⇥", "next"),
            kb("/", "filter"),
            kb("^r", "run"),
            kb("q", "quit"),
        ],
        HelpContext::Panel(Focus::Preview) => vec![kb("⏎", "run"), kb("⇥", "next"), kb("q", "quit")],
    };
    assert(hints(r@) =~= hint_table(context));
    r
}

/// The columns the hints take: a leading space, then each key, a space and
/// its description, two spaces between entries.
pub open spec fn hints_width(binds: Seq<Keybind>) -> nat
    decreases binds.len(),
{
    if binds.len() == 0 {
        1
    } else {
        let last = binds.last();
        hints_width(binds.drop_last()) + (if binds.len() > 1 { 2nat } else { 0nat }) + last.key@.len() + 1
            + last.desc@.len()
    }
}

proof fn lemma_hints_width_grows(binds: Seq<Keybind>, i: int)
    requires
        0 <= i <= binds.len(),
    ensures
        hints_width(binds.take(i)) <= hints_width(binds),
    decreases binds.len() - i,
{
    if i < binds.len() {
        lemma_hints_width_grows(binds, i + 1);
        assert(binds.take(i + 1).drop_last() =~= binds.take(i));
    } else {
        assert(binds.take(i) =~= binds);
    }
}

/// The blank columns between the hints and a theme indicator
/// `indicator_len` columns wide in a bar `area_width` columns wide: what is
/// left of the width, or none when the two do not fit.
pub fn help_padding(area_width: u16, binds: &Vec<Keybind>, indicator_len: u16) -> (r: u16)
    ensures
        r == if hints_width(binds@) + indicator_len >= area_width {
            0
        } else {
            area_width - hints_width(binds@) - indicator_len
        },
{
    let limit: usize = area_width as usize;
    let mut used: usize = 1 + indicator_len as usize;
    let mut i: usize = 0;
    if used > limit {
        proof {
            lemma_hints_width_grows(binds@, 0);
            assert(binds@.take(0) =~= Seq::<Keybind>::empty());
        }
        return 0;
    }
    while i < binds.len()
        invariant
            i <= binds@.len(),
            limit == area_width,
            used == hints_width(binds@.take(i as int)) + indicator_len,
            used <= limit,
        decreases binds@.len() - i,
    {
        let key_len = binds[i].key.unicode_len();
        let desc_len = binds[i].desc.unicode_len();
        assert(binds@.take(i + 1).drop_last() =~= binds@.take(i as int));
        if key_len > limit || desc_len > limit {
            proof {
                lemma_hints_width_grows(binds@, i + 1);
            }
            return 0;
        }
        let gap: usize = if i > 0 { 2 } else { 0 };
        used = used + gap + key_len + 1 + desc_len;
        i = i + 1;
        if used > limit {
            proof {
                lemma_hints_width_grows(binds@, i as int);
            }
            return 0;
        }
    }
    assert(binds@.take(i as int) =~= binds@);
    if used >= limit {
        0
    } else {
        (limit - used) as u16
    }
}

} // verus!
