//! The command preview's coloring: which role each word of the built
//! command plays, and where the help bar's theme indicator sits.

use vstd::prelude::*;

use crate::command_builder::{split_whitespace_words, split_words};
use crate::geometry::{sat_add, sat_sub, Rect};
use crate::text::{str_eq, views};

verus! {

/// The role a word of the previewed command is colored by.
#[derive(Debug, Clone, Copy, PartialEq, Eq, Structural)]
pub enum TokenKind {
    /// The binary, when it is the first word.
    Bin,
    /// A word starting with `-`.
    Flag,
    /// The word after a flag that is not itself a flag or a subcommand name.
    FlagValue,
    /// One of the command path's names.
    Subcommand,
    /// Anything else: a positional value.
    Arg,
}

/// Whether `names` holds `w`.
pub open spec fn is_name(names: Seq<Seq<char>>, w: Seq<char>) -> bool {
    names.contains(w)
}

/// Whether a word starts with `-`.
pub open spec fn is_dash(w: Seq<char>) -> bool {
    w.len() > 0 && w[0] == '-'
}

/// The kinds of the first `n` words, and whether the next word is a flag's value.
pub open spec fn kinds_upto(ws: Seq<Seq<char>>, bin: Seq<char>, names: Seq<Seq<char>>, n: nat) -> (
    Seq<TokenKind>,
    bool,
)
    decreases n,
{
    if n == 0 || n > ws.len() {
        (Seq::empty(), false)
    } else {
        let (ks, expect) = kinds_upto(ws, bin, names, (n - 1) as nat);
        let i = n - 1;
        let w = ws[i];
        if i == 0 && w == bin {
            (ks.push(TokenKind::Bin), expect)
        } else if expect {
            (ks.push(TokenKind::FlagValue), false)
        } else if is_dash(w) {
            let next_is_value = i + 1 < ws.len() && !is_dash(ws[i + 1]) && !is_name(names, ws[i + 1]);
            (ks.push(TokenKind::Flag), next_is_value)
        } else if is_name(names, w) {
            (ks.push(TokenKind::Subcommand), expect)
        } else {
            (ks.push(TokenKind::Arg), expect)
        }
    }
}

/// The kind of each whitespace-separated word of `command`: the first word
/// is the binary when it equals `bin`; a `-` word is a flag, and the word
/// after it its value unless that word is a flag or a subcommand name; a
/// subcommand name is a subcommand; the rest are arguments.
pub open spec fn token_kinds(command: Seq<char>, bin: Seq<char>, names: Seq<Seq<char>>) -> Seq<TokenKind> {
    let ws = split_words(command);
    kinds_upto(ws, bin, names, ws.len()).0
}

fn is_name_exec(names: &Vec<String>, w: &str) -> (r: bool)
    ensures
        r == is_name(views(names@), w@),
{
    let mut k: usize = 0;
    while k < names.len()
        invariant
            k <= names.len(),
            forall|j: int| 0 <= j < k ==> names@[j]@ != w@,
        decreases names.len() - k,
    {
        if str_eq(names[k].as_str(), w) {
            assert(views(names@)[k as int] == w@);
            return true;
        }
        k = k + 1;
    }
    assert(!views(names@).contains(w@)) by {
        if views(names@).contains(w@) {
            let j = choose|j: int| 0 <= j < views(names@).len() && views(names@)[j] == w@;
            assert(names@[j]@ == w@);
        }
    }
    false
}

fn is_dash_exec(w: &str) -> (r: bool)
    ensures
        r == is_dash(w@),
{
    w.unicode_len() > 0 && w.get_char(0) == '-'
}

/// The preview's words with the role each is colored by.
pub fn preview_tokens(command: &str, bin: &str, subcommands: &Vec<String>) -> (r: Vec<(String, TokenKind)>)
    ensures
        r@.len() == split_words(command@).len(),
        forall|i: int|
            0 <= i < r@.len() ==> (#[trigger] r@[i]).0@ == split_words(command@)[i] && r@[i].1 == token_kinds(
                command@,
                bin@,
                views(subcommands@),
            )[i],
{
    let words = split_whitespace_words(command);
    let ghost ws = views(words@);
    let ghost names = views(subcommands@);
    let mut out: Vec<(String, TokenKind)> = Vec::new();
    let mut expect = false;
    let mut i: usize = 0;
    while i < words.len()
        invariant
            i <= words@.len(),
            ws == views(words@),
            ws == split_words(command@),
            names == views(subcommands@),
            out@.len() == i,
            kinds_upto(ws, bin@, names, i as nat).0.len() == i,
            expect == kinds_upto(ws, bin@, names, i as nat).1,
            forall|j: int|
                0 <= j < i ==> (#[trigger] out@[j]).0@ == ws[j] && out@[j].1 == kinds_upto(ws, bin@, names, i as nat).0[j],
        decreases words.len() - i,
    {
        let w = words[i].as_str();
        let kind = if i == 0 && str_eq(w, bin) {
            TokenKind::Bin
        } else if expect {
            expect = false;
            TokenKind::FlagValue
        } else if is_dash_exec(w) {
            expect = i + 1 < words.len() && !is_dash_exec(words[i + 1].as_str()) && !is_name_exec(
                subcommands,
                words[i + 1].as_str(),
            );
            TokenKind::Flag
        } else if is_name_exec(subcommands, w) {
            TokenKind::Subcommand
        } else {
            TokenKind::Arg
        };
        out.push((crate::text::string_of(w), kind));
        proof {
            let prev = kinds_upto(ws, bin@, names, i as nat);
            let next = kinds_upto(ws, bin@, names, (i + 1) as nat);
            assert(next.0 == prev.0.push(kind));
            assert forall|j: int| 0 <= j < i + 1 implies (#[trigger] out@[j]).0@ == ws[j] && out@[j].1 == next.0[j] by {
                if j < i {
                    assert(next.0[j] == prev.0[j]);
                }
            }
        }
        i = i + 1;
    }
    out
}

/// Where the help bar's theme indicator "T: [name] " sits in the bar drawn
/// in `area`, for a theme name `name_len` bytes long: right-aligned, one
/// row high.
pub open spec fn indicator_rect(area: Rect, name_len: u16) -> Rect {
    let len = sat_add(name_len, 6);
    let x = sat_add(area.x, sat_sub(area.width, len));
    Rect { x, y: area.y, width: (sat_add(x, len) - x) as u16, height: (sat_add(area.y, 1) - area.y) as u16 }
}

/// The theme indicator's rectangle in the help bar drawn in `area`.
pub fn theme_indicator_rect(area: Rect, name_len: u16) -> (r: Rect)
    ensures
        r == indicator_rect(area, name_len),
        r.wf(),
{
    let len = name_len.saturating_add(6);
    let x = area.x.saturating_add(area.width.saturating_sub(len));
    Rect::new(x, area.y, len, 1)
}

} // verus!
