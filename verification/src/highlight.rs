//! How a list item is shown while filtering: its match state, and its text
//! split into plain and highlighted runs by the positions a fuzzy match hit.

use vstd::prelude::*;

use crate::matching::{fuzzy_match_indices, item_match_state, match_state, nucleo_indices, sorted_unique_of, ScoreTable};
use crate::text::{chars_of, string_from_chars};

verus! {

/// How an item is drawn: selected or not, and whether it (its name, its
/// help) matches the filter.
#[derive(Debug, Clone, Copy, PartialEq, Eq, Structural)]
pub struct ItemContext {
    pub is_selected: bool,
    pub is_match: bool,
    pub name_matches: bool,
    pub help_matches: bool,
}

impl ItemContext {
    /// The context of the item `key` from the panel's match scores: an item
    /// without scores matches (no filter), one with scores matches when any
    /// of them is positive.
    pub fn new(key: &str, is_selected: bool, scores: &ScoreTable) -> (r: ItemContext)
        ensures
            r.is_selected == is_selected,
            (r.is_match, r.name_matches, r.help_matches) == match_state(scores.entries@, key@),
    {
        let (is_match, name_matches, help_matches) = item_match_state(key, scores);
        ItemContext { is_selected, is_match, name_matches, help_matches }
    }
}

/// The runs built from the first `n` match positions of `ids` over `cs`,
/// and the position after the last highlighted character. A position past
/// the text is skipped; the text before a position (after the previous
/// one) becomes a plain run, the character at it a highlighted one.
pub open spec fn runs_upto(cs: Seq<char>, ids: Seq<u32>, n: nat) -> (Seq<(Seq<char>, bool)>, int)
    decreases n,
{
    if n == 0 || n > ids.len() {
        (Seq::empty(), 0)
    } else {
        let (runs, last) = runs_upto(cs, ids, (n - 1) as nat);
        let idx = ids[n - 1] as int;
        if idx >= cs.len() {
            (runs, last)
        } else {
            let before = if last < idx {
                runs.push((cs.subrange(last, idx), false))
            } else {
                runs
            };
            (before.push((seq![cs[idx]], true)), idx + 1)
        }
    }
}

/// The runs of `cs` for the match positions `ids`: without positions, the
/// whole text as one plain run; else the runs of the positions, then the
/// rest of the text (when there is any) as a plain run.
pub open spec fn highlight_runs(cs: Seq<char>, ids: Seq<u32>) -> Seq<(Seq<char>, bool)> {
    if ids.len() == 0 {
        seq![(cs, false)]
    } else {
        let (runs, last) = runs_upto(cs, ids, ids.len());
        if last < cs.len() {
            runs.push((cs.subrange(last, cs.len() as int), false))
        } else {
            runs
        }
    }
}

/// The runs, with each text taken by its view.
pub open spec fn run_views(v: Seq<(String, bool)>) -> Seq<(Seq<char>, bool)> {
    v.map_values(|p: (String, bool)| (p.0@, p.1))
}

/// The last highlighted position stays within the text.
proof fn lemma_runs_last(cs: Seq<char>, ids: Seq<u32>, n: nat)
    ensures
        0 <= runs_upto(cs, ids, n).1 <= cs.len(),
    decreases n,
{
    if n > 0 && n <= ids.len() {
        lemma_runs_last(cs, ids, (n - 1) as nat);
    }
}

/// Split `text` into plain and highlighted runs at the match positions
/// `indices` (positions past the text are skipped).
pub fn highlight_segments(text: &str, indices: &Vec<u32>) -> (r: Vec<(String, bool)>)
    ensures
        run_views(r@) == highlight_runs(text@, indices@),
{
    if indices.len() == 0 {
        let r = vec![(crate::text::string_of(text), false)];
        assert(run_views(r@) =~= highlight_runs(text@, indices@));
        return r;
    }
    let chars = chars_of(text);
    let mut runs: Vec<(String, bool)> = Vec::new();
    let mut last: usize = 0;
    let mut i: usize = 0;
    while i < indices.len()
        invariant
            i <= indices@.len(),
            chars@ == text@,
            last <= chars@.len(),
            run_views(runs@) == runs_upto(text@, indices@, i as nat).0,
            last as int == runs_upto(text@, indices@, i as nat).1,
        decreases indices.len() - i,
    {
        let idx = indices[i] as usize;
        proof {
            lemma_runs_last(text@, indices@, i as nat);
        }
        if idx < chars.len() {
            if last < idx {
                let before = string_from_chars(&slice_chars(&chars, last, idx));
                runs.push((before, false));
            }
            let mut one = String::new();
            crate::text::string_push(&mut one, chars[idx]);
            runs.push((one, true));
            last = idx + 1;
        }
        proof {
            assert(run_views(runs@) =~= runs_upto(text@, indices@, (i + 1) as nat).0);
        }
        i = i + 1;
    }
    if last < chars.len() {
        let after = string_from_chars(&slice_chars(&chars, last, chars.len()));
        runs.push((after, false));
    }
    assert(run_views(runs@) =~= highlight_runs(text@, indices@));
    runs
}

/// The characters of `cs` from `lo` up to (not including) `hi`.
fn slice_chars(cs: &Vec<char>, lo: usize, hi: usize) -> (r: Vec<char>)
    requires
        lo <= hi <= cs@.len(),
    ensures
        r@ == cs@.subrange(lo as int, hi as int),
{
    let mut r: Vec<char> = Vec::new();
    let mut i: usize = lo;
    while i < hi
        invariant
            lo <= i <= hi,
            hi <= cs@.len(),
            r@ == cs@.subrange(lo as int, i as int),
        decreases hi - i,
    {
        r.push(cs[i]);
        assert(cs@.subrange(lo as int, i + 1) =~= cs@.subrange(lo as int, i as int).push(cs@[i as int]));
        i = i + 1;
    }
    r
}

/// The runs of `text` highlighted where `pattern` fuzzy-matches it: the
/// match positions (sorted, each once) split the text; without a match the
/// text is one plain run.
pub fn build_highlighted_text(text: &str, pattern: &str) -> (r: Vec<(String, bool)>)
    ensures
        match nucleo_indices(text@, pattern@) {
            Some(p) => exists|ids: Seq<u32>|
                sorted_unique_of(ids, p.1) && run_views(r@) == highlight_runs(text@, ids),
            None => run_views(r@) == seq![(text@, false)],
        },
{
    let (_score, indices) = fuzzy_match_indices(text, pattern);
    let r = highlight_segments(text, &indices);
    proof {
        if nucleo_indices(text@, pattern@) is None {
            assert(indices@.len() == 0);
            assert(highlight_runs(text@, indices@) =~= seq![(text@, false)]);
        }
    }
    r
}

} // verus!
