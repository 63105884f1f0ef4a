//! Fuzzy filtering: nucleo-matcher scores, per-item name/help scores,
//! score tables and filter-aware navigation.

use vstd::prelude::*;

use nucleo_matcher::pattern::{CaseMatching, Normalization, Pattern};
use nucleo_matcher::{Config, Matcher, Utf32Str};

use crate::text::str_eq;
use crate::values::opt_chars;

verus! {

// ── nucleo-matcher ──────────────────────────────────────────────────

/// What `Pattern::score` answers for `pattern` (parsed with smart case and
/// smart normalization) against `text` under the default configuration.
pub uninterp spec fn nucleo_score(text: Seq<char>, pattern: Seq<char>) -> Option<u32>;

/// What `Pattern::indices` answers for `pattern` (parsed with smart case and
/// smart normalization) against `text`: the score and the matched character
/// positions, in the order the pattern's words report them.
pub uninterp spec fn nucleo_indices(text: Seq<char>, pattern: Seq<char>) -> Option<(u32, Seq<u32>)>;

/// Parses `pattern` with `Pattern::parse(.., CaseMatching::Smart,
/// Normalization::Smart)` and calls `Pattern::score` on `text` with a
/// default-configured `Matcher`. The contract names the result; beyond that it
/// claims only what the source shows: a pattern without characters has no
/// words and scores `Some(0)`.
#[verifier::external_body]
fn pattern_score(text: &str, pattern: &str) -> (r: Option<u32>)
    ensures
        r == nucleo_score(text@, pattern@),
        pattern@.len() == 0 ==> r == Some(0u32),
{
    let pattern = Pattern::parse(pattern, CaseMatching::Smart, Normalization::Smart);
    let mut matcher = Matcher::new(Config::DEFAULT);
    let mut haystack_buf = Vec::new();
    pattern.score(Utf32Str::new(text, &mut haystack_buf), &mut matcher)
}

/// Whether an answer of `pattern_indices` carries the named result.
pub open spec fn indices_agree(r: Option<(u32, Vec<u32>)>, q: Option<(u32, Seq<u32>)>) -> bool {
    match (r, q) {
        (Some((s, v)), Some((t, w))) => s == t && v@ == w,
        (None, None) => true,
        _ => false,
    }
}

/// Whether an answer of `pattern_indices` is a match of score 0 with no positions.
pub open spec fn is_empty_match(r: Option<(u32, Vec<u32>)>) -> bool {
    match r {
        Some((s, v)) => s == 0 && v@.len() == 0,
        None => false,
    }
}

/// Parses `pattern` as `pattern_score` does and calls `Pattern::indices` on
/// `text`, returning the score with the positions it collected. The contract
/// names the result; a pattern without characters gives `Some((0, []))`.
#[verifier::external_body]
fn pattern_indices(text: &str, pattern: &str) -> (r: Option<(u32, Vec<u32>)>)
    ensures
        indices_agree(r, nucleo_indices(text@, pattern@)),
        pattern@.len() == 0 ==> is_empty_match(r),
{
    let pattern = Pattern::parse(pattern, CaseMatching::Smart, Normalization::Smart);
    let mut matcher = Matcher::new(Config::DEFAULT);
    let mut haystack_buf = Vec::new();
    let mut indices = Vec::new();
    match pattern.indices(Utf32Str::new(text, &mut haystack_buf), &mut matcher, &mut indices) {
        Some(score) => Some((score, indices)),
        None => None,
    }
}

/// The fuzzy score of `pattern` against `text` (0 when it does not match).
pub open spec fn score_of(text: Seq<char>, pattern: Seq<char>) -> u32 {
    match nucleo_score(text, pattern) {
        Some(s) => s,
        None => 0,
    }
}

/// Fuzzy match using nucleo-matcher's `Pattern` (multi-word patterns and
/// fzf-style special characters); returns the score, 0 if no match.
pub fn fuzzy_match_score(text: &str, pattern: &str) -> (r: u32)
    ensures
        r == score_of(text@, pattern@),
        pattern@.len() == 0 ==> r == 0,
{
    match pattern_score(text, pattern) {
        Some(s) => s,
        None => 0,
    }
}

/// Whether `s` is strictly increasing.
pub open spec fn strictly_increasing(s: Seq<u32>) -> bool {
    forall|i: int, j: int| 0 <= i < j < s.len() ==> s[i] < s[j]
}

/// Whether `s` lists exactly the values of `raw`, each once, in increasing order.
pub open spec fn sorted_unique_of(s: Seq<u32>, raw: Seq<u32>) -> bool {
    strictly_increasing(s) && forall|x: u32| s.contains(x) <==> raw.contains(x)
}

/// Insert `x` into the strictly increasing `v`, keeping it so (no duplicate).
fn insert_sorted(v: &mut Vec<u32>, x: u32)
    requires
        strictly_increasing(old(v)@),
    ensures
        strictly_increasing(final(v)@),
        forall|y: u32| final(v)@.contains(y) <==> (old(v)@.contains(y) || y == x),
{
    let mut i: usize = 0;
    while i < v.len() && v[i] < x
        invariant
            i <= v.len(),
            forall|j: int| 0 <= j < i ==> v@[j] < x,
        decreases v.len() - i,
    {
        i = i + 1;
    }
    if i < v.len() && v[i] == x {
        assert(v@[i as int] == x);
        return ;
    }
    let ghost old_v = v@;
    v.insert(i, x);
    proof {
        lemma_insert_sorted(old_v, v@, i as int, x);
    }
}

proof fn lemma_insert_sorted(old_v: Seq<u32>, nv: Seq<u32>, i: int, x: u32)
    requires
        strictly_increasing(old_v),
        0 <= i <= old_v.len(),
        nv == old_v.insert(i, x),
        forall|j: int| 0 <= j < i ==> old_v[j] < x,
        i < old_v.len() ==> old_v[i] > x,
    ensures
        strictly_increasing(nv),
        forall|y: u32| nv.contains(y) <==> (old_v.contains(y) || y == x),
{
    assert(nv.len() == old_v.len() + 1);
    assert(forall|k: int| 0 <= k < i ==> nv[k] == old_v[k]);
    assert(nv[i] == x);
    assert(forall|k: int| i < k < nv.len() ==> nv[k] == old_v[k - 1]);
    assert forall|a: int, b: int| 0 <= a < b < nv.len() implies nv[a] < nv[b] by {
        if b < i {
        } else if b == i {
        } else if a < i {
            assert(old_v[b - 1] >= old_v[i]);
        } else if a == i {
            assert(old_v[b - 1] >= old_v[i]);
        } else {
        }
    }
    assert forall|y: u32| nv.contains(y) <==> (old_v.contains(y) || y == x) by {
        if nv.contains(y) {
            let k = choose|k: int| 0 <= k < nv.len() && #[trigger] nv[k] == y;
            if k < i {
                assert(old_v[k] == y);
            } else if k > i {
                assert(old_v[k - 1] == y);
            }
        }
        if old_v.contains(y) {
            let k = choose|k: int| 0 <= k < old_v.len() && #[trigger] old_v[k] == y;
            if k < i {
                assert(nv[k] == y);
            } else {
                assert(nv[k + 1] == y);
            }
        }
        if y == x {
            assert(nv[i] == y);
        }
    }
}

proof fn lemma_push_contains(s: Seq<u32>, x: u32)
    ensures
        forall|y: u32| s.push(x).contains(y) <==> (s.contains(y) || y == x),
{
    assert forall|y: u32| s.push(x).contains(y) <==> (s.contains(y) || y == x) by {
        if s.push(x).contains(y) {
            let k = choose|k: int| 0 <= k < s.push(x).len() && #[trigger] s.push(x)[k] == y;
            if k < s.len() {
                assert(s[k] == y);
            }
        }
        if s.contains(y) {
            let k = choose|k: int| 0 <= k < s.len() && #[trigger] s[k] == y;
            assert(s.push(x)[k] == y);
        }
        if y == x {
            assert(s.push(x)[s.len() as int] == y);
        }
    }
}

/// Fuzzy match and return both score and match indices (sorted, each once);
/// `(0, [])` when there is no match.
pub fn fuzzy_match_indices(text: &str, pattern_str: &str) -> (r: (u32, Vec<u32>))
    ensures
        match nucleo_indices(text@, pattern_str@) {
            Some(p) => r.0 == p.0 && sorted_unique_of(r.1@, p.1),
            None => r.0 == 0 && r.1@.len() == 0,
        },
{
    match pattern_indices(text, pattern_str) {
        Some((score, raw)) => {
            let mut out: Vec<u32> = Vec::new();
            let mut i: usize = 0;
            while i < raw.len()
                invariant
                    i <= raw.len(),
                    strictly_increasing(out@),
                    forall|y: u32| out@.contains(y) <==> raw@.subrange(0, i as int).contains(y),
                decreases raw.len() - i,
            {
                insert_sorted(&mut out, raw[i]);
                proof {
                    assert(raw@.subrange(0, i + 1) =~= raw@.subrange(0, i as int).push(raw@[i as int]));
                    lemma_push_contains(raw@.subrange(0, i as int), raw@[i as int]);
                }
                i = i + 1;
            }
            assert(raw@.subrange(0, raw@.len() as int) =~= raw@);
            (score, out)
        },
        None => (0, Vec::new()),
    }
}

// ── Simple subsequence matching ─────────────────────────────────────

/// Whether the characters of `p` occur in `t` in order (not necessarily adjacent).
pub open spec fn is_subsequence(p: Seq<char>, t: Seq<char>) -> bool
    decreases t.len(),
{
    if p.len() == 0 {
        true
    } else if t.len() == 0 {
        false
    } else if p[0] == t[0] {
        is_subsequence(p.drop_first(), t.drop_first())
    } else {
        is_subsequence(p, t.drop_first())
    }
}

/// Simple boolean fuzzy match: whether the pattern's characters occur in the
/// text in order.
pub fn fuzzy_match(text: &str, pattern: &str) -> (r: bool)
    ensures
        r == is_subsequence(pattern@, text@),
{
    let t = crate::text::chars_of(text);
    let p = crate::text::chars_of(pattern);
    let mut ti: usize = 0;
    let mut pi: usize = 0;
    assert(t@.subrange(0, t@.len() as int) =~= t@);
    assert(p@.subrange(0, p@.len() as int) =~= p@);
    while pi < p.len()
        invariant
            ti <= t.len(),
            pi <= p.len(),
            t@ == text@,
            p@ == pattern@,
            is_subsequence(pattern@, text@) == is_subsequence(
                p@.subrange(pi as int, p@.len() as int),
                t@.subrange(ti as int, t@.len() as int),
            ),
        decreases t.len() - ti, p.len() - pi,
    {
        let ghost ps = p@.subrange(pi as int, p@.len() as int);
        let ghost ts = t@.subrange(ti as int, t@.len() as int);
        if ti == t.len() {
            assert(ts.len() == 0 && ps.len() > 0);
            return false;
        }
        assert(ps[0] == p@[pi as int] && ts[0] == t@[ti as int]);
        assert(ts.drop_first() =~= t@.subrange(ti + 1, t@.len() as int));
        if t[ti] == p[pi] {
            assert(ps.drop_first() =~= p@.subrange(pi + 1, p@.len() as int));
            pi = pi + 1;
        }
        ti = ti + 1;
    }
    assert(p@.subrange(pi as int, p@.len() as int).len() == 0);
    true
}

// ── Scores ──────────────────────────────────────────────────────────

/// Per-field match scores for an item (command or flag).
/// Keeps name and help scores separate so highlighting can be applied
/// independently to each field.
#[derive(Debug, Clone, Copy)]
pub struct MatchScores {
    /// Score from matching against the item's name (or aliases/path).
    pub name_score: u32,
    /// Score from matching against the item's help text.
    pub help_score: u32,
}

impl MatchScores {
    /// The best of the name and help scores.
    pub open spec fn overall_spec(self) -> u32 {
        if self.name_score >= self.help_score {
            self.name_score
        } else {
            self.help_score
        }
    }

    /// Overall score: the best of name and help.
    pub fn overall(&self) -> (r: u32)
        ensures
            r == self.overall_spec(),
            r >= self.name_score && r >= self.help_score,
            r == self.name_score || r == self.help_score,
    {
        if self.name_score >= self.help_score {
            self.name_score
        } else {
            self.help_score
        }
    }
}

/// Match scores keyed by item key (flag name, argument name, command id).
#[derive(Debug)]
pub struct ScoreTable {
    pub entries: Vec<(String, MatchScores)>,
}

/// The first position of an entry for `key`.
#[verifier::opaque]
pub open spec fn score_index(e: Seq<(String, MatchScores)>, key: Seq<char>) -> Option<int> {
    if exists|i: int| 0 <= i < e.len() && #[trigger] e[i].0@ == key {
        Some(
            choose|i: int|
                0 <= i < e.len() && e[i].0@ == key && forall|j: int|
                    0 <= j < i ==> #[trigger] e[j].0@ != key,
        )
    } else {
        None
    }
}

proof fn lemma_least_score(e: Seq<(String, MatchScores)>, key: Seq<char>, i: int)
    requires
        0 <= i < e.len(),
        e[i].0@ == key,
    ensures
        exists|m: int|
            0 <= m < e.len() && e[m].0@ == key && forall|j: int|
                0 <= j < m ==> #[trigger] e[j].0@ != key,
    decreases i,
{
    if exists|j: int| 0 <= j < i && #[trigger] e[j].0@ == key {
        let j = choose|j: int| 0 <= j < i && #[trigger] e[j].0@ == key;
        lemma_least_score(e, key, j);
    } else {
        assert(forall|j: int| 0 <= j < i ==> #[trigger] e[j].0@ != key);
    }
}

/// What `score_index` says of its answer.
pub proof fn lemma_score_index_props(e: Seq<(String, MatchScores)>, key: Seq<char>)
    ensures
        match score_index(e, key) {
            Some(i) => 0 <= i < e.len() && e[i].0@ == key && forall|j: int|
                0 <= j < i ==> #[trigger] e[j].0@ != key,
            None => forall|j: int| 0 <= j < e.len() ==> #[trigger] e[j].0@ != key,
        },
{
    reveal(score_index);
    if exists|i: int| 0 <= i < e.len() && #[trigger] e[i].0@ == key {
        let i = choose|i: int| 0 <= i < e.len() && #[trigger] e[i].0@ == key;
        lemma_least_score(e, key, i);
    }
}

proof fn lemma_score_index_is(e: Seq<(String, MatchScores)>, key: Seq<char>, i: int)
    requires
        0 <= i < e.len(),
        e[i].0@ == key,
        forall|j: int| 0 <= j < i ==> #[trigger] e[j].0@ != key,
    ensures
        score_index(e, key) == Some(i),
{
    lemma_score_index_props(e, key);
    match score_index(e, key) {
        Some(c) => {
            if c < i {
                assert(e[c].0@ != key);
            }
            if c > i {
                assert(e[i].0@ != key);
            }
        },
        None => {
            assert(e[i].0@ != key);
        },
    }
}

/// The scores recorded for `key`, if any.
pub open spec fn score_get(e: Seq<(String, MatchScores)>, key: Seq<char>) -> Option<MatchScores> {
    match score_index(e, key) {
        Some(i) => Some(e[i].1),
        None => None,
    }
}

/// Whether the item with this key matches: it has scores with a positive best.
pub open spec fn key_matches(e: Seq<(String, MatchScores)>, key: Seq<char>) -> bool {
    match score_get(e, key) {
        Some(s) => s.overall_spec() > 0,
        None => false,
    }
}

impl ScoreTable {
    /// An empty table.
    pub fn new() -> (r: ScoreTable)
        ensures
            r.entries@.len() == 0,
    {
        ScoreTable { entries: Vec::new() }
    }

    /// Whether the table is empty.
    pub fn is_empty(&self) -> (r: bool)
        ensures
            r == (self.entries@.len() == 0),
    {
        self.entries.len() == 0
    }

    /// Forget every entry.
    pub fn clear(&mut self)
        ensures
            final(self).entries@.len() == 0,
    {
        self.entries = Vec::new();
    }

    /// The scores recorded for `key`.
    pub fn get(&self, key: &str) -> (r: Option<MatchScores>)
        ensures
            r == score_get(self.entries@, key@),
    {
        let mut i: usize = 0;
        while i < self.entries.len()
            invariant
                i <= self.entries.len(),
                forall|j: int| 0 <= j < i ==> #[trigger] self.entries@[j].0@ != key@,
            decreases self.entries.len() - i,
        {
            if str_eq(self.entries[i].0.as_str(), key) {
                proof {
                    lemma_score_index_is(self.entries@, key@, i as int);
                }
                return Some(self.entries[i].1);
            }
            i = i + 1;
        }
        proof {
            lemma_score_index_props(self.entries@, key@);
        }
        None
    }

    /// Position of the entry for `key`.
    pub fn position(&self, key: &str) -> (r: Option<usize>)
        ensures
            r is Some <==> score_index(self.entries@, key@) is Some,
            r matches Some(i) ==> i as int == score_index(self.entries@, key@)->0 && i
                < self.entries@.len(),
    {
        let mut i: usize = 0;
        while i < self.entries.len()
            invariant
                i <= self.entries.len(),
                forall|j: int| 0 <= j < i ==> #[trigger] self.entries@[j].0@ != key@,
            decreases self.entries.len() - i,
        {
            if str_eq(self.entries[i].0.as_str(), key) {
                proof {
                    lemma_score_index_is(self.entries@, key@, i as int);
                }
                return Some(i);
            }
            i = i + 1;
        }
        proof {
            lemma_score_index_props(self.entries@, key@);
        }
        None
    }

    /// Record `scores` for `key`, replacing an earlier record.
    pub fn insert(&mut self, key: String, scores: MatchScores)
        ensures
            score_get(final(self).entries@, key@) == Some(scores),
            forall|k: Seq<char>|
                k != key@ ==> score_get(final(self).entries@, k) == score_get(
                    old(self).entries@,
                    k,
                ),
    {
        let ghost k0 = key@;
        let ghost old_e = self.entries@;
        proof {
            lemma_score_index_props(old_e, k0);
        }
        match self.position(key.as_str()) {
            Some(i) => {
                self.entries.set(i, (key, scores));
                proof {
                    assert(forall|j: int| 0 <= j < i ==> #[trigger] self.entries@[j] == old_e[j]);
                    lemma_score_index_is(self.entries@, k0, i as int);
                    assert forall|k: Seq<char>| k != k0 implies score_get(self.entries@, k)
                        == score_get(old_e, k) by {
                        lemma_score_same_after_set(old_e, self.entries@, i as int, k);
                    }
                }
            },
            None => {
                self.entries.push((key, scores));
                proof {
                    let n = old_e.len() as int;
                    assert(forall|j: int| 0 <= j < n ==> #[trigger] self.entries@[j] == old_e[j]);
                    lemma_score_index_is(self.entries@, k0, n);
                    assert forall|k: Seq<char>| k != k0 implies score_get(self.entries@, k)
                        == score_get(old_e, k) by {
                        lemma_score_same_after_push(old_e, self.entries@, k);
                    }
                }
            },
        }
    }
}

proof fn lemma_score_same_after_set(
    a: Seq<(String, MatchScores)>,
    b: Seq<(String, MatchScores)>,
    i: int,
    k: Seq<char>,
)
    requires
        a.len() == b.len(),
        0 <= i < a.len(),
        a[i].0@ != k,
        b[i].0@ != k,
        forall|j: int| 0 <= j < a.len() && j != i ==> #[trigger] a[j] == b[j],
    ensures
        score_get(b, k) == score_get(a, k),
{
    lemma_score_index_props(a, k);
    lemma_score_index_props(b, k);
    match score_index(a, k) {
        Some(m) => {
            assert(a[m] == b[m]);
            assert forall|j: int| 0 <= j < m implies #[trigger] b[j].0@ != k by {
                assert(a[j].0@ != k);
                if j != i {
                    assert(a[j] == b[j]);
                }
            }
            lemma_score_index_is(b, k, m);
        },
        None => {
            match score_index(b, k) {
                Some(m) => {
                    assert(a[m] == b[m]);
                    assert(a[m].0@ != k);
                },
                None => {},
            }
        },
    }
}

proof fn lemma_score_same_after_push(
    a: Seq<(String, MatchScores)>,
    b: Seq<(String, MatchScores)>,
    k: Seq<char>,
)
    requires
        b.len() == a.len() + 1,
        b[a.len() as int].0@ != k,
        forall|j: int| 0 <= j < a.len() ==> #[trigger] a[j] == b[j],
    ensures
        score_get(b, k) == score_get(a, k),
{
    lemma_score_index_props(a, k);
    lemma_score_index_props(b, k);
    match score_index(a, k) {
        Some(m) => {
            assert(a[m] == b[m]);
            assert forall|j: int| 0 <= j < m implies #[trigger] b[j].0@ != k by {
                assert(a[j] == b[j]);
                assert(a[j].0@ != k);
            }
            lemma_score_index_is(b, k, m);
        },
        None => {
            match score_index(b, k) {
                Some(m) => {
                    assert(m < a.len());
                    assert(a[m] == b[m]);
                    assert(a[m].0@ != k);
                },
                None => {},
            }
        },
    }
}

// ── Filterable items ────────────────────────────────────────────────

/// Cached item data for generic filter score computation.
#[derive(Debug, Clone)]
pub struct FilterableItem {
    /// Lookup key (e.g. flag name, arg name, command id).
    pub key: String,
    /// All searchable name variations (flag name + --long + -short, arg name, etc.).
    pub name_texts: Vec<String>,
    /// Optional help text for matching.
    pub help: Option<String>,
}

/// The best score of `pattern` against any of `texts` (0 for none).
pub open spec fn best_score(texts: Seq<String>, pattern: Seq<char>) -> u32
    decreases texts.len(),
{
    if texts.len() == 0 {
        0
    } else {
        let rest = best_score(texts.drop_last(), pattern);
        let s = score_of(texts.last()@, pattern);
        if s >= rest {
            s
        } else {
            rest
        }
    }
}

/// The scores of one item: best name variation and help text.
pub open spec fn item_scores(item: FilterableItem, pattern: Seq<char>) -> MatchScores {
    MatchScores {
        name_score: best_score(item.name_texts@, pattern),
        help_score: match item.help {
            Some(h) => score_of(h@, pattern),
            None => 0,
        },
    }
}

/// The best score of `pattern` against any of `texts`.
pub fn best_text_score(texts: &Vec<String>, pattern: &str) -> (r: u32)
    ensures
        r == best_score(texts@, pattern@),
{
    let mut best: u32 = 0;
    let mut i: usize = 0;
    while i < texts.len()
        invariant
            i <= texts.len(),
            best == best_score(texts@.subrange(0, i as int), pattern@),
        decreases texts.len() - i,
    {
        let s = fuzzy_match_score(texts[i].as_str(), pattern);
        assert(texts@.subrange(0, i + 1).drop_last() =~= texts@.subrange(0, i as int));
        if s >= best {
            best = s;
        }
        i = i + 1;
    }
    assert(texts@.subrange(0, texts@.len() as int) =~= texts@);
    best
}

/// The position of the last of the first `n` items whose key is `k`.
pub open spec fn last_key_index(items: Seq<FilterableItem>, n: int, k: Seq<char>) -> Option<int>
    decreases n,
{
    if n <= 0 {
        None
    } else if items[n - 1].key@ == k {
        Some(n - 1)
    } else {
        last_key_index(items, n - 1, k)
    }
}

/// Compute match scores for a set of filterable items against a pattern.
/// Each key gets the scores of the last item carrying it.
pub fn compute_match_scores(items: &Vec<FilterableItem>, pattern: &str) -> (r: ScoreTable)
    ensures
        forall|k: Seq<char>|
            #![trigger score_get(r.entries@, k)]
            score_get(r.entries@, k) == match last_key_index(items@, items@.len() as int, k) {
                Some(m) => Some(item_scores(items@[m], pattern@)),
                None => None,
            },
{
    let mut table = ScoreTable::new();
    let mut i: usize = 0;
    assert forall|k: Seq<char>| #[trigger] score_get(table.entries@, k) == None::<MatchScores> by {
        lemma_score_index_props(table.entries@, k);
    }
    while i < items.len()
        invariant
            i <= items.len(),
            forall|k: Seq<char>|
                #![trigger score_get(table.entries@, k)]
                score_get(table.entries@, k) == match last_key_index(items@, i as int, k) {
                    Some(m) => Some(item_scores(items@[m], pattern@)),
                    None => None,
                },
        decreases items.len() - i,
    {
        let item = &items[i];
        let name_score = best_text_score(&item.name_texts, pattern);
        let help_score = match &item.help {
            Some(h) => fuzzy_match_score(h.as_str(), pattern),
            None => 0,
        };
        table.insert(
            crate::text::string_of(item.key.as_str()),
            MatchScores { name_score, help_score },
        );
        i = i + 1;
    }
    table
}

// ── Filter-aware navigation ─────────────────────────────────────────

/// Position `offset` steps from `current` in a list of `total`, wrapping around.
pub open spec fn adjacent_pos(current: int, total: int, forward: bool, offset: int) -> int {
    if forward {
        (current + offset) % total
    } else {
        (current + total - offset) % total
    }
}

proof fn lemma_adjacent_pos(current: int, total: int, forward: bool, offset: int, idx: int)
    requires
        current >= 0,
        total > 0,
        1 <= offset < total,
        forward ==> idx == (if offset < total - current % total {
            current % total + offset
        } else {
            current % total - (total - offset)
        }),
        !forward ==> idx == (if current % total >= offset {
            current % total - offset
        } else {
            current % total + (total - offset)
        }),
    ensures
        idx == adjacent_pos(current, total, forward, offset),
{
    let c = current % total;
    let q = current / total;
    assert(current == q * total + c) by (nonlinear_arith)
        requires
            total > 0,
            c == current % total,
            q == current / total,
    ;
    assert(0 <= c < total);
    if forward {
        let e: int = if offset < total - c { 0 } else { 1 };
        assert(current + offset == (q + e) * total + idx) by (nonlinear_arith)
            requires
                current == q * total + c,
                e == 0 ==> idx == c + offset,
                e == 1 ==> idx == c - (total - offset),
                e == 0 || e == 1,
        ;
        assert(0 <= idx < total);
        vstd::arithmetic::div_mod::lemma_fundamental_div_mod_converse(
            current + offset,
            total,
            q + e,
            idx,
        );
    } else {
        let e: int = if c >= offset { 1 } else { 0 };
        assert(current + total - offset == (q + e) * total + idx) by (nonlinear_arith)
            requires
                current == q * total + c,
                e == 1 ==> idx == c - offset,
                e == 0 ==> idx == c + (total - offset),
                e == 0 || e == 1,
        ;
        assert(0 <= idx < total);
        vstd::arithmetic::div_mod::lemma_fundamental_div_mod_converse(
            current + total - offset,
            total,
            q + e,
            idx,
        );
    }
}

/// Whether the item at position `idx` matches.
pub open spec fn pos_matches(keys: Seq<String>, e: Seq<(String, MatchScores)>, idx: int) -> bool {
    0 <= idx < keys.len() && key_matches(e, keys[idx]@)
}

/// Whether `off` is the smallest step from `current` that reaches a matching key.
pub open spec fn first_key_step(
    keys: Seq<String>,
    e: Seq<(String, MatchScores)>,
    current: int,
    forward: bool,
    off: int,
) -> bool {
    &&& 1 <= off < keys.len()
    &&& pos_matches(keys, e, adjacent_pos(current, keys.len() as int, forward, off))
    &&& forall|o: int|
        1 <= o < off ==> !#[trigger] pos_matches(keys, e, adjacent_pos(current, keys.len() as int, forward, o))
}

/// The next (or previous) matching key from `current`, wrapping around.
pub open spec fn adjacent_key_match(
    keys: Seq<String>,
    e: Seq<(String, MatchScores)>,
    current: int,
    forward: bool,
) -> Option<int> {
    if exists|off: int| first_key_step(keys, e, current, forward, off) {
        Some(
            adjacent_pos(
                current,
                keys.len() as int,
                forward,
                choose|off: int| first_key_step(keys, e, current, forward, off),
            ),
        )
    } else {
        None
    }
}

/// The matching key the selection settles on: `current` when it matches,
/// else the first match.
pub open spec fn first_key_match(keys: Seq<String>, e: Seq<(String, MatchScores)>, current: int) -> Option<int> {
    if pos_matches(keys, e, current) {
        Some(current)
    } else if exists|j: int| pos_matches(keys, e, j) && forall|k: int| 0 <= k < j ==> !#[trigger] pos_matches(keys, e, k) {
        Some(choose|j: int| pos_matches(keys, e, j) && forall|k: int| 0 <= k < j ==> !#[trigger] pos_matches(keys, e, k))
    } else {
        None
    }
}

/// A position held in a `usize`, as an integer.
pub open spec fn opt_int(r: Option<usize>) -> Option<int> {
    match r {
        Some(i) => Some(i as int),
        None => None,
    }
}

proof fn lemma_adjacent_key_match_is(
    keys: Seq<String>,
    e: Seq<(String, MatchScores)>,
    current: int,
    forward: bool,
    off: int,
)
    requires
        first_key_step(keys, e, current, forward, off),
    ensures
        adjacent_key_match(keys, e, current, forward) == Some(
            adjacent_pos(current, keys.len() as int, forward, off),
        ),
{
    let c = choose|o: int| first_key_step(keys, e, current, forward, o);
    assert(first_key_step(keys, e, current, forward, c));
    if c < off {
        assert(!pos_matches(keys, e, adjacent_pos(current, keys.len() as int, forward, c)));
    }
    if c > off {
        assert(!pos_matches(keys, e, adjacent_pos(current, keys.len() as int, forward, off)));
    }
}

proof fn lemma_first_key_match_is(keys: Seq<String>, e: Seq<(String, MatchScores)>, current: int, idx: int)
    requires
        !pos_matches(keys, e, current),
        pos_matches(keys, e, idx),
        forall|k: int| 0 <= k < idx ==> !#[trigger] pos_matches(keys, e, k),
    ensures
        first_key_match(keys, e, current) == Some(idx),
{
    let c = choose|j: int| pos_matches(keys, e, j) && forall|k: int| 0 <= k < j ==> !#[trigger] pos_matches(keys, e, k);
    assert(pos_matches(keys, e, c) && forall|k: int| 0 <= k < c ==> !#[trigger] pos_matches(keys, e, k));
    if c < idx {
        assert(!pos_matches(keys, e, c));
    }
    if c > idx {
        assert(!pos_matches(keys, e, idx));
    }
}

/// Find the next or previous matching item in a scored list, wrapping around;
/// `None` when no other item matches.
pub fn find_adjacent_match(keys: &Vec<String>, scores: &ScoreTable, current: usize, forward: bool) -> (r:
    Option<usize>)
    ensures
        match r {
            Some(idx) => exists|off: int|
                1 <= off < keys@.len() && idx as int == adjacent_pos(
                    current as int,
                    keys@.len() as int,
                    forward,
                    off,
                ) && pos_matches(keys@, scores.entries@, idx as int) && forall|o: int|
                    1 <= o < off ==> !#[trigger] pos_matches(
                        keys@,
                        scores.entries@,
                        adjacent_pos(current as int, keys@.len() as int, forward, o),
                    ),
            None => forall|o: int|
                1 <= o < keys@.len() ==> !#[trigger] pos_matches(
                    keys@,
                    scores.entries@,
                    adjacent_pos(current as int, keys@.len() as int, forward, o),
                ),
        },
        opt_int(r) == adjacent_key_match(keys@, scores.entries@, current as int, forward),
{
    let total = keys.len();
    if total == 0 {
        return None;
    }
    let mut offset: usize = 1;
    while offset < total
        invariant
            total == keys@.len(),
            total > 0,
            1 <= offset <= total,
            forall|o: int|
                1 <= o < offset ==> !#[trigger] pos_matches(
                    keys@,
                    scores.entries@,
                    adjacent_pos(current as int, total as int, forward, o),
                ),
        decreases total - offset,
    {
        let c = current % total;
        let idx = if forward {
            if offset < total - c {
                c + offset
            } else {
                c - (total - offset)
            }
        } else {
            if c >= offset {
                c - offset
            } else {
                c + (total - offset)
            }
        };
        proof {
            lemma_adjacent_pos(current as int, total as int, forward, offset as int, idx as int);
        }
        let matched = match scores.get(keys[idx].as_str()) {
            Some(s) => s.overall() > 0,
            None => false,
        };
        if matched {
            assert(pos_matches(keys@, scores.entries@, idx as int));
            proof {
                lemma_adjacent_key_match_is(keys@, scores.entries@, current as int, forward, offset as int);
            }
            return Some(idx);
        }
        offset = offset + 1;
    }
    proof {
        if exists|off: int| first_key_step(keys@, scores.entries@, current as int, forward, off) {
            let c = choose|o: int| first_key_step(keys@, scores.entries@, current as int, forward, o);
            assert(first_key_step(keys@, scores.entries@, current as int, forward, c));
        }
    }
    None
}

/// Find the first matching item in a scored list, keeping the current selection
/// if it already matches. Returns the current index if it matches, or the first
/// matching index, or `None` if nothing matches.
pub fn find_first_match(keys: &Vec<String>, scores: &ScoreTable, current: usize) -> (r: Option<
    usize,
>)
    ensures
        pos_matches(keys@, scores.entries@, current as int) ==> r == Some(current),
        !pos_matches(keys@, scores.entries@, current as int) ==> match r {
            Some(idx) => pos_matches(keys@, scores.entries@, idx as int) && forall|j: int|
                0 <= j < idx ==> !#[trigger] pos_matches(keys@, scores.entries@, j),
            None => forall|j: int|
                0 <= j < keys@.len() ==> !#[trigger] pos_matches(keys@, scores.entries@, j),
        },
        opt_int(r) == first_key_match(keys@, scores.entries@, current as int),
{
    if current < keys.len() {
        let m = match scores.get(keys[current].as_str()) {
            Some(s) => s.overall() > 0,
            None => false,
        };
        if m {
            return Some(current);
        }
    }
    let mut idx: usize = 0;
    while idx < keys.len()
        invariant
            idx <= keys.len(),
            !pos_matches(keys@, scores.entries@, current as int),
            forall|j: int| 0 <= j < idx ==> !#[trigger] pos_matches(keys@, scores.entries@, j),
        decreases keys.len() - idx,
    {
        let m = match scores.get(keys[idx].as_str()) {
            Some(s) => s.overall() > 0,
            None => false,
        };
        if m {
            proof {
                lemma_first_key_match_is(keys@, scores.entries@, current as int, idx as int);
            }
            return Some(idx);
        }
        idx = idx + 1;
    }
    proof {
        if exists|j: int| pos_matches(keys@, scores.entries@, j) && forall|k: int| 0 <= k < j ==> !#[trigger] pos_matches(keys@, scores.entries@, k) {
            let c = choose|j: int| pos_matches(keys@, scores.entries@, j) && forall|k: int| 0 <= k < j ==> !#[trigger] pos_matches(keys@, scores.entries@, k);
            assert(pos_matches(keys@, scores.entries@, c));
        }
    }
    None
}

/// Per-field match state of an item: `(is_match, name_matches, help_matches)`.
/// With no scores at all every item counts as matching.
pub open spec fn match_state(e: Seq<(String, MatchScores)>, key: Seq<char>) -> (bool, bool, bool) {
    match score_get(e, key) {
        Some(s) => (s.overall_spec() > 0 || e.len() == 0, s.name_score > 0, s.help_score > 0),
        None => (true, false, false),
    }
}

/// Look up per-field match scores for a given item key.
/// Returns `(is_match, name_matches, help_matches)`.
pub fn item_match_state(key: &str, scores: &ScoreTable) -> (r: (bool, bool, bool))
    ensures
        r == match_state(scores.entries@, key@),
{
    match scores.get(key) {
        Some(s) => (s.overall() > 0 || scores.is_empty(), s.name_score > 0, s.help_score > 0),
        None => (true, false, false),
    }
}

} // verus!
