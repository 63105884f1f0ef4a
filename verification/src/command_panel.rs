//! The command tree panel: selection over the flat command list, the
//! command path it stands for, filter-aware movement, moves into a child and
//! back to the parent, and the keys and clicks that drive them.

use vstd::prelude::*;

use crate::command_tree::{
    compute_tree_scores, flat_of, flatten_command_tree, parent_id, parent_id_spec, CommandNode,
    FlatCommand,
};
use crate::component::{Component, Filterable};
use crate::events::{EventResult, KeyCode, KeyPress, MouseInput, MouseKind};
use crate::geometry::{hovered_index_for_area, item_at, item_at_spec, Rect};
use crate::list_state::TreeState;
use crate::matching::{adjacent_pos, find_adjacent_match, find_first_match, key_matches, pos_matches, ScoreTable};
use crate::text::{join_words, str_eq, string_of, views};

verus! {

/// Actions that the command panel can emit to its parent.
#[derive(Debug, Clone, PartialEq, Eq)]
pub enum CommandPanelAction {
    /// The selected command path changed — parent should sync flags/args.
    PathChanged(Vec<String>),
}

/// An entry of the flat command list: the node, its depth and its name path.
pub type FlatEntry = (CommandNode, usize, Seq<Seq<char>>);

// ── Splitting ids ───────────────────────────────────────────────────

/// How splitting on single spaces stands after a prefix: the finished pieces
/// and the piece in progress.
pub open spec fn space_split_state(s: Seq<char>) -> (Seq<Seq<char>>, Seq<char>)
    decreases s.len(),
{
    if s.len() == 0 {
        (Seq::empty(), Seq::empty())
    } else {
        let (ws, cur) = space_split_state(s.drop_last());
        if s.last() == ' ' {
            (ws.push(cur), Seq::empty())
        } else {
            (ws, cur.push(s.last()))
        }
    }
}

/// The pieces of `s` between single spaces (as `str::split(' ')` gives them).
pub open spec fn split_spaces(s: Seq<char>) -> Seq<Seq<char>> {
    let (ws, cur) = space_split_state(s);
    ws.push(cur)
}

/// The command path an id stands for: none for the empty id, else its pieces.
pub open spec fn path_of_id(id: Seq<char>) -> Seq<Seq<char>> {
    if id.len() == 0 {
        Seq::empty()
    } else {
        split_spaces(id)
    }
}

/// Split `s` at every single space.
pub fn split_on_spaces(s: &str) -> (r: Vec<String>)
    ensures
        views(r@) == split_spaces(s@),
{
    let n = s.unicode_len();
    let mut out: Vec<String> = Vec::new();
    let mut cur = String::new();
    let mut i: usize = 0;
    while i < n
        invariant
            n == s@.len(),
            i <= n,
            (views(out@), cur@) == space_split_state(s@.subrange(0, i as int)),
        decreases n - i,
    {
        let c = s.get_char(i);
        assert(s@.subrange(0, i + 1).drop_last() =~= s@.subrange(0, i as int));
        if c == ' ' {
            let ghost before = out@;
            out.push(cur);
            assert(views(out@) =~= views(before).push(cur@));
            cur = String::new();
        } else {
            crate::text::string_push(&mut cur, c);
        }
        i = i + 1;
    }
    assert(s@.subrange(0, n as int) =~= s@);
    let ghost before = out@;
    out.push(cur);
    assert(views(out@) =~= views(before).push(cur@));
    out
}

proof fn lemma_split_state_append(a: Seq<char>, t: Seq<char>)
    requires
        forall|j: int| 0 <= j < t.len() ==> t[j] != ' ',
    ensures
        space_split_state(a + t) == (space_split_state(a).0, space_split_state(a).1 + t),
    decreases t.len(),
{
    if t.len() == 0 {
        assert(a + t =~= a);
        assert(space_split_state(a).1 + t =~= space_split_state(a).1);
    } else {
        lemma_split_state_append(a, t.drop_last());
        assert((a + t).drop_last() =~= a + t.drop_last());
        assert((a + t).last() == t.last());
        assert(space_split_state(a).1 + t.drop_last() + seq![t.last()] =~= space_split_state(a).1
            + t);
    }
}

/// Splitting the space-joined words gives the words back, when none of them
/// holds a space.
pub proof fn lemma_split_join(ws: Seq<Seq<char>>)
    requires
        ws.len() > 0,
        forall|k: int, j: int| 0 <= k < ws.len() && 0 <= j < ws[k].len() ==> #[trigger] ws[k][j] != ' ',
    ensures
        split_spaces(join_words(ws)) == ws,
    decreases ws.len(),
{
    if ws.len() == 1 {
        lemma_split_state_append(Seq::empty(), ws[0]);
        assert(Seq::<char>::empty() + ws[0] =~= ws[0]);
        assert(Seq::<Seq<char>>::empty().push(Seq::<char>::empty() + ws[0]) =~= ws);
    } else {
        let init = ws.drop_last();
        lemma_split_join(init);
        let a = join_words(init);
        let w = ws.last();
        assert(join_words(ws) == a + seq![' '] + w);
        assert((a + seq![' ']).drop_last() =~= a);
        assert(space_split_state(a + seq![' ']) == (space_split_state(a).0.push(
            space_split_state(a).1,
        ), Seq::<char>::empty()));
        assert forall|j: int| 0 <= j < w.len() implies w[j] != ' ' by {
            assert(ws[ws.len() - 1][j] != ' ');
        }
        lemma_split_state_append(a + seq![' '], w);
        assert(Seq::<char>::empty() + w =~= w);
        assert(split_spaces(a) == init);
        assert(space_split_state(a).0.push(space_split_state(a).1) == init);
        assert(init.push(w) =~= ws);
    }
}

/// Whether two paths hold the same names.
pub fn same_path(a: &Vec<String>, b: &Vec<String>) -> (r: bool)
    ensures
        r == (views(a@) == views(b@)),
{
    if a.len() != b.len() {
        assert(views(a@).len() != views(b@).len());
        return false;
    }
    let mut i: usize = 0;
    while i < a.len()
        invariant
            a@.len() == b@.len(),
            i <= a@.len(),
            forall|j: int| 0 <= j < i ==> a@[j]@ == b@[j]@,
        decreases a@.len() - i,
    {
        if !str_eq(a[i].as_str(), b[i].as_str()) {
            assert(views(a@)[i as int] != views(b@)[i as int]);
            return false;
        }
        i = i + 1;
    }
    assert(views(a@) =~= views(b@));
    true
}

fn copy_path(p: &Vec<String>) -> (r: Vec<String>)
    ensures
        views(r@) == views(p@),
{
    let r = crate::values::copy_strings(p);
    assert(views(r@) =~= views(p@));
    r
}

// ── Matching over the flat list ─────────────────────────────────────

/// Whether the entry at `idx` matches the filter scores.
pub open spec fn id_matches(f: Seq<FlatEntry>, e: Seq<(String, crate::matching::MatchScores)>, idx: int) -> bool {
    0 <= idx < f.len() && key_matches(e, f[idx].0.id@)
}

/// Whether `off` is the smallest step from `current` that reaches a match.
pub open spec fn first_step(
    f: Seq<FlatEntry>,
    e: Seq<(String, crate::matching::MatchScores)>,
    current: int,
    forward: bool,
    off: int,
) -> bool {
    &&& 1 <= off < f.len()
    &&& id_matches(f, e, adjacent_pos(current, f.len() as int, forward, off))
    &&& forall|o: int|
        1 <= o < off ==> !#[trigger] id_matches(f, e, adjacent_pos(current, f.len() as int, forward, o))
}

/// The next (or previous) matching entry from `current`, wrapping around.
pub open spec fn adjacent_match(
    f: Seq<FlatEntry>,
    e: Seq<(String, crate::matching::MatchScores)>,
    current: int,
    forward: bool,
) -> Option<int> {
    if exists|off: int| first_step(f, e, current, forward, off) {
        Some(
            adjacent_pos(
                current,
                f.len() as int,
                forward,
                choose|off: int| first_step(f, e, current, forward, off),
            ),
        )
    } else {
        None
    }
}

/// The first matching entry, or `current` when it matches itself.
pub open spec fn first_match(f: Seq<FlatEntry>, e: Seq<(String, crate::matching::MatchScores)>, current: int) -> Option<
    int,
> {
    if id_matches(f, e, current) {
        Some(current)
    } else if exists|j: int| id_matches(f, e, j) && forall|k: int| 0 <= k < j ==> !#[trigger] id_matches(f, e, k) {
        Some(choose|j: int| id_matches(f, e, j) && forall|k: int| 0 <= k < j ==> !#[trigger] id_matches(f, e, k))
    } else {
        None
    }
}

/// The ids of the flat list, in order.
fn flat_ids(flat: &Vec<FlatCommand>) -> (r: Vec<String>)
    ensures
        r@.len() == flat@.len(),
        forall|k: int| 0 <= k < flat@.len() ==> #[trigger] r@[k]@ == flat@[k].id@,
{
    let mut r: Vec<String> = Vec::new();
    let mut i: usize = 0;
    while i < flat.len()
        invariant
            i <= flat@.len(),
            r@.len() == i,
            forall|k: int| 0 <= k < i ==> #[trigger] r@[k]@ == flat@[k].id@,
        decreases flat@.len() - i,
    {
        r.push(string_of(flat[i].id.as_str()));
        i = i + 1;
    }
    r
}

proof fn lemma_pos_matches_ids(keys: Seq<String>, f: Seq<FlatEntry>, e: Seq<(String, crate::matching::MatchScores)>)
    requires
        keys.len() == f.len(),
        forall|k: int| 0 <= k < f.len() ==> #[trigger] keys[k]@ == f[k].0.id@,
    ensures
        forall|i: int| #[trigger] pos_matches(keys, e, i) == id_matches(f, e, i),
{
    assert forall|i: int| #[trigger] pos_matches(keys, e, i) == id_matches(f, e, i) by {
        if 0 <= i < f.len() {
            assert(keys[i]@ == f[i].0.id@);
        }
    }
}

/// The first entry with id `t`.
pub open spec fn first_with_id(f: Seq<FlatEntry>, t: Seq<char>) -> Option<int> {
    if exists|j: int| 0 <= j < f.len() && f[j].0.id@ == t {
        Some(
            choose|j: int|
                0 <= j < f.len() && f[j].0.id@ == t && forall|k: int|
                    0 <= k < j ==> #[trigger] f[k].0.id@ != t,
        )
    } else {
        None
    }
}

/// A position as a selection target.
pub open spec fn as_target(o: Option<int>) -> Option<usize> {
    match o {
        Some(i) => Some(i as usize),
        None => None,
    }
}

proof fn lemma_first_with_id_is(f: Seq<FlatEntry>, t: Seq<char>, i: int)
    requires
        0 <= i < f.len(),
        f[i].0.id@ == t,
        forall|k: int| 0 <= k < i ==> #[trigger] f[k].0.id@ != t,
    ensures
        first_with_id(f, t) == Some(i),
{
    let c = choose|j: int|
        0 <= j < f.len() && f[j].0.id@ == t && forall|k: int| 0 <= k < j ==> #[trigger] f[k].0.id@ != t;
    assert(0 <= c < f.len() && f[c].0.id@ == t && forall|k: int|
        0 <= k < c ==> #[trigger] f[k].0.id@ != t);
    if c < i {
        assert(f[c].0.id@ != t);
    }
    if c > i {
        assert(f[i].0.id@ != t);
    }
}

proof fn lemma_first_match_is(f: Seq<FlatEntry>, e: Seq<(String, crate::matching::MatchScores)>, current: int, idx: int)
    requires
        !id_matches(f, e, current),
        id_matches(f, e, idx),
        forall|k: int| 0 <= k < idx ==> !#[trigger] id_matches(f, e, k),
    ensures
        first_match(f, e, current) == Some(idx),
{
    let c = choose|j: int| id_matches(f, e, j) && forall|k: int| 0 <= k < j ==> !#[trigger] id_matches(f, e, k);
    assert(id_matches(f, e, c) && forall|k: int| 0 <= k < c ==> !#[trigger] id_matches(f, e, k));
    if c < idx {
        assert(!id_matches(f, e, c));
    }
    if c > idx {
        assert(!id_matches(f, e, idx));
    }
}

proof fn lemma_first_match_none(f: Seq<FlatEntry>, e: Seq<(String, crate::matching::MatchScores)>, current: int)
    requires
        forall|j: int| 0 <= j < f.len() ==> !#[trigger] id_matches(f, e, j),
    ensures
        first_match(f, e, current) is None,
{
    if exists|j: int| id_matches(f, e, j) && forall|k: int| 0 <= k < j ==> !#[trigger] id_matches(f, e, k) {
        let c = choose|j: int| id_matches(f, e, j) && forall|k: int| 0 <= k < j ==> !#[trigger] id_matches(f, e, k);
        assert(!id_matches(f, e, c));
    }
}

proof fn lemma_adjacent_match_is(
    f: Seq<FlatEntry>,
    e: Seq<(String, crate::matching::MatchScores)>,
    current: int,
    forward: bool,
    off: int,
)
    requires
        1 <= off < f.len(),
        id_matches(f, e, adjacent_pos(current, f.len() as int, forward, off)),
        forall|o: int|
            1 <= o < off ==> !#[trigger] id_matches(f, e, adjacent_pos(current, f.len() as int, forward, o)),
    ensures
        adjacent_match(f, e, current, forward) == Some(adjacent_pos(current, f.len() as int, forward, off)),
{
    assert(first_step(f, e, current, forward, off));
    let c = choose|o: int| first_step(f, e, current, forward, o);
    assert(first_step(f, e, current, forward, c));
    if c < off {
        assert(!id_matches(f, e, adjacent_pos(current, f.len() as int, forward, c)));
    }
    if c > off {
        assert(!id_matches(f, e, adjacent_pos(current, f.len() as int, forward, off)));
    }
}

proof fn lemma_adjacent_match_none(
    f: Seq<FlatEntry>,
    e: Seq<(String, crate::matching::MatchScores)>,
    current: int,
    forward: bool,
)
    requires
        forall|o: int|
            1 <= o < f.len() ==> !#[trigger] id_matches(f, e, adjacent_pos(current, f.len() as int, forward, o)),
    ensures
        adjacent_match(f, e, current, forward) is None,
{
    if exists|off: int| first_step(f, e, current, forward, off) {
        let c = choose|o: int| first_step(f, e, current, forward, o);
        assert(first_step(f, e, current, forward, c));
        assert(!id_matches(f, e, adjacent_pos(current, f.len() as int, forward, c)));
    }
}

proof fn lemma_first_match_from_keys(
    keys: Seq<String>,
    f: Seq<FlatEntry>,
    e: Seq<(String, crate::matching::MatchScores)>,
    current: int,
    r: Option<usize>,
)
    requires
        keys.len() == f.len(),
        forall|k: int| 0 <= k < f.len() ==> #[trigger] keys[k]@ == f[k].0.id@,
        pos_matches(keys, e, current) ==> r == Some(current as usize),
        !pos_matches(keys, e, current) ==> match r {
            Some(idx) => pos_matches(keys, e, idx as int) && forall|j: int|
                0 <= j < idx ==> !#[trigger] pos_matches(keys, e, j),
            None => forall|j: int| 0 <= j < keys.len() ==> !#[trigger] pos_matches(keys, e, j),
        },
        0 <= current <= usize::MAX,
    ensures
        first_match(f, e, current) == match r {
            Some(i) => Some(i as int),
            None => None::<int>,
        },
{
    lemma_pos_matches_ids(keys, f, e);
    if id_matches(f, e, current) {
        assert(pos_matches(keys, e, current));
    } else {
        assert(!pos_matches(keys, e, current));
        match r {
            Some(idx) => {
                assert(id_matches(f, e, idx as int));
                assert forall|k: int| 0 <= k < idx implies !#[trigger] id_matches(f, e, k) by {
                    assert(!pos_matches(keys, e, k));
                }
                lemma_first_match_is(f, e, current, idx as int);
            },
            None => {
                assert forall|k: int| 0 <= k < f.len() implies !#[trigger] id_matches(f, e, k) by {
                    assert(!pos_matches(keys, e, k));
                }
                lemma_first_match_none(f, e, current);
            },
        }
    }
}

/// `s` without the entries equal to `x`.
pub open spec fn without(s: Seq<Seq<char>>, x: Seq<char>) -> Seq<Seq<char>>
    decreases s.len(),
{
    if s.len() == 0 {
        s
    } else if s.last() == x {
        without(s.drop_last(), x)
    } else {
        without(s.drop_last(), x).push(s.last())
    }
}

// ── The panel ───────────────────────────────────────────────────────

/// A self-contained command tree panel that owns its navigation state.
#[derive(Debug)]
pub struct CommandPanelComponent {
    /// Tree nodes representing the full command hierarchy.
    pub tree_nodes: Vec<CommandNode>,
    /// Selection and scroll over the flat list.
    pub tree_state: TreeState,
    /// Ids of the nodes shown collapsed.
    pub collapsed: Vec<String>,
    /// Current command path derived from the tree selection.
    pub path: Vec<String>,
    pub focused: bool,
    /// Whether filter input is actively being typed (used for border color).
    pub filter_active: bool,
    pub filter_text: String,
    pub match_scores: ScoreTable,
    pub hovered_index: Option<usize>,
    /// Current mouse position (set by parent, used to compute hovered_index during render).
    pub mouse_position: Option<(u16, u16)>,
}

/// The path after selecting `sel`: the path of its id, or the old path when
/// `sel` lies past the list.
pub open spec fn synced(f: Seq<FlatEntry>, sel: usize, old_path: Seq<Seq<char>>) -> Seq<Seq<char>> {
    if sel < f.len() {
        path_of_id(f[sel as int].0.id@)
    } else {
        old_path
    }
}

/// Whether a node with this id, in preorder the first one, has children; `None`
/// when no node has the id.
pub open spec fn children_of_forest(nodes: Seq<CommandNode>, id: Seq<char>) -> Option<bool>
    decreases nodes,
{
    if nodes.len() == 0 {
        None
    } else {
        match children_of_forest(nodes.drop_last(), id) {
            Some(b) => Some(b),
            None => children_of_node(nodes.last(), id),
        }
    }
}

/// Whether the node with this id in the subtree at `n` has children.
pub open spec fn children_of_node(n: CommandNode, id: Seq<char>) -> Option<bool>
    decreases n,
{
    proof {
        assert(decreases_to!(n => n.children));
    }
    if n.id@ == id {
        Some(n.children@.len() > 0)
    } else {
        children_of_forest(n.children@, id)
    }
}

fn find_children_in(nodes: &Vec<CommandNode>, id: &str) -> (r: Option<bool>)
    ensures
        r == children_of_forest(nodes@, id@),
    decreases nodes@,
{
    let mut i: usize = 0;
    while i < nodes.len()
        invariant
            i <= nodes@.len(),
            children_of_forest(nodes@.subrange(0, i as int), id@) is None,
        decreases nodes@.len() - i,
    {
        let ghost sub = nodes@.subrange(0, i + 1);
        assert(sub.drop_last() =~= nodes@.subrange(0, i as int));
        assert(sub.last() == nodes@[i as int]);
        let node = &nodes[i];
        if str_eq(node.id.as_str(), id) {
            proof {
                assert(children_of_node(nodes@[i as int], id@) == Some(node.children@.len() > 0));
                assert(children_of_forest(sub, id@) == Some(node.children@.len() > 0));
                lemma_children_prefix(nodes@, i as int + 1, id@);
            }
            return Some(node.children.len() > 0);
        }
        proof {
            assert(decreases_to!(nodes@ => nodes@[i as int]));
            assert(decreases_to!(nodes@[i as int] => nodes@[i as int].children));
        }
        let found = find_children_in(&node.children, id);
        proof {
            assert(children_of_node(nodes@[i as int], id@) == found);
            assert(children_of_forest(sub, id@) == found);
        }
        if found.is_some() {
            proof {
                lemma_children_prefix(nodes@, i as int + 1, id@);
            }
            return found;
        }
        i = i + 1;
    }
    assert(nodes@.subrange(0, nodes@.len() as int) =~= nodes@);
    None
}

proof fn lemma_children_prefix(nodes: Seq<CommandNode>, n: int, id: Seq<char>)
    requires
        0 <= n <= nodes.len(),
        children_of_forest(nodes.subrange(0, n), id) is Some,
    ensures
        children_of_forest(nodes, id) == children_of_forest(nodes.subrange(0, n), id),
    decreases nodes.len() - n,
{
    if n < nodes.len() {
        let m = n + 1;
        let sub = nodes.subrange(0, m);
        assert(sub.drop_last() =~= nodes.subrange(0, n));
        lemma_children_prefix(nodes, m, id);
    } else {
        assert(nodes.subrange(0, n) =~= nodes);
    }
}

impl CommandPanelComponent {
    /// The flat list shown.
    pub open spec fn flat(self) -> Seq<FlatEntry> {
        flat_of(self.tree_nodes@)
    }

    /// The command path, as names.
    pub open spec fn path_view(self) -> Seq<Seq<char>> {
        views(self.path@)
    }

    /// The selection stays below the largest index.
    pub open spec fn wf(self) -> bool {
        self.tree_state.selected_index < usize::MAX
    }

    /// Whether movement skips to matching entries: a filter is typed and scored.
    pub open spec fn filtering(self) -> bool {
        self.filter_text@.len() > 0 && self.match_scores.entries@.len() > 0
    }

    /// Everything but the selection and the path stays.
    pub open spec fn same_but_selection(self, other: Self) -> bool {
        &&& self.tree_nodes == other.tree_nodes
        &&& self.tree_state.scroll == other.tree_state.scroll
        &&& self.collapsed == other.collapsed
        &&& self.focused == other.focused
        &&& self.filter_active == other.filter_active
        &&& self.filter_text == other.filter_text
        &&& self.match_scores == other.match_scores
        &&& self.hovered_index == other.hovered_index
        &&& self.mouse_position == other.mouse_position
    }

    /// `new` results from selecting `target` in `self` (then re-deriving the
    /// path), or is `self` unchanged when there is no target.
    pub open spec fn moved_to(self, new: Self, target: Option<usize>) -> bool {
        &&& self.same_but_selection(new)
        &&& new.wf()
        &&& match target {
            Some(i) => new.tree_state.selected_index == i && new.path_view() == synced(
                self.flat(),
                i,
                self.path_view(),
            ),
            None => new.tree_state.selected_index == self.tree_state.selected_index
                && new.path_view() == self.path_view(),
        }
    }

    /// Where Up moves: to the previous match when filtering, else one up.
    pub open spec fn up_target(self) -> Option<usize> {
        if self.filtering() {
            match adjacent_match(
                self.flat(),
                self.match_scores.entries@,
                self.tree_state.selected_index as int,
                false,
            ) {
                Some(i) => Some(i as usize),
                None => None,
            }
        } else {
            Some(
                if self.tree_state.selected_index > 0 {
                    (self.tree_state.selected_index - 1) as usize
                } else {
                    0
                },
            )
        }
    }

    /// Where Down moves: to the next match when filtering, else one down.
    pub open spec fn down_target(self) -> Option<usize> {
        if self.filtering() {
            match adjacent_match(
                self.flat(),
                self.match_scores.entries@,
                self.tree_state.selected_index as int,
                true,
            ) {
                Some(i) => Some(i as usize),
                None => None,
            }
        } else {
            Some(
                if self.tree_state.selected_index + 1 < self.flat().len() {
                    (self.tree_state.selected_index + 1) as usize
                } else {
                    self.tree_state.selected_index
                },
            )
        }
    }

    /// Where Right/Enter moves: one down, when the selected command has children.
    pub open spec fn enter_target(self) -> Option<usize> {
        let sel = self.tree_state.selected_index;
        if sel < self.flat().len() && children_of_forest(
            self.tree_nodes@,
            self.flat()[sel as int].0.id@,
        ) == Some(true) {
            Some(
                if sel + 1 < self.flat().len() {
                    (sel + 1) as usize
                } else {
                    sel
                },
            )
        } else {
            None
        }
    }

    /// Where Left moves: to the first entry whose id is the selected one's parent id.
    pub open spec fn parent_target(self) -> Option<usize> {
        let sel = self.tree_state.selected_index;
        let f = self.flat();
        if sel < f.len() && parent_id_spec(f[sel as int].0.id@) is Some {
            as_target(first_with_id(f, parent_id_spec(f[sel as int].0.id@)->0))
        } else {
            None
        }
    }

    /// Where a filter change moves: to the first match when the selection does
    /// not match.
    pub open spec fn auto_target(self) -> Option<usize> {
        if self.match_scores.entries@.len() == 0 {
            None
        } else {
            match first_match(
                self.flat(),
                self.match_scores.entries@,
                self.tree_state.selected_index as int,
            ) {
                Some(i) => if i != self.tree_state.selected_index {
                    Some(i as usize)
                } else {
                    None
                },
                None => None,
            }
        }
    }

    /// A panel over the given tree, with the first command selected.
    pub fn new(tree_nodes: Vec<CommandNode>) -> (r: CommandPanelComponent)
        ensures
            r.wf(),
            r.tree_nodes == tree_nodes,
            r.tree_state.selected_index == 0,
            r.tree_state.scroll == 0,
            r.path_view() == synced(flat_of(tree_nodes@), 0, Seq::empty()),
            !r.focused,
            !r.filter_active,
            r.filter_text@.len() == 0,
            r.match_scores.entries@.len() == 0,
            r.hovered_index is None,
            r.mouse_position is None,
    {
        let mut component = CommandPanelComponent {
            tree_nodes,
            tree_state: TreeState::new(),
            collapsed: Vec::new(),
            path: Vec::new(),
            focused: false,
            filter_active: false,
            filter_text: String::new(),
            match_scores: ScoreTable::new(),
            hovered_index: None,
            mouse_position: None,
        };
        assert(component.path_view() =~= Seq::<Seq<char>>::empty());
        component.sync_path();
        component
    }

    /// Current command path (e.g. ["config", "set"]).
    pub fn path(&self) -> (r: &Vec<String>)
        ensures
            r == &self.path,
    {
        &self.path
    }

    /// The selected position in the flat list.
    pub fn selected_index(&self) -> (r: usize)
        ensures
            r == self.tree_state.selected_index,
    {
        self.tree_state.selected_index
    }

    /// The scroll offset of the list.
    pub fn scroll_offset(&self) -> (r: usize)
        ensures
            r == self.tree_state.scroll,
    {
        self.tree_state.scroll as usize
    }

    /// The number of commands in the flat list.
    pub fn total_visible(&self) -> (r: usize)
        ensures
            r == self.flat().len(),
    {
        flatten_command_tree(&self.tree_nodes).len()
    }

    /// The flat list of commands.
    pub fn flat_commands(&self) -> (r: Vec<FlatCommand>)
        ensures
            crate::command_tree::shows_flat(r@, self.flat()),
    {
        flatten_command_tree(&self.tree_nodes)
    }

    /// The tree nodes.
    pub fn tree_nodes(&self) -> (r: &Vec<CommandNode>)
        ensures
            r == &self.tree_nodes,
    {
        &self.tree_nodes
    }

    /// Update the focused state from the parent.
    pub fn set_focused(&mut self, focused: bool)
        ensures
            *final(self) == (CommandPanelComponent { focused, ..*old(self) }),
    {
        self.focused = focused;
    }

    /// `new` is `self` with the filter `text` typed and scored.
    pub open spec fn filter_scored(self, new: Self, text: Seq<char>) -> bool {
        &&& new.filter_text@ == text
        &&& text.len() == 0 ==> new.match_scores.entries@.len() == 0
        &&& text.len() > 0 ==> forall|k: Seq<char>|
            #![trigger crate::matching::score_get(new.match_scores.entries@, k)]
            crate::matching::score_get(new.match_scores.entries@, k) == match crate::command_tree::last_id_index(
                self.flat(),
                self.flat().len() as int,
                k,
            ) {
                Some(m) => Some(crate::command_tree::cmd_scores(self.flat()[m], text)),
                None => None,
            }
        &&& new.tree_nodes == self.tree_nodes
        &&& new.tree_state == self.tree_state
        &&& new.collapsed == self.collapsed
        &&& new.path == self.path
        &&& new.focused == self.focused
        &&& new.filter_active == self.filter_active
        &&& new.hovered_index == self.hovered_index
        &&& new.mouse_position == self.mouse_position
    }

    /// Update filter text and recompute match scores (none for an empty filter).
    pub fn set_filter(&mut self, text: &str)
        ensures
            old(self).filter_scored(*final(self), text@),
    {
        self.filter_text = string_of(text);
        if text.unicode_len() == 0 {
            self.match_scores.clear();
        } else {
            self.match_scores = compute_tree_scores(&self.tree_nodes, text);
        }
    }

    /// Update the hovered item index (from mouse position).
    pub fn set_hovered_index(&mut self, idx: Option<usize>)
        ensures
            *final(self) == (CommandPanelComponent { hovered_index: idx, ..*old(self) }),
    {
        self.hovered_index = idx;
    }

    /// Update the mouse position.
    pub fn set_mouse_position(&mut self, pos: Option<(u16, u16)>)
        ensures
            *final(self) == (CommandPanelComponent { mouse_position: pos, ..*old(self) }),
    {
        self.mouse_position = pos;
    }

    /// The item under the mouse in the panel drawn in `area`.
    pub fn hovered_index_for_area(&self, area: Rect) -> (r: Option<usize>)
        requires
            area.wf(),
        ensures
            match self.mouse_position {
                Some((col, row)) => match item_at_spec(area, col, row, self.tree_state.scroll as usize) {
                    Some(i) => r == Some(i as usize),
                    None => r is None,
                },
                None => r is None,
            },
    {
        hovered_index_for_area(self.mouse_position, area, self.scroll_offset())
    }

    /// Record the hovered item from the mouse position (none when unfocused).
    pub fn compute_hovered_index(&mut self, area: Rect)
        requires
            area.wf(),
        ensures
            !old(self).focused ==> final(self).hovered_index is None,
            old(self).focused ==> match old(self).mouse_position {
                Some((col, row)) => match item_at_spec(area, col, row, old(self).tree_state.scroll as usize) {
                    Some(i) => final(self).hovered_index == Some(i as usize),
                    None => final(self).hovered_index is None,
                },
                None => final(self).hovered_index is None,
            },
            *final(self) == (CommandPanelComponent { hovered_index: final(self).hovered_index, ..*old(self) }),
    {
        self.hovered_index = if self.focused {
            self.hovered_index_for_area(area)
        } else {
            None
        };
    }

    /// Ensure the selection is visible within the given viewport height.
    pub fn ensure_visible(&mut self, viewport_height: usize)
        requires
            old(self).wf(),
        ensures
            final(self).tree_state.scroll == crate::list_state::tree_scrolled_to_show(
                old(self).tree_state.selected_index,
                old(self).tree_state.scroll,
                viewport_height,
            ),
            final(self).tree_state.selected_index == old(self).tree_state.selected_index,
            final(self).wf(),
            final(self).tree_nodes == old(self).tree_nodes,
            final(self).path == old(self).path,
            final(self).collapsed == old(self).collapsed,
            final(self).focused == old(self).focused,
            final(self).filter_active == old(self).filter_active,
            final(self).filter_text == old(self).filter_text,
            final(self).match_scores == old(self).match_scores,
            final(self).hovered_index == old(self).hovered_index,
            final(self).mouse_position == old(self).mouse_position,
    {
        self.tree_state.ensure_visible(viewport_height);
    }

    /// The ids of the flat list, in order.
    fn flat_keys(&self) -> (r: Vec<String>)
        ensures
            r@.len() == self.flat().len(),
            forall|k: int| 0 <= k < self.flat().len() ==> #[trigger] r@[k]@ == self.flat()[k].0.id@,
    {
        let flat = flatten_command_tree(&self.tree_nodes);
        let keys = flat_ids(&flat);
        proof {
            let f = self.flat();
            assert forall|k: int| 0 <= k < f.len() implies #[trigger] keys@[k]@ == f[k].0.id@ by {
                assert(crate::command_tree::shows_entry(flat@[k], f[k]));
            }
        }
        keys
    }

    /// The id of the selected command.
    fn selected_command_id(&self) -> (r: Option<String>)
        ensures
            self.tree_state.selected_index < self.flat().len() ==> (r matches Some(id) && id@
                == self.flat()[self.tree_state.selected_index as int].0.id@),
            self.tree_state.selected_index >= self.flat().len() ==> r is None,
    {
        let flat = flatten_command_tree(&self.tree_nodes);
        if self.tree_state.selected_index < flat.len() {
            Some(string_of(flat[self.tree_state.selected_index].id.as_str()))
        } else {
            None
        }
    }

    /// Update the path from the currently selected command.
    fn sync_path(&mut self)
        ensures
            final(self).path_view() == synced(
                old(self).flat(),
                old(self).tree_state.selected_index,
                old(self).path_view(),
            ),
            final(self).tree_state == old(self).tree_state,
            old(self).same_but_selection(*final(self)),
    {
        if let Some(id) = self.selected_command_id() {
            if id.unicode_len() == 0 {
                self.path = Vec::new();
                assert(self.path_view() =~= Seq::<Seq<char>>::empty());
            } else {
                self.path = split_on_spaces(id.as_str());
            }
        }
    }

    /// Select `idx` and re-derive the path; whether the path changed.
    fn select_and_sync(&mut self, idx: usize) -> (changed: bool)
        requires
            idx < usize::MAX,
        ensures
            old(self).moved_to(*final(self), Some(idx)),
            changed == (final(self).path_view() != old(self).path_view()),
    {
        let old_path = copy_path(&self.path);
        self.tree_state.selected_index = idx;
        self.sync_path();
        !same_path(&self.path, &old_path)
    }

    /// Whether the node with this id has children.
    fn node_has_children(&self, id: &str) -> (r: bool)
        ensures
            r == (children_of_forest(self.tree_nodes@, id@) == Some(true)),
    {
        match find_children_in(&self.tree_nodes, id) {
            Some(b) => b,
            None => false,
        }
    }

    /// Select a specific item by index (e.g. from mouse click).
    /// Returns true if the path changed.
    pub fn select_item(&mut self, index: usize) -> (r: bool)
        requires
            old(self).wf(),
        ensures
            old(self).moved_to(
                *final(self),
                if index < old(self).flat().len() {
                    Some(index)
                } else {
                    None
                },
            ),
            r == (final(self).path_view() != old(self).path_view()),
    {
        let total = self.total_visible();
        if index < total {
            self.select_and_sync(index)
        } else {
            false
        }
    }

    /// Navigate to a specific command path: select the first command whose id
    /// is the space-joined path, if there is one.
    pub fn navigate_to(&mut self, target_path: &Vec<String>)
        requires
            old(self).wf(),
        ensures
            old(self).moved_to(
                *final(self),
                as_target(first_with_id(old(self).flat(), join_words(views(target_path@)))),
            ),
    {
        let target_id = crate::text::join_with_spaces(target_path);
        let flat = flatten_command_tree(&self.tree_nodes);
        let ghost f = self.flat();
        let ghost t = join_words(views(target_path@));
        let mut i: usize = 0;
        while i < flat.len()
            invariant
                i <= flat@.len(),
                crate::command_tree::shows_flat(flat@, f),
                target_id@ == t,
                t == join_words(views(target_path@)),
                *self == *old(self),
                old(self).wf(),
                f == old(self).flat(),
                forall|k: int| 0 <= k < i ==> #[trigger] f[k].0.id@ != t,
            decreases flat@.len() - i,
        {
            assert(crate::command_tree::shows_entry(flat@[i as int], f[i as int]));
            if str_eq(flat[i].id.as_str(), target_id.as_str()) {
                proof {
                    lemma_first_with_id_is(f, t, i as int);
                }
                self.select_and_sync(i);
                return ;
            }
            i = i + 1;
        }
        assert(!exists|j: int| 0 <= j < f.len() && f[j].0.id@ == t);
    }

    /// Auto-select the first matching item if the current selection doesn't
    /// match. Returns true if the path changed.
    pub fn auto_select_next_match(&mut self) -> (r: bool)
        requires
            old(self).wf(),
        ensures
            old(self).moved_to(*final(self), old(self).auto_target()),
            r == (final(self).path_view() != old(self).path_view()),
    {
        if self.match_scores.is_empty() {
            return false;
        }
        let keys = self.flat_keys();
        let current = self.tree_state.selected_index;
        let found = find_first_match(&keys, &self.match_scores, current);
        proof {
            lemma_first_match_from_keys(
                keys@,
                self.flat(),
                self.match_scores.entries@,
                current as int,
                found,
            );
        }
        match found {
            Some(idx) => {
                if idx != current {
                    return self.select_and_sync(idx);
                }
                false
            },
            None => false,
        }
    }

    /// Set the scroll offset directly.
    pub fn set_scroll(&mut self, scroll: usize)
        ensures
            final(self).tree_state.scroll == scroll as u16,
            final(self).tree_state.selected_index == old(self).tree_state.selected_index,
            final(self).tree_nodes == old(self).tree_nodes,
            final(self).path == old(self).path,
            final(self).collapsed == old(self).collapsed,
            final(self).focused == old(self).focused,
            final(self).filter_active == old(self).filter_active,
            final(self).filter_text == old(self).filter_text,
            final(self).match_scores == old(self).match_scores,
            final(self).hovered_index == old(self).hovered_index,
            final(self).mouse_position == old(self).mouse_position,
    {
        self.tree_state.scroll = #[verifier::truncate] (scroll as u16);
    }

    /// Expand a tree node by id: it is no longer shown collapsed.
    pub fn expand(&mut self, id: &str)
        ensures
            views(final(self).collapsed@) == without(views(old(self).collapsed@), id@),
            final(self).tree_state == old(self).tree_state,
            final(self).tree_nodes == old(self).tree_nodes,
            final(self).path == old(self).path,
            final(self).focused == old(self).focused,
            final(self).filter_active == old(self).filter_active,
            final(self).filter_text == old(self).filter_text,
            final(self).match_scores == old(self).match_scores,
            final(self).hovered_index == old(self).hovered_index,
            final(self).mouse_position == old(self).mouse_position,
    {
        let mut kept: Vec<String> = Vec::new();
        let mut i: usize = 0;
        while i < self.collapsed.len()
            invariant
                i <= self.collapsed@.len(),
                self.collapsed == old(self).collapsed,
                views(kept@) == without(views(self.collapsed@.subrange(0, i as int)), id@),
            decreases self.collapsed@.len() - i,
        {
            let ghost sub = views(self.collapsed@.subrange(0, i + 1));
            assert(sub.drop_last() =~= views(self.collapsed@.subrange(0, i as int)));
            assert(sub.last() == self.collapsed@[i as int]@);
            if !str_eq(self.collapsed[i].as_str(), id) {
                let ghost before = kept@;
                kept.push(string_of(self.collapsed[i].as_str()));
                assert(views(kept@) =~= views(before).push(self.collapsed@[i as int]@));
            }
            i = i + 1;
        }
        assert(self.collapsed@.subrange(0, self.collapsed@.len() as int) =~= self.collapsed@);
        self.collapsed = kept;
    }

    /// The position of the selected command's parent in the flat list.
    fn find_parent_index(&self) -> (r: Option<usize>)
        ensures
            r == self.parent_target(),
            r matches Some(i) ==> i < self.flat().len() && self.flat().len() <= usize::MAX,
    {
        let flat = flatten_command_tree(&self.tree_nodes);
        let ghost f = self.flat();
        let sel = self.tree_state.selected_index;
        if sel >= flat.len() {
            return None;
        }
        assert(crate::command_tree::shows_entry(flat@[sel as int], f[sel as int]));
        let parent = match parent_id(flat[sel].id.as_str()) {
            Some(p) => p,
            None => return None,
        };
        let ghost t = parent@;
        let mut i: usize = 0;
        while i < flat.len()
            invariant
                i <= flat@.len(),
                crate::command_tree::shows_flat(flat@, f),
                parent@ == t,
                f == self.flat(),
                sel == self.tree_state.selected_index,
                sel < f.len(),
                parent_id_spec(f[sel as int].0.id@) == Some(t),
                forall|k: int| 0 <= k < i ==> #[trigger] f[k].0.id@ != t,
            decreases flat@.len() - i,
        {
            assert(crate::command_tree::shows_entry(flat@[i as int], f[i as int]));
            if str_eq(flat[i].id.as_str(), parent.as_str()) {
                proof {
                    lemma_first_with_id_is(f, t, i as int);
                }
                return Some(i);
            }
            i = i + 1;
        }
        assert(!exists|j: int| 0 <= j < f.len() && f[j].0.id@ == t);
        None
    }

    /// Move to the first child of the selected command (Right/l/Enter).
    /// Returns true if the path changed.
    fn tree_expand_or_enter(&mut self) -> (r: bool)
        requires
            old(self).wf(),
        ensures
            old(self).moved_to(*final(self), old(self).enter_target()),
            r == (final(self).path_view() != old(self).path_view()),
    {
        if let Some(id) = self.selected_command_id() {
            if self.node_has_children(id.as_str()) {
                let total = self.total_visible();
                let sel = self.tree_state.selected_index;
                let next = if sel < total && sel + 1 < total {
                    sel + 1
                } else {
                    sel
                };
                return self.select_and_sync(next);
            }
        }
        false
    }

    /// Move to the parent command (Left/h).
    /// Returns true if the path changed.
    fn tree_collapse_or_parent(&mut self) -> (r: bool)
        requires
            old(self).wf(),
        ensures
            old(self).moved_to(*final(self), old(self).parent_target()),
            r == (final(self).path_view() != old(self).path_view()),
    {
        if let Some(parent_idx) = self.find_parent_index() {
            return self.select_and_sync(parent_idx);
        }
        false
    }

    /// Move the selection `forward` or back to the adjacent match, when filtering.
    fn move_to_adjacent_match(&mut self, forward: bool) -> (r: bool)
        requires
            old(self).wf(),
        ensures
            old(self).moved_to(
                *final(self),
                match adjacent_match(
                    old(self).flat(),
                    old(self).match_scores.entries@,
                    old(self).tree_state.selected_index as int,
                    forward,
                ) {
                    Some(i) => Some(i as usize),
                    None => None,
                },
            ),
            r == (final(self).path_view() != old(self).path_view()),
    {
        let keys = self.flat_keys();
        let ghost f = self.flat();
        let ghost e = self.match_scores.entries@;
        let current = self.tree_state.selected_index;
        proof {
            lemma_pos_matches_ids(keys@, f, e);
        }
        match find_adjacent_match(&keys, &self.match_scores, current, forward) {
            Some(idx) => {
                proof {
                    let off = choose|off: int|
                        1 <= off < keys@.len() && idx as int == adjacent_pos(
                            current as int,
                            keys@.len() as int,
                            forward,
                            off,
                        ) && pos_matches(keys@, e, idx as int) && forall|o: int|
                            1 <= o < off ==> !#[trigger] pos_matches(
                                keys@,
                                e,
                                adjacent_pos(current as int, keys@.len() as int, forward, o),
                            );
                    assert(pos_matches(keys@, e, idx as int));
                    assert forall|o: int| 1 <= o < off implies !#[trigger] id_matches(
                        f,
                        e,
                        adjacent_pos(current as int, f.len() as int, forward, o),
                    ) by {
                        assert(!pos_matches(
                            keys@,
                            e,
                            adjacent_pos(current as int, keys@.len() as int, forward, o),
                        ));
                    }
                    lemma_adjacent_match_is(f, e, current as int, forward, off);
                }
                assert(idx < keys.len());
                self.select_and_sync(idx)
            },
            None => {
                proof {
                    assert forall|o: int| 1 <= o < f.len() implies !#[trigger] id_matches(
                        f,
                        e,
                        adjacent_pos(current as int, f.len() as int, forward, o),
                    ) by {
                        assert(!pos_matches(
                            keys@,
                            e,
                            adjacent_pos(current as int, keys@.len() as int, forward, o),
                        ));
                    }
                    lemma_adjacent_match_none(f, e, current as int, forward);
                }
                false
            },
        }
    }

    /// Move selection up. Filter-aware when scores are present.
    /// Returns true if the path changed.
    pub fn move_up(&mut self) -> (r: bool)
        requires
            old(self).wf(),
        ensures
            old(self).moved_to(*final(self), old(self).up_target()),
            r == (final(self).path_view() != old(self).path_view()),
    {
        if self.filter_text.unicode_len() > 0 && !self.match_scores.is_empty() {
            self.move_to_adjacent_match(false)
        } else {
            let sel = self.tree_state.selected_index;
            let prev = if sel > 0 {
                sel - 1
            } else {
                0
            };
            self.select_and_sync(prev)
        }
    }

    /// Move selection down. Filter-aware when scores are present.
    /// Returns true if the path changed.
    pub fn move_down(&mut self) -> (r: bool)
        requires
            old(self).wf(),
        ensures
            old(self).moved_to(*final(self), old(self).down_target()),
            r == (final(self).path_view() != old(self).path_view()),
    {
        if self.filter_text.unicode_len() > 0 && !self.match_scores.is_empty() {
            self.move_to_adjacent_match(true)
        } else {
            let total = self.total_visible();
            let sel = self.tree_state.selected_index;
            let next = if sel < total && sel + 1 < total {
                sel + 1
            } else {
                sel
            };
            self.select_and_sync(next)
        }
    }

    fn path_result(&self, changed: bool) -> (r: EventResult<CommandPanelAction>)
        ensures
            changed ==> (r matches EventResult::Action(CommandPanelAction::PathChanged(p))
                && views(p@) == self.path_view()),
            !changed ==> r is Consumed,
    {
        if changed {
            EventResult::Action(CommandPanelAction::PathChanged(copy_path(&self.path)))
        } else {
            EventResult::Consumed
        }
    }

}

impl Component for CommandPanelComponent {
    type Action = CommandPanelAction;

    open spec fn inv(self) -> bool {
        self.wf()
    }

    open spec fn focus_gained_effect(self, new: Self, r: EventResult<CommandPanelAction>) -> bool {
        r is NotHandled && new == (CommandPanelComponent { focused: true, ..self })
    }

    open spec fn focus_lost_effect(self, new: Self, r: EventResult<CommandPanelAction>) -> bool {
        r is NotHandled && new == (CommandPanelComponent { focused: false, ..self })
    }

    open spec fn key_effect(self, key: KeyPress, new: Self, r: EventResult<CommandPanelAction>) -> bool {
        match panel_key_target(self, key.code) {
            None => r is NotHandled && new == self,
            Some(t) => self.moved_to(new, t) && reports_path(self, new, r),
        }
    }

    open spec fn mouse_effect(
        self,
        event: MouseInput,
        area: Rect,
        new: Self,
        r: EventResult<CommandPanelAction>,
    ) -> bool {
        match panel_mouse_target(self, event, area) {
            None => r is NotHandled && new == self,
            Some(t) => self.moved_to(new, t) && reports_path(self, new, r),
        }
    }

    /// The panel gains focus.
    fn handle_focus_gained(&mut self) -> (r: EventResult<CommandPanelAction>) {
        self.focused = true;
        EventResult::NotHandled
    }

    /// The panel loses focus.
    fn handle_focus_lost(&mut self) -> (r: EventResult<CommandPanelAction>) {
        self.focused = false;
        EventResult::NotHandled
    }

    /// Up/k, Down/j, Left/h and Right/l/Enter move the selection; a changed
    /// path is reported to the parent.
    fn handle_key(&mut self, key: KeyPress) -> (r: EventResult<CommandPanelAction>) {
        let changed = match key.code {
            KeyCode::Up | KeyCode::Char('k') => self.move_up(),
            KeyCode::Down | KeyCode::Char('j') => self.move_down(),
            KeyCode::Left | KeyCode::Char('h') => self.tree_collapse_or_parent(),
            KeyCode::Right | KeyCode::Char('l') | KeyCode::Enter => self.tree_expand_or_enter(),
            _ => return EventResult::NotHandled,
        };
        self.path_result(changed)
    }

    /// A left click selects the clicked row; the wheel moves up and down.
    fn handle_mouse(&mut self, event: MouseInput, area: Rect) -> (r: EventResult<CommandPanelAction>) {
        match event.kind {
            MouseKind::LeftDown => {
                match item_at(area, event.column, event.row, self.scroll_offset()) {
                    Some(item_index) => {
                        let changed = self.select_item(item_index);
                        self.path_result(changed)
                    },
                    None => EventResult::NotHandled,
                }
            },
            MouseKind::ScrollUp => {
                let changed = self.move_up();
                self.path_result(changed)
            },
            MouseKind::ScrollDown => {
                let changed = self.move_down();
                self.path_result(changed)
            },
            _ => EventResult::NotHandled,
        }
    }
}

impl Filterable for CommandPanelComponent {
    open spec fn filter_view(self) -> Seq<char> {
        self.filter_text@
    }

    open spec fn apply_effect(self, text: Seq<char>, new: Self, r: Option<CommandPanelAction>) -> bool {
        exists|mid: CommandPanelComponent|
            self.filter_scored(mid, text) && mid.moved_to(new, mid.auto_target()) && if new.path_view()
                != mid.path_view() {
                r matches Some(CommandPanelAction::PathChanged(p)) && views(p@) == new.path_view()
            } else {
                r is None
            }
    }

    open spec fn clear_effect(self, new: Self, r: Option<CommandPanelAction>) -> bool {
        &&& r is None
        &&& new.filter_text@.len() == 0
        &&& new.match_scores.entries@.len() == 0
        &&& new == (CommandPanelComponent {
            filter_text: new.filter_text,
            match_scores: new.match_scores,
            filter_active: false,
            ..self
        })
    }

    open spec fn active_effect(self, active: bool, new: Self) -> bool {
        new == (CommandPanelComponent { filter_active: active, ..self })
    }

    /// Score the commands against `text` and select the first match; a
    /// changed path is reported.
    fn apply_filter(&mut self, text: &str) -> (r: Option<CommandPanelAction>) {
        self.set_filter(text);
        let ghost mid = *self;
        let changed = self.auto_select_next_match();
        let r = if changed {
            Some(CommandPanelAction::PathChanged(copy_path(&self.path)))
        } else {
            None
        };
        assert(old(self).filter_scored(mid, text@) && mid.moved_to(*self, mid.auto_target()));
        r
    }

    /// Clear the filter text and scores.
    fn clear_filter(&mut self) -> (r: Option<CommandPanelAction>) {
        self.filter_text = String::new();
        self.match_scores.clear();
        self.filter_active = false;
        None
    }

    /// Mark the filter input (in)active.
    fn set_filter_active(&mut self, active: bool) {
        self.filter_active = active;
    }

    /// Whether a filter is applied.
    fn has_active_filter(&self) -> (r: bool) {
        self.filter_text.unicode_len() > 0
    }

    /// The filter text.
    fn filter_text(&self) -> (r: String) {
        string_of(self.filter_text.as_str())
    }
}

/// The move a key makes: `None` for keys the panel ignores, else the target
/// (itself `None` when the selection stays).
pub open spec fn panel_key_target(p: CommandPanelComponent, code: KeyCode) -> Option<Option<usize>> {
    match code {
        KeyCode::Up | KeyCode::Char('k') => Some(p.up_target()),
        KeyCode::Down | KeyCode::Char('j') => Some(p.down_target()),
        KeyCode::Left | KeyCode::Char('h') => Some(p.parent_target()),
        KeyCode::Right | KeyCode::Char('l') | KeyCode::Enter => Some(p.enter_target()),
        _ => None,
    }
}

/// The move a mouse event makes, as for keys.
pub open spec fn panel_mouse_target(p: CommandPanelComponent, event: MouseInput, area: Rect) -> Option<
    Option<usize>,
> {
    match event.kind {
        MouseKind::LeftDown => match item_at_spec(area, event.column, event.row, p.tree_state.scroll as usize) {
            Some(i) => Some(
                if i < p.flat().len() {
                    Some(i as usize)
                } else {
                    None
                },
            ),
            None => None,
        },
        MouseKind::ScrollUp => Some(p.up_target()),
        MouseKind::ScrollDown => Some(p.down_target()),
        _ => None,
    }
}

/// The result reports the new path exactly when it changed.
pub open spec fn reports_path(
    old_p: CommandPanelComponent,
    new_p: CommandPanelComponent,
    r: EventResult<CommandPanelAction>,
) -> bool {
    if new_p.path_view() != old_p.path_view() {
        r matches EventResult::Action(CommandPanelAction::PathChanged(p)) && views(p@)
            == new_p.path_view()
    } else {
        r is Consumed
    }
}

/// Navigating to the path of a command shown in a built tree selects the
/// first entry with that id and makes the panel's path the given path, when
/// the path is non-empty and its names are non-empty words without spaces.
pub proof fn lemma_navigate_sets_path(p: CommandPanelComponent, new: CommandPanelComponent, target: Seq<Seq<char>>, j: usize)
    requires
        target.len() > 0,
        forall|k: int| 0 <= k < target.len() ==> #[trigger] target[k].len() > 0,
        forall|k: int, i: int| 0 <= k < target.len() && 0 <= i < target[k].len() ==> #[trigger] target[k][i] != ' ',
        j < p.flat().len(),
        p.flat()[j as int].0.id@ == join_words(target),
        p.moved_to(new, Some(j)),
    ensures
        new.path_view() == target,
{
    lemma_split_join(target);
    assert(target[target.len() - 1].len() > 0);
    assert(join_words(target).len() > 0);
}

} // verus!
