//! The command tree: nodes built from the spec's visible subcommands, the
//! flat list they show as (depth-first, with depth and full name path), and
//! the per-command match scores of the command filter.

use vstd::prelude::*;

use crate::matching::{
    best_score, best_text_score, fuzzy_match_score, score_get, score_of, MatchScores, ScoreTable,
};
use crate::spec_model::{CliSpec, CommandSpec};
use crate::text::{join_with_spaces, join_words, string_of, views};
use crate::values::{copy_opt_string, copy_strings, opt_chars};

verus! {

/// Data stored in each tree node for a command.
#[derive(Debug, Clone)]
pub struct CmdData {
    pub name: String,
    pub help: Option<String>,
    pub aliases: Vec<String>,
}

/// A node of the command tree: an id (the space-joined name path), the
/// command's data and its visible subcommands.
#[derive(Debug)]
pub struct CommandNode {
    pub id: String,
    pub data: CmdData,
    pub children: Vec<CommandNode>,
}

/// A flattened command for display in a flat list with depth-based indentation.
#[derive(Debug, Clone)]
pub struct FlatCommand {
    pub id: String,
    pub name: String,
    pub help: Option<String>,
    pub aliases: Vec<String>,
    pub depth: usize,
    /// Full path of names from root to this command, e.g. "config set".
    /// Used for fuzzy matching so "cfgset" can match "config set".
    pub full_path: String,
}

/// Two optional strings with the same presence and characters.
pub open spec fn same_opt(a: Option<String>, b: Option<String>) -> bool {
    (a is Some <==> b is Some) && opt_chars(a) == opt_chars(b)
}

/// The depth of a node's children: one more, stopping at the largest `usize`.
pub open spec fn child_depth(d: usize) -> usize {
    if d < usize::MAX {
        (d + 1) as usize
    } else {
        d
    }
}

/// The flat list of a forest, depth first: each node with its depth and the
/// names from the top down to it, followed by its descendants.
pub open spec fn flat_forest(nodes: Seq<CommandNode>, depth: usize, parents: Seq<Seq<char>>) -> Seq<
    (CommandNode, usize, Seq<Seq<char>>),
>
    decreases nodes,
{
    if nodes.len() == 0 {
        Seq::empty()
    } else {
        flat_forest(nodes.drop_last(), depth, parents) + flat_tree(nodes.last(), depth, parents)
    }
}

/// The flat list of one node and its descendants.
pub open spec fn flat_tree(n: CommandNode, depth: usize, parents: Seq<Seq<char>>) -> Seq<
    (CommandNode, usize, Seq<Seq<char>>),
>
    decreases n,
{
    let path = parents.push(n.data.name@);
    proof {
        assert(decreases_to!(n => n.children));
    }
    seq![(n, depth, path)] + flat_forest(n.children@, child_depth(depth), path)
}

/// Whether a flattened command shows the entry `e` of a flat list.
pub open spec fn shows_entry(c: FlatCommand, e: (CommandNode, usize, Seq<Seq<char>>)) -> bool {
    &&& c.id@ == e.0.id@
    &&& c.name@ == e.0.data.name@
    &&& same_opt(c.help, e.0.data.help)
    &&& views(c.aliases@) == views(e.0.data.aliases@)
    &&& c.depth == e.1
    &&& c.full_path@ == join_words(e.2)
}

/// Whether `r` shows exactly the entries of `f`, in order.
pub open spec fn shows_flat(r: Seq<FlatCommand>, f: Seq<(CommandNode, usize, Seq<Seq<char>>)>) -> bool {
    &&& r.len() == f.len()
    &&& forall|k: int| 0 <= k < f.len() ==> shows_entry(#[trigger] r[k], f[k])
}

/// The flat list of the whole tree.
pub open spec fn flat_of(nodes: Seq<CommandNode>) -> Seq<(CommandNode, usize, Seq<Seq<char>>)> {
    flat_forest(nodes, 0, Seq::empty())
}

fn copy_cmd_data(d: &CmdData) -> (r: CmdData)
    ensures
        r.name@ == d.name@,
        same_opt(r.help, d.help),
        views(r.aliases@) == views(d.aliases@),
{
    let aliases = copy_strings(&d.aliases);
    assert(views(aliases@) =~= views(d.aliases@));
    CmdData { name: string_of(d.name.as_str()), help: copy_opt_string(&d.help), aliases }
}

fn flatten_into(
    nodes: &Vec<CommandNode>,
    depth: usize,
    parents: &Vec<String>,
    result: &mut Vec<FlatCommand>,
)
    ensures
        final(result)@.len() == old(result)@.len() + flat_forest(
            nodes@,
            depth,
            views(parents@),
        ).len(),
        forall|k: int| 0 <= k < old(result)@.len() ==> #[trigger] final(result)@[k] == old(result)@[k],
        forall|k: int|
            0 <= k < flat_forest(nodes@, depth, views(parents@)).len() ==> shows_entry(
                #[trigger] final(result)@[old(result)@.len() + k],
                flat_forest(nodes@, depth, views(parents@))[k],
            ),
    decreases nodes@,
{
    let ghost start = result@.len();
    let ghost ps = views(parents@);
    let mut i: usize = 0;
    while i < nodes.len()
        invariant
            i <= nodes@.len(),
            ps == views(parents@),
            result@.len() == start + flat_forest(nodes@.subrange(0, i as int), depth, ps).len(),
            start == old(result)@.len(),
            forall|k: int| 0 <= k < start ==> #[trigger] result@[k] == old(result)@[k],
            forall|k: int|
                0 <= k < flat_forest(nodes@.subrange(0, i as int), depth, ps).len() ==> shows_entry(
                    #[trigger] result@[start + k],
                    flat_forest(nodes@.subrange(0, i as int), depth, ps)[k],
                ),
        decreases nodes@.len() - i,
    {
        let node = &nodes[i];
        let ghost before = flat_forest(nodes@.subrange(0, i as int), depth, ps);
        let ghost mid = result@.len();
        assert(nodes@.subrange(0, i + 1).drop_last() =~= nodes@.subrange(0, i as int));
        assert(nodes@.subrange(0, i + 1).last() == nodes@[i as int]);
        let mut path_parts = copy_strings(parents);
        path_parts.push(string_of(node.data.name.as_str()));
        let ghost path = ps.push(node.data.name@);
        assert(views(path_parts@) =~= path);
        let full_path = join_with_spaces(&path_parts);
        let data = copy_cmd_data(&node.data);
        result.push(
            FlatCommand {
                id: string_of(node.id.as_str()),
                name: data.name,
                help: data.help,
                aliases: data.aliases,
                depth,
                full_path,
            },
        );
        let next = if depth < usize::MAX {
            depth + 1
        } else {
            depth
        };
        proof {
            assert(decreases_to!(nodes@ => nodes@[i as int]));
            assert(decreases_to!(nodes@[i as int] => nodes@[i as int].children));
        }
        let ghost mid2 = result@;
        flatten_into(&node.children, next, &path_parts, result);
        proof {
            let t = flat_tree(nodes@[i as int], depth, ps);
            let sub = flat_forest(nodes@[i as int].children@, next, path);
            assert(t == seq![(nodes@[i as int], depth, path)] + sub);
            assert(flat_forest(nodes@.subrange(0, i + 1), depth, ps) == before + t);
            assert forall|k: int|
                0 <= k < (before + t).len() implies shows_entry(
                #[trigger] result@[start + k],
                (before + t)[k],
            ) by {
                if k < before.len() {
                    assert(result@[start + k] == mid2[start + k]);
                } else if k == before.len() {
                    assert(result@[start + k] == mid2[mid as int]);
                } else {
                    let j = k - before.len() - 1;
                    assert(result@[start + k] == result@[mid2.len() + j]);
                }
            }
        }
        i = i + 1;
    }
    assert(nodes@.subrange(0, nodes@.len() as int) =~= nodes@);
}

/// Flatten the tree into a list of commands with depth-based indentation:
/// each node, then its descendants, with the space-joined names leading to it.
pub fn flatten_command_tree(nodes: &Vec<CommandNode>) -> (r: Vec<FlatCommand>)
    ensures
        shows_flat(r@, flat_of(nodes@)),
{
    let mut result: Vec<FlatCommand> = Vec::new();
    let parents: Vec<String> = Vec::new();
    assert(views(parents@) =~= Seq::<Seq<char>>::empty());
    flatten_into(nodes, 0, &parents, &mut result);
    proof {
        let f = flat_of(nodes@);
        assert forall|k: int| 0 <= k < f.len() implies shows_entry(#[trigger] result@[k], f[k]) by {
            assert(result@[0 + k] == result@[k]);
        }
    }
    result
}

/// Whether `nodes` are the tree nodes of the visible (not hidden) commands
/// among `subs`, in order, under the name path `parents`.
pub open spec fn forest_built(nodes: Seq<CommandNode>, subs: Seq<CommandSpec>, parents: Seq<Seq<char>>) -> bool
    decreases subs,
{
    if subs.len() == 0 {
        nodes.len() == 0
    } else if subs.last().hide {
        forest_built(nodes, subs.drop_last(), parents)
    } else {
        nodes.len() > 0 && forest_built(nodes.drop_last(), subs.drop_last(), parents) && node_built(
            nodes.last(),
            subs.last(),
            parents,
        )
    }
}

/// Whether `n` is the tree node of command `c` under the name path `parents`:
/// its id is the space-joined path to it, its data is the command's name,
/// help and aliases, and its children are built from the command's subcommands.
pub open spec fn node_built(n: CommandNode, c: CommandSpec, parents: Seq<Seq<char>>) -> bool
    decreases c,
{
    let path = parents.push(c.name@);
    proof {
        assert(decreases_to!(c => c.subcommands));
    }
    &&& n.id@ == join_words(path)
    &&& n.data.name@ == c.name@
    &&& same_opt(n.data.help, c.help)
    &&& views(n.data.aliases@) == views(c.aliases@)
    &&& forest_built(n.children@, c.subcommands@, path)
}

/// A built forest holds one node per subcommand that is not hidden, in
/// order, each carrying that command's name and the id of its path; hidden
/// commands have no node.
pub proof fn lemma_forest_shows_unhidden(nodes: Seq<CommandNode>, subs: Seq<CommandSpec>, parents: Seq<Seq<char>>)
    requires
        forest_built(nodes, subs, parents),
    ensures
        nodes.len() == crate::app::unhidden(subs).len(),
        forall|i: int|
            0 <= i < nodes.len() ==> (#[trigger] nodes[i]).data.name@ == crate::app::unhidden(subs)[i].name@
                && nodes[i].id@ == join_words(parents.push(crate::app::unhidden(subs)[i].name@)),
    decreases subs.len(),
{
    if subs.len() > 0 {
        if subs.last().hide {
            lemma_forest_shows_unhidden(nodes, subs.drop_last(), parents);
        } else {
            lemma_forest_shows_unhidden(nodes.drop_last(), subs.drop_last(), parents);
            let u = crate::app::unhidden(subs);
            let ur = crate::app::unhidden(subs.drop_last());
            assert(u == ur.push(subs.last()));
            assert(node_built(nodes.last(), subs.last(), parents));
            assert forall|i: int| 0 <= i < nodes.len() implies (#[trigger] nodes[i]).data.name@ == u[i].name@
                && nodes[i].id@ == join_words(parents.push(u[i].name@)) by {
                if i < nodes.len() - 1 {
                    assert(nodes[i] == nodes.drop_last()[i]);
                    assert(u[i] == ur[i]);
                } else {
                    assert(nodes[i] == nodes.last());
                    assert(u[i] == subs.last());
                }
            }
        }
    }
}

fn build_cmd_nodes(cmd: &CommandSpec, parent_path: &Vec<String>) -> (r: Vec<CommandNode>)
    ensures
        forest_built(r@, cmd.subcommands@, views(parent_path@)),
    decreases cmd,
{
    let ghost ps = views(parent_path@);
    let mut out: Vec<CommandNode> = Vec::new();
    let mut i: usize = 0;
    while i < cmd.subcommands.len()
        invariant
            i <= cmd.subcommands@.len(),
            ps == views(parent_path@),
            forest_built(out@, cmd.subcommands@.subrange(0, i as int), ps),
        decreases cmd.subcommands@.len() - i,
    {
        let c = &cmd.subcommands[i];
        let ghost sub = cmd.subcommands@.subrange(0, i + 1);
        assert(sub.drop_last() =~= cmd.subcommands@.subrange(0, i as int));
        assert(sub.last() == cmd.subcommands@[i as int]);
        if !c.hide {
            let mut path = copy_strings(parent_path);
            path.push(string_of(c.name.as_str()));
            assert(views(path@) =~= ps.push(c.name@));
            let id = join_with_spaces(&path);
            proof {
                assert(decreases_to!(cmd => cmd.subcommands));
                assert(decreases_to!(cmd.subcommands => cmd.subcommands@));
                assert(decreases_to!(cmd.subcommands@ => cmd.subcommands@[i as int]));
            }
            let children = build_cmd_nodes(c, &path);
            let aliases = copy_strings(&c.aliases);
            assert(views(aliases@) =~= views(c.aliases@));
            let node = CommandNode {
                id,
                data: CmdData {
                    name: string_of(c.name.as_str()),
                    help: copy_opt_string(&c.help),
                    aliases,
                },
                children,
            };
            let ghost old_out = out@;
            out.push(node);
            assert(out@.drop_last() =~= old_out);
            assert(node_built(out@.last(), sub.last(), ps));
            assert(forest_built(out@, sub, ps));
        } else {
            assert(forest_built(out@, sub, ps));
        }
        i = i + 1;
    }
    assert(cmd.subcommands@.subrange(0, cmd.subcommands@.len() as int) =~= cmd.subcommands@);
    out
}

/// Build tree nodes from a usage spec: one node per visible subcommand of the
/// root, each with its visible subcommands below it (no root wrapper node).
pub fn build_command_tree(spec: &CliSpec) -> (r: Vec<CommandNode>)
    ensures
        forest_built(r@, spec.cmd.subcommands@, Seq::empty()),
{
    let parents: Vec<String> = Vec::new();
    assert(views(parents@) =~= Seq::<Seq<char>>::empty());
    build_cmd_nodes(&spec.cmd, &parents)
}

/// In a tree built from a spec, every command's id is the space-joined path
/// of names leading to it.
pub proof fn lemma_built_ids_are_paths(
    nodes: Seq<CommandNode>,
    subs: Seq<CommandSpec>,
    parents: Seq<Seq<char>>,
    depth: usize,
)
    requires
        forest_built(nodes, subs, parents),
    ensures
        forall|k: int|
            0 <= k < flat_forest(nodes, depth, parents).len() ==> (#[trigger] flat_forest(
                nodes,
                depth,
                parents,
            )[k]).0.id@ == join_words(flat_forest(nodes, depth, parents)[k].2),
    decreases subs,
{
    if subs.len() == 0 {
    } else if subs.last().hide {
        lemma_built_ids_are_paths(nodes, subs.drop_last(), parents, depth);
    } else {
        let n = nodes.last();
        let c = subs.last();
        assert(node_built(n, c, parents));
        let path = parents.push(n.data.name@);
        assert(path == parents.push(c.name@));
        lemma_built_ids_are_paths(nodes.drop_last(), subs.drop_last(), parents, depth);
        assert(decreases_to!(subs => c));
        assert(decreases_to!(c => c.subcommands));
        lemma_built_ids_are_paths(n.children@, c.subcommands@, path, child_depth(depth));
        let before = flat_forest(nodes.drop_last(), depth, parents);
        let sub = flat_forest(n.children@, child_depth(depth), path);
        assert(flat_tree(n, depth, parents) == seq![(n, depth, path)] + sub);
        assert(flat_forest(nodes, depth, parents) == before + (seq![(n, depth, path)] + sub));
        let f = flat_forest(nodes, depth, parents);
        assert forall|k: int| 0 <= k < f.len() implies (#[trigger] f[k]).0.id@ == join_words(f[k].2) by {
            if k < before.len() {
                assert(f[k] == before[k]);
            } else if k == before.len() {
                assert(f[k] == (n, depth, path));
            } else {
                assert(f[k] == sub[k - before.len() - 1]);
            }
        }
    }
}

// ── Command filter scores ───────────────────────────────────────────

/// The larger of two scores.
pub open spec fn max_score(a: u32, b: u32) -> u32 {
    if a >= b {
        a
    } else {
        b
    }
}

/// The scores of one flat entry: the name score is the best of its name,
/// aliases and full path; the help score is that of its help text.
pub open spec fn cmd_scores(e: (CommandNode, usize, Seq<Seq<char>>), pattern: Seq<char>) -> MatchScores {
    MatchScores {
        name_score: max_score(
            max_score(score_of(e.0.data.name@, pattern), best_score(e.0.data.aliases@, pattern)),
            score_of(join_words(e.2), pattern),
        ),
        help_score: match e.0.data.help {
            Some(h) => score_of(h@, pattern),
            None => 0,
        },
    }
}

/// The position of the last of the first `n` entries whose id is `k`.
pub open spec fn last_id_index(f: Seq<(CommandNode, usize, Seq<Seq<char>>)>, n: int, k: Seq<char>) -> Option<
    int,
>
    decreases n,
{
    if n <= 0 {
        None
    } else if f[n - 1].0.id@ == k {
        Some(n - 1)
    } else {
        last_id_index(f, n - 1, k)
    }
}

/// The best score depends only on the characters of the texts.
pub proof fn lemma_best_score_views(a: Seq<String>, b: Seq<String>, pattern: Seq<char>)
    requires
        views(a) == views(b),
    ensures
        best_score(a, pattern) == best_score(b, pattern),
    decreases a.len(),
{
    assert(views(a).len() == a.len() && views(b).len() == b.len());
    if a.len() > 0 {
        assert(views(a.drop_last()) =~= views(a).drop_last());
        assert(views(b.drop_last()) =~= views(b).drop_last());
        assert(views(a)[a.len() - 1] == a.last()@);
        assert(views(b)[b.len() - 1] == b.last()@);
        lemma_best_score_views(a.drop_last(), b.drop_last(), pattern);
    }
}

proof fn lemma_best_score_bounds(texts: Seq<String>, pattern: Seq<char>)
    ensures
        forall|j: int| 0 <= j < texts.len() ==> best_score(texts, pattern) >= score_of(#[trigger] texts[j]@, pattern),
        best_score(texts, pattern) == 0 || exists|j: int|
            0 <= j < texts.len() && best_score(texts, pattern) == score_of(#[trigger] texts[j]@, pattern),
    decreases texts.len(),
{
    if texts.len() > 0 {
        let rest = texts.drop_last();
        lemma_best_score_bounds(rest, pattern);
        assert forall|j: int| 0 <= j < texts.len() implies best_score(texts, pattern) >= score_of(
            #[trigger] texts[j]@,
            pattern,
        ) by {
            if j < rest.len() {
                assert(texts[j] == rest[j]);
            }
        }
        if best_score(texts, pattern) != 0 {
            if best_score(texts, pattern) == score_of(texts.last()@, pattern) {
                assert(texts[texts.len() - 1] == texts.last());
            } else {
                let j = choose|j: int| 0 <= j < rest.len() && best_score(rest, pattern) == score_of(#[trigger] rest[j]@, pattern);
                assert(texts[j] == rest[j]);
            }
        }
    }
}

/// A command's name score covers everything it is found by: it is at least
/// the fuzzy score of its name, of each of its aliases and of its full path,
/// and it is one of those scores (zero when none matches); its help score
/// is the fuzzy score of its help text (zero without help).
pub proof fn lemma_command_scores_cover(e: (CommandNode, usize, Seq<Seq<char>>), pattern: Seq<char>)
    ensures
        cmd_scores(e, pattern).name_score >= score_of(e.0.data.name@, pattern),
        forall|j: int|
            0 <= j < e.0.data.aliases@.len() ==> cmd_scores(e, pattern).name_score >= score_of(
                #[trigger] e.0.data.aliases@[j]@,
                pattern,
            ),
        cmd_scores(e, pattern).name_score >= score_of(join_words(e.2), pattern),
        cmd_scores(e, pattern).name_score == 0 || cmd_scores(e, pattern).name_score == score_of(e.0.data.name@, pattern)
            || cmd_scores(e, pattern).name_score == score_of(join_words(e.2), pattern) || exists|j: int|
            0 <= j < e.0.data.aliases@.len() && cmd_scores(e, pattern).name_score == score_of(
                #[trigger] e.0.data.aliases@[j]@,
                pattern,
            ),
        cmd_scores(e, pattern).help_score == match e.0.data.help {
            Some(h) => score_of(h@, pattern),
            None => 0,
        },
{
    lemma_best_score_bounds(e.0.data.aliases@, pattern);
}

/// Compute match scores for all commands in the flat list, keyed by command
/// id. Matches against the command name, aliases, help text and the full
/// ancestor path, so that e.g. "cfgset" matches "config set"; a later command
/// with the same id replaces an earlier one.
pub fn compute_tree_scores(nodes: &Vec<CommandNode>, pattern: &str) -> (r: ScoreTable)
    ensures
        forall|k: Seq<char>|
            #![trigger score_get(r.entries@, k)]
            score_get(r.entries@, k) == match last_id_index(
                flat_of(nodes@),
                flat_of(nodes@).len() as int,
                k,
            ) {
                Some(m) => Some(cmd_scores(flat_of(nodes@)[m], pattern@)),
                None => None,
            },
{
    let flat = flatten_command_tree(nodes);
    let ghost f = flat_of(nodes@);
    let mut table = ScoreTable::new();
    assert forall|k: Seq<char>| #[trigger] score_get(table.entries@, k) == None::<MatchScores> by {
        crate::matching::lemma_score_index_props(table.entries@, k);
    }
    let mut i: usize = 0;
    while i < flat.len()
        invariant
            i <= flat@.len(),
            shows_flat(flat@, f),
            forall|k: Seq<char>|
                #![trigger score_get(table.entries@, k)]
                score_get(table.entries@, k) == match last_id_index(f, i as int, k) {
                    Some(m) => Some(cmd_scores(f[m], pattern@)),
                    None => None,
                },
        decreases flat@.len() - i,
    {
        let cmd = &flat[i];
        assert(shows_entry(flat@[i as int], f[i as int]));
        let name_score = fuzzy_match_score(cmd.name.as_str(), pattern);
        let alias_score = best_text_score(&cmd.aliases, pattern);
        proof {
            lemma_best_score_views(cmd.aliases@, f[i as int].0.data.aliases@, pattern@);
        }
        let help_score = match &cmd.help {
            Some(h) => fuzzy_match_score(h.as_str(), pattern),
            None => 0,
        };
        let path_score = fuzzy_match_score(cmd.full_path.as_str(), pattern);
        let a = if name_score >= alias_score {
            name_score
        } else {
            alias_score
        };
        let combined = if a >= path_score {
            a
        } else {
            path_score
        };
        let scores = MatchScores { name_score: combined, help_score };
        assert(scores == cmd_scores(f[i as int], pattern@));
        table.insert(string_of(cmd.id.as_str()), scores);
        i = i + 1;
    }
    table
}

// ── Parent ids ──────────────────────────────────────────────────────

/// The position of the last space in `s`.
pub open spec fn last_space(s: Seq<char>) -> Option<int>
    decreases s.len(),
{
    if s.len() == 0 {
        None
    } else if s.last() == ' ' {
        Some(s.len() - 1)
    } else {
        last_space(s.drop_last())
    }
}

/// The id of a command's parent: everything before the last space, the
/// empty id (the root) for a top-level command, and none for the root itself.
pub open spec fn parent_id_spec(id: Seq<char>) -> Option<Seq<char>> {
    if id.len() == 0 {
        None
    } else {
        match last_space(id) {
            Some(p) => Some(id.subrange(0, p)),
            None => Some(Seq::empty()),
        }
    }
}

proof fn lemma_last_space_props(s: Seq<char>)
    ensures
        match last_space(s) {
            Some(p) => 0 <= p < s.len() && s[p] == ' ' && forall|j: int|
                p < j < s.len() ==> s[j] != ' ',
            None => forall|j: int| 0 <= j < s.len() ==> s[j] != ' ',
        },
    decreases s.len(),
{
    if s.len() > 0 {
        let t = s.drop_last();
        lemma_last_space_props(t);
        assert(forall|j: int| 0 <= j < t.len() ==> t[j] == s[j]);
    }
}

proof fn lemma_last_space_is(s: Seq<char>, p: int)
    requires
        0 <= p < s.len(),
        s[p] == ' ',
        forall|j: int| p < j < s.len() ==> s[j] != ' ',
    ensures
        last_space(s) == Some(p),
    decreases s.len(),
{
    if p < s.len() - 1 {
        lemma_last_space_is(s.drop_last(), p);
    }
}

proof fn lemma_last_space_none(s: Seq<char>)
    requires
        forall|j: int| 0 <= j < s.len() ==> s[j] != ' ',
    ensures
        last_space(s) is None,
    decreases s.len(),
{
    if s.len() > 0 {
        lemma_last_space_none(s.drop_last());
    }
}

/// Get the parent ID from a node ID.
pub fn parent_id(id: &str) -> (r: Option<String>)
    ensures
        r is Some <==> parent_id_spec(id@) is Some,
        r matches Some(p) ==> p@ == parent_id_spec(id@)->0,
{
    let n = id.unicode_len();
    if n == 0 {
        return None;
    }
    let mut i: usize = n;
    while i > 0
        invariant
            n == id@.len(),
            i <= n,
            forall|j: int| i <= j < n ==> id@[j] != ' ',
        decreases i,
    {
        if id.get_char(i - 1) == ' ' {
            proof {
                lemma_last_space_is(id@, i - 1);
            }
            let mut out = String::new();
            let mut k: usize = 0;
            while k < i - 1
                invariant
                    i <= n,
                    n == id@.len(),
                    k <= i - 1,
                    out@ == id@.subrange(0, k as int),
                decreases i - 1 - k,
            {
                crate::text::string_push(&mut out, id.get_char(k));
                assert(id@.subrange(0, k + 1) =~= id@.subrange(0, k as int).push(id@[k as int]));
                k = k + 1;
            }
            return Some(out);
        }
        i = i - 1;
    }
    proof {
        lemma_last_space_none(id@);
    }
    Some(String::new())
}

/// The parent of a command one level below `parents` is the id of `parents`,
/// when the command's name is a non-empty word without spaces.
pub proof fn lemma_parent_of_child_id(parents: Seq<Seq<char>>, name: Seq<char>)
    requires
        name.len() > 0,
        forall|j: int| 0 <= j < name.len() ==> name[j] != ' ',
    ensures
        parent_id_spec(join_words(parents.push(name))) == Some(join_words(parents)),
{
    let id = join_words(parents.push(name));
    if parents.len() == 0 {
        assert(parents.push(name) =~= seq![name]);
        assert(id == name);
        lemma_last_space_none(name);
        assert(join_words(parents) == Seq::<char>::empty());
    } else {
        crate::text::lemma_join_push(parents, name);
        let a = join_words(parents);
        assert(id == a + seq![' '] + name);
        let p = a.len() as int;
        assert(id[p] == ' ');
        assert forall|j: int| p < j < id.len() implies id[j] != ' ' by {
            assert(id[j] == name[j - p - 1]);
        }
        lemma_last_space_is(id, p);
        assert(id.subrange(0, p) =~= a);
    }
}

} // verus!
