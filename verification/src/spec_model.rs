//! The usage spec as plain values: commands, flags, positional arguments
//! and completion directives, with the lookups the builder needs.

use vstd::prelude::*;

use crate::text::str_eq;

verus! {

/// The value a flag takes, with its optional fixed choices.
#[derive(Debug, Clone)]
pub struct FlagArgSpec {
    pub name: String,
    pub choices: Option<Vec<String>>,
}

/// One flag of a command.
#[derive(Debug, Clone)]
pub struct FlagSpec {
    pub name: String,
    pub help: Option<String>,
    pub short: Vec<char>,
    pub long: Vec<String>,
    pub required: bool,
    pub hide: bool,
    pub global: bool,
    pub count: bool,
    pub arg: Option<FlagArgSpec>,
    pub default: Vec<String>,
    pub negate: Option<String>,
}

/// One positional argument of a command.
#[derive(Debug, Clone)]
pub struct ArgSpec {
    pub name: String,
    pub help: Option<String>,
    pub required: bool,
    pub hide: bool,
    pub choices: Option<Vec<String>>,
    pub default: Vec<String>,
}

/// A `complete` directive: the command that lists values for an argument.
#[derive(Debug, Clone)]
pub struct CompleteSpec {
    pub name: String,
    pub run: Option<String>,
    pub descriptions: bool,
}

/// A command with its flags, arguments and subcommands (in declaration order).
#[derive(Debug)]
pub struct CommandSpec {
    pub name: String,
    pub help: Option<String>,
    pub aliases: Vec<String>,
    pub hidden_aliases: Vec<String>,
    pub hide: bool,
    pub flags: Vec<FlagSpec>,
    pub args: Vec<ArgSpec>,
    pub subcommands: Vec<CommandSpec>,
    pub complete: Vec<CompleteSpec>,
}

/// A whole usage spec: display name, binary and the root command.
#[derive(Debug)]
pub struct CliSpec {
    pub name: String,
    pub bin: String,
    pub cmd: CommandSpec,
}

/// Whether `q` is one of the strings in `names`.
pub open spec fn names_contain(names: Seq<String>, q: Seq<char>) -> bool {
    exists|k: int| 0 <= k < names.len() && names[k]@ == q
}

/// Whether a subcommand answers to `q` by its name, an alias or a hidden alias.
pub open spec fn answers_to(c: CommandSpec, q: Seq<char>) -> bool {
    c.name@ == q || names_contain(c.aliases@, q) || names_contain(c.hidden_aliases@, q)
}

/// The subcommand that a lookup of `q` finds: the last one in declaration
/// order that answers to `q` (a later name or alias overrides an earlier one).
pub open spec fn find_subcommand_index(cmd: CommandSpec, q: Seq<char>) -> Option<int> {
    let subs = cmd.subcommands@;
    if exists|i: int| 0 <= i < subs.len() && answers_to(subs[i], q) {
        Some(
            choose|i: int|
                0 <= i < subs.len() && answers_to(subs[i], q) && forall|j: int|
                    i < j < subs.len() ==> !answers_to(#[trigger] subs[j], q),
        )
    } else {
        None
    }
}

fn names_contain_exec(names: &Vec<String>, q: &str) -> (r: bool)
    ensures
        r == names_contain(names@, q@),
{
    let mut k: usize = 0;
    while k < names.len()
        invariant
            k <= names.len(),
            forall|j: int| 0 <= j < k ==> names@[j]@ != q@,
        decreases names.len() - k,
    {
        if str_eq(names[k].as_str(), q) {
            return true;
        }
        k = k + 1;
    }
    false
}

fn answers_to_exec(c: &CommandSpec, q: &str) -> (r: bool)
    ensures
        r == answers_to(*c, q@),
{
    str_eq(c.name.as_str(), q) || names_contain_exec(&c.aliases, q) || names_contain_exec(
        &c.hidden_aliases,
        q,
    )
}

impl CommandSpec {
    /// Position of the subcommand reached by `q` (name, alias or hidden alias).
    pub fn find_subcommand_position(&self, q: &str) -> (r: Option<usize>)
        ensures
            r is Some <==> find_subcommand_index(*self, q@) is Some,
            r matches Some(i) ==> i < self.subcommands@.len() && i as int == find_subcommand_index(
                *self,
                q@,
            )->0,
    {
        let subs = &self.subcommands;
        let mut i: usize = subs.len();
        while i > 0
            invariant
                i <= subs.len(),
                subs@ == self.subcommands@,
                forall|j: int| i <= j < subs.len() ==> !answers_to(#[trigger] subs@[j], q@),
            decreases i,
        {
            if answers_to_exec(&subs[i - 1], q) {
                let ghost w = (i - 1) as int;
                assert(forall|j: int| w < j < subs.len() ==> !answers_to(#[trigger] subs@[j], q@));
                proof {
                    let c = choose|k: int|
                        0 <= k < subs@.len() && answers_to(subs@[k], q@) && forall|j: int|
                            k < j < subs@.len() ==> !answers_to(#[trigger] subs@[j], q@);
                    assert(c == w) by {
                        if c < w {
                            assert(!answers_to(subs@[w], q@));
                        } else if c > w {
                            assert(!answers_to(subs@[c], q@));
                        }
                    }
                }
                return Some(i - 1);
            }
            i = i - 1;
        }
        None
    }

    /// The subcommand reached by `q` (name, alias or hidden alias), if any.
    pub fn find_subcommand(&self, q: &str) -> (r: Option<&CommandSpec>)
        ensures
            r is Some <==> find_subcommand_index(*self, q@) is Some,
            r matches Some(c) ==> *c == self.subcommands@[find_subcommand_index(*self, q@)->0],
    {
        match self.find_subcommand_position(q) {
            Some(i) => Some(&self.subcommands[i]),
            None => None,
        }
    }
}

} // verus!
