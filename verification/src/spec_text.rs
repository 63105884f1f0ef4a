//! Loading a usage spec from its text: usage-lib parses it, its commands,
//! flags, arguments and completion directives become the library's plain
//! values, and the `--cmd` override replaces the program name.

use vstd::prelude::*;

use crate::command_builder::bin_of;
use crate::spec_model::{ArgSpec, CliSpec, CommandSpec, CompleteSpec, FlagArgSpec, FlagSpec};
use crate::text::string_of;

verus! {

#[verifier::external_type_specification]
#[verifier::external_body]
pub struct ExSpecCommand(usage::SpecCommand);

#[verifier::external_type_specification]
#[verifier::external_body]
pub struct ExSpecFlag(usage::SpecFlag);

#[verifier::external_type_specification]
#[verifier::external_body]
pub struct ExSpecArg(usage::SpecArg);

#[verifier::external_type_specification]
#[verifier::external_body]
pub struct ExSpecComplete(usage::SpecComplete);

/// Copies usage-lib's command into the library's values, field for field;
/// a subcommand is named by its key in the parent's map, as the command
/// tree shows it. Nothing is claimed of the result.
#[verifier::external_body]
fn command_values(cmd: &usage::SpecCommand) -> CommandSpec {
    CommandSpec {
        name: cmd.name.clone(),
        help: cmd.help.clone(),
        aliases: cmd.aliases.clone(),
        hidden_aliases: cmd.hidden_aliases.clone(),
        hide: cmd.hide,
        flags: cmd.flags.iter().map(flag_values).collect(),
        args: cmd.args.iter().map(arg_values).collect(),
        subcommands: cmd.subcommands.iter().map(|(k, c)| CommandSpec { name: k.clone(), ..command_values(c) }).collect(),
        complete: cmd.complete.values().map(complete_values).collect(),
    }
}

/// Copies usage-lib's flag into the library's values, field for field.
/// Nothing is claimed of the result.
#[verifier::external_body]
fn flag_values(f: &usage::SpecFlag) -> FlagSpec {
    FlagSpec {
        name: f.name.clone(),
        help: f.help.clone(),
        short: f.short.clone(),
        long: f.long.clone(),
        required: f.required,
        hide: f.hide,
        global: f.global,
        count: f.count,
        arg: f.arg.as_ref().map(|a| FlagArgSpec { name: a.name.clone(), choices: a.choices.as_ref().map(|c| c.choices.clone()) }),
        default: f.default.clone(),
        negate: f.negate.clone(),
    }
}

/// Copies usage-lib's positional argument into the library's values, field
/// for field. Nothing is claimed of the result.
#[verifier::external_body]
fn arg_values(a: &usage::SpecArg) -> ArgSpec {
    ArgSpec {
        name: a.name.clone(),
        help: a.help.clone(),
        required: a.required,
        hide: a.hide,
        choices: a.choices.as_ref().map(|c| c.choices.clone()),
        default: a.default.clone(),
    }
}

/// Copies usage-lib's completion directive into the library's values.
/// Nothing is claimed of the result.
#[verifier::external_body]
fn complete_values(c: &usage::SpecComplete) -> CompleteSpec {
    CompleteSpec { name: c.name.clone(), run: c.run.clone(), descriptions: c.descriptions }
}

/// Calls usage-lib's `FromStr` for `Spec` on `text` and copies the result
/// into the library's values (usage-lib's error as its message). The
/// contract claims what usage-lib's parser does last: the root command is
/// named after `bin`, or after `name` when `bin` is empty. What else the
/// text gives is left unsaid; a spec may include other files, so the result
/// can depend on what is on disk.
#[verifier::external_body]
fn parse_usage_spec(text: &str) -> (r: Result<CliSpec, String>)
    ensures
        r matches Ok(s) ==> s.cmd.name@ == bin_of(s),
{
    match text.parse::<usage::Spec>() {
        Ok(s) => Ok(CliSpec { name: s.name.clone(), bin: s.bin.clone(), cmd: command_values(&s.cmd) }),
        Err(e) => Err(e.to_string()),
    }
}

/// The text of an optional string.
pub open spec fn opt_text(o: Option<&str>) -> Option<Seq<char>> {
    match o {
        Some(c) => Some(c@),
        None => None,
    }
}

/// `s` is `p` with the program name replaced by `cmd` when one is given.
pub open spec fn bin_overridden(p: CliSpec, cmd: Option<Seq<char>>, s: CliSpec) -> bool {
    &&& s.name == p.name
    &&& s.cmd == p.cmd
    &&& match cmd {
        Some(c) => s.bin@ == c,
        None => s.bin == p.bin,
    }
}

/// The spec with its program name replaced by `cmd` when one is given (the
/// root command keeps its name).
pub fn with_bin_override(spec: CliSpec, cmd: Option<&str>) -> (r: CliSpec)
    ensures
        bin_overridden(spec, opt_text(cmd), r),
{
    match cmd {
        Some(c) => CliSpec { bin: string_of(c), ..spec },
        None => spec,
    }
}

/// Load a spec from its text: parse it, then apply the `--cmd` override of
/// the program name. Without an override the root command is named after
/// the program (or the spec's name when it has no program name).
pub fn load_spec(text: &str, cmd: Option<&str>) -> (r: Result<CliSpec, String>)
    ensures
        r matches Ok(s) ==> exists|p: CliSpec| p.cmd.name@ == bin_of(p) && #[trigger] bin_overridden(p, opt_text(cmd), s),
        r matches Ok(s) ==> (cmd is None ==> s.cmd.name@ == bin_of(s)),
        r matches Ok(s) ==> (cmd matches Some(c) ==> s.bin@ == c@),
{
    match parse_usage_spec(text) {
        Ok(p) => {
            let ghost parsed = p;
            let s = with_bin_override(p, cmd);
            assert(bin_overridden(parsed, opt_text(cmd), s));
            Ok(s)
        },
        Err(e) => Err(e),
    }
}

} // verus!
