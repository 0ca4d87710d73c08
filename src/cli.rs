//! The command-line surface that the command tree defines, as a declarative
//! description for an argument parser.


pub mod env;
pub mod ephenv;
pub mod last;

use vstd::prelude::*;
use crate::case::{kebab_case_of, to_kebab_case};
use crate::command::{Command, command_param_names};
use crate::config::{CommandType, Config};
use crate::strmap::{StrMap, strings_view};
use crate::text::prefixed;

verus! {

/// The help text of a parameter's flag starts with this.
pub const PARAM_HELP_PREFIX: &'static str = "Provide value for the param :";

/// `import <file>`: the OpenAPI document to turn into a command tree.
#[derive(Debug)]
pub struct ImportArguments {
    pub file: String,
}

/// A flag that takes one optional string value.
#[derive(Debug)]
pub struct ArgSpec {
    pub id: String,
    pub long: String,
    pub value_name: String,
    pub help: String,
}

/// A command of the surface, with its flags and its subcommands.
#[derive(Debug)]
pub struct CommandSpec {
    pub name: String,
    pub arg_required_else_help: bool,
    pub args: Vec<ArgSpec>,
    pub subcommands: Vec<CommandSpec>,
}

/// `a` is the flag of parameter `p`: named by the parameter, long form in kebab case.
pub open spec fn describes_arg(a: ArgSpec, p: Seq<char>) -> bool {
    &&& a.id@ == p
    &&& a.long@ == kebab_case_of(p)
    &&& a.value_name@ == p
    &&& a.help@ == PARAM_HELP_PREFIX@ + p
}

/// `spec` is the surface of the node `node` named `name`: a command becomes a leaf with
/// one flag per parameter, which asks for help when run bare if it has any; a group
/// becomes a command that asks for help when run bare, with one subcommand per entry.
pub open spec fn describes(spec: CommandSpec, name: Seq<char>, node: CommandType) -> bool
    decreases node,
{
    &&& spec.name@ == name
    &&& match node {
        CommandType::Command(c) => {
            let ps = command_param_names(c);
            &&& spec.arg_required_else_help == (ps.len() > 0)
            &&& spec.args@.len() == ps.len()
            &&& forall|i: int| 0 <= i < ps.len() ==> describes_arg(#[trigger] spec.args@[i], ps[i])
            &&& spec.subcommands@.len() == 0
        },
        CommandType::NestedCommand(m) => {
            &&& spec.arg_required_else_help
            &&& spec.args@.len() == 0
            &&& describes_group(spec.subcommands@, m)
        },
    }
}

/// `subs` are the surfaces of the entries of `m`, in order.
pub open spec fn describes_group(subs: Seq<CommandSpec>, m: StrMap<Box<CommandType>>) -> bool
    decreases m,
    via describes_group_decreases
{
    &&& subs.len() == m.pairs().len()
    &&& forall|i: int|
        0 <= i < subs.len() ==> describes(#[trigger] subs[i], m.pairs()[i].0, *m.pairs()[i].1)
}

#[via_fn]
proof fn describes_group_decreases(subs: Seq<CommandSpec>, m: StrMap<Box<CommandType>>) {
    assert forall|i: int| 0 <= i < subs.len() && subs.len() == m.pairs().len() implies decreases_to!(
        m => *m.pairs()[i].1) by {
        m.lemma_value_decreases(i);
    }
}

/// The flag of parameter `param`, whose long form is `long`.
pub fn arg_spec(param: &String, long: String) -> (r: ArgSpec)
    ensures
        r.id@ == param@,
        r.long@ == long@,
        r.value_name@ == param@,
        r.help@ == PARAM_HELP_PREFIX@ + param@,
{
    ArgSpec {
        id: param.clone(),
        long,
        value_name: param.clone(),
        help: prefixed(PARAM_HELP_PREFIX, param.as_str()),
    }
}

/// The surface of a command: one flag per parameter.
fn command_spec_of(name: &String, c: &Command) -> (r: CommandSpec)
    ensures
        describes(r, name@, CommandType::Command(*c)),
{
    let params = c.params();
    let mut args: Vec<ArgSpec> = Vec::new();
    let mut i: usize = 0;
    while i < params.len()
        invariant
            i <= params.len(),
            strings_view(params@) == command_param_names(*c),
            args@.len() == i,
            forall|k: int| 0 <= k < i ==> describes_arg(#[trigger] args@[k], params@[k]@),
        decreases params.len() - i,
    {
        let long = to_kebab_case(&params[i]);
        args.push(arg_spec(&params[i], long));
        i = i + 1;
    }
    CommandSpec {
        name: name.clone(),
        arg_required_else_help: params.len() > 0,
        args,
        subcommands: Vec::new(),
    }
}

/// `command` with one subcommand added for each entry of `config_commands`, in order.
pub fn formulate_command(command: CommandSpec, config_commands: &StrMap<Box<CommandType>>) -> (r:
    CommandSpec)
    ensures
        r.name == command.name,
        r.arg_required_else_help == command.arg_required_else_help,
        r.args == command.args,
        r.subcommands@.len() == command.subcommands@.len() + config_commands.pairs().len(),
        r.subcommands@.subrange(0, command.subcommands@.len() as int) == command.subcommands@,
        describes_group(
            r.subcommands@.subrange(command.subcommands@.len() as int, r.subcommands@.len() as int),
            *config_commands,
        ),
    decreases config_commands,
{
    let ghost given = command;
    let mut command = command;
    let ghost start = command.subcommands@;
    let mut i: usize = 0;
    while i < config_commands.len()
        invariant
            i <= config_commands.pairs().len(),
            command.name == given.name,
            command.arg_required_else_help == given.arg_required_else_help,
            command.args == given.args,
            start == given.subcommands@,
            command.subcommands@.len() == start.len() + i,
            command.subcommands@.subrange(0, start.len() as int) == start,
            forall|k: int|
                0 <= k < i ==> describes(
                    #[trigger] command.subcommands@[start.len() + k],
                    config_commands.pairs()[k].0,
                    *config_commands.pairs()[k].1,
                ),
        decreases config_commands.pairs().len() - i,
    {
        let key = config_commands.key_at(i);
        let sub = match &**config_commands.value_at(i) {
            CommandType::Command(c) => command_spec_of(key, c),
            CommandType::NestedCommand(nested) => {
                proof {
                    config_commands.lemma_value_decreases(i as int);
                }
                let group = CommandSpec {
                    name: key.clone(),
                    arg_required_else_help: true,
                    args: Vec::new(),
                    subcommands: Vec::new(),
                };
                let built = formulate_command(group, nested);
                assert(built.subcommands@.subrange(0, built.subcommands@.len() as int)
                    =~= built.subcommands@);
                built
            },
        };
        let ghost before = command.subcommands@;
        command.subcommands.push(sub);
        assert(command.subcommands@.subrange(0, start.len() as int) =~= before.subrange(
            0,
            start.len() as int,
        ));
        assert(command.subcommands@[start.len() + i] == sub);
        assert forall|k: int| 0 <= k < i + 1 implies describes(
            #[trigger] command.subcommands@[start.len() + k],
            config_commands.pairs()[k].0,
            *config_commands.pairs()[k].1,
        ) by {
            if k < i {
                assert(command.subcommands@[start.len() + k] == before[start.len() + k]);
            }
        }
        i = i + 1;
    }
    let ghost subs = command.subcommands@.subrange(
        start.len() as int,
        command.subcommands@.len() as int,
    );
    assert forall|k: int| 0 <= k < subs.len() implies describes(
        #[trigger] subs[k],
        config_commands.pairs()[k].0,
        *config_commands.pairs()[k].1,
    ) by {
        assert(subs[k] == command.subcommands@[start.len() + k]);
    }
    command
}

/// The `run` command, with the surface of the whole command tree under it.
pub fn get_run_command(config: &Config) -> (r: CommandSpec)
    ensures
        r.name@ == "run"@,
        r.arg_required_else_help,
        r.args@.len() == 0,
        describes_group(r.subcommands@, config.commands),
{
    let command = CommandSpec {
        name: String::from_str("run"),
        arg_required_else_help: true,
        args: Vec::new(),
        subcommands: Vec::new(),
    };
    let r = formulate_command(command, &config.commands);
    assert(r.subcommands@.subrange(0, r.subcommands@.len() as int) =~= r.subcommands@);
    r
}

} // verus!
