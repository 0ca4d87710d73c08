//! The command tree and the environments of a project.

use vstd::prelude::*;
use crate::command::{Command, CONFIG_DIR};
use crate::error::{CliError, ErrorKind, command_not_recognized, is_error, no_command_selected};
use crate::strmap::{StrMap, strings_view};
use crate::text::{join_path, path_join};

verus! {

/// A node of the command tree: a command, or a group of named nodes.
#[derive(Debug)]
pub enum CommandType {
    Command(Command),
    NestedCommand(StrMap<Box<CommandType>>),
}

/// The persisted configuration of a project: named environments, each a set of
/// variables, and the command tree.
#[derive(Debug)]
pub struct Config {
    pub envs: StrMap<StrMap<String>>,
    pub commands: StrMap<Box<CommandType>>,
}

/// The file, relative to the project, that holds its configuration.
pub open spec fn config_file_path() -> Seq<char> {
    path_join(CONFIG_DIR@, "config.json"@)
}

pub fn get_config_file_path() -> (r: String)
    ensures
        r@ == config_file_path(),
{
    join_path(CONFIG_DIR, "config.json")
}

/// What a path of names selects in a command tree.
pub enum Selection {
    Found(Command),
    /// A name of the path is not in the tree, or the path is empty.
    NotRecognized,
    /// The path ends at a group.
    NoneSelected,
}

/// What `path` selects in `tree`: each name picks a node of the current group, and
/// the walk ends at the first command.
pub open spec fn select_command(tree: StrMap<Box<CommandType>>, path: Seq<Seq<char>>) -> Selection
    decreases path.len(),
{
    if path.len() == 0 || !tree@.contains_key(path[0]) {
        Selection::NotRecognized
    } else {
        match *tree@[path[0]] {
            CommandType::Command(c) => Selection::Found(c),
            CommandType::NestedCommand(sub) => if path.len() == 1 {
                Selection::NoneSelected
            } else {
                select_command(sub, path.drop_first())
            },
        }
    }
}

/// The command that `path` selects in `commands`: the walk takes one name at a time
/// and stops at the first command; a path that ends at a group selects nothing.
pub fn obtain_run_command<'a>(commands: &'a StrMap<Box<CommandType>>, path: &[String]) -> (r: Result<
    &'a Command,
    CliError,
>)
    ensures
        match select_command(*commands, strings_view(path@)) {
            Selection::Found(c) => r is Ok && *r->Ok_0 == c,
            Selection::NotRecognized => r is Err && is_error(
                r->Err_0,
                ErrorKind::Resolution,
                "command not recognized"@,
            ),
            Selection::NoneSelected => r is Err && is_error(
                r->Err_0,
                ErrorKind::Resolution,
                "no command selected"@,
            ),
        },
    decreases path.len(),
{
    if path.len() == 0 {
        return Err(command_not_recognized());
    }
    match commands.get(&path[0]) {
        None => Err(command_not_recognized()),
        Some(node) => match &**node {
            CommandType::Command(c) => Ok(c),
            CommandType::NestedCommand(sub) => {
                if path.len() == 1 {
                    Err(no_command_selected())
                } else {
                    let rest = slice_rest(path);
                    assert(strings_view(rest@) =~= strings_view(path@).drop_first());
                    obtain_run_command(sub, rest)
                }
            },
        },
    }
}

/// `s` without its first element.
fn slice_rest<T>(s: &[T]) -> (r: &[T])
    requires
        s@.len() > 0,
    ensures
        r@ == s@.drop_first(),
{
    let (_, rest) = s.split_at(1);
    rest
}

} // verus!
