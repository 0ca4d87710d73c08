//! `env use <name>` and `env list`.

use vstd::prelude::*;
use crate::app_config::{AppConfig, current_env};
use crate::config::Config;
use crate::env::{EnvEntry, list, set_env};
use crate::text::sorted_strictly;

verus! {

#[derive(Debug)]
pub struct EnvUseArguments {
    pub env: String,
}

#[derive(Debug)]
pub enum EnvCommand {
    Use(EnvUseArguments),
    List,
}

/// What an `env` command leaves to show.
#[derive(Debug)]
pub enum EnvOutput {
    Selected,
    Listing(Vec<EnvEntry>),
}

/// Runs an `env` command for the directory `dir`: `use` selects an environment,
/// `list` lists them with the selected one marked.
pub fn init(command: EnvCommand, config: &Config, store: &mut AppConfig, dir: String) -> (r:
    EnvOutput)
    ensures
        match command {
            EnvCommand::Use(args) => {
                &&& r is Selected
                &&& final(store).envs@ == old(store).envs@.insert(dir@, args.env)
                &&& final(store).ephenvs == old(store).ephenvs
                &&& final(store).prev_request == old(store).prev_request
            },
            EnvCommand::List => {
                &&& *final(store) == *old(store)
                &&& r matches EnvOutput::Listing(entries) && {
                    &&& sorted_strictly(entries@.map_values(|e: EnvEntry| e.name@))
                    &&& forall|x: Seq<char>|
                        entries@.map_values(|e: EnvEntry| e.name@).contains(x)
                            <==> config.envs@.contains_key(x)
                    &&& forall|i: int|
                        0 <= i < entries@.len() ==> (#[trigger] entries@[i]).current == (
                        current_env(*old(store), dir@) == Some(entries@[i].name@))
                }
            },
        },
{
    match command {
        EnvCommand::Use(args) => {
            set_env(store, dir, args.env);
            EnvOutput::Selected
        },
        EnvCommand::List => EnvOutput::Listing(list(config, store, &dir)),
    }
}

} // verus!
