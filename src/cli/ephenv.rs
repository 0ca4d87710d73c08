//! `ephenv set <key> <value>`.

use vstd::prelude::*;
use crate::app_config::{AppConfig, ephemeral_of};
use crate::ephenv::set_ephenv;

verus! {

#[derive(Debug)]
pub struct EphenvSetArguments {
    pub key: String,
    pub value: String,
}

#[derive(Debug)]
pub enum EphenvCommand {
    SetValue(EphenvSetArguments),
}

/// Runs an `ephenv` command for the directory `dir`.
pub fn init(command: EphenvCommand, store: &mut AppConfig, dir: String)
    ensures
        match command {
            EphenvCommand::SetValue(args) => {
                &&& ephemeral_of(*final(store), dir@) == ephemeral_of(*old(store), dir@).insert(
                    args.key@,
                    args.value@,
                )
                &&& forall|d: Seq<char>|
                    d != dir@ ==> #[trigger] final(store).ephenvs@.get(d) == old(
                        store,
                    ).ephenvs@.get(d)
                &&& final(store).envs == old(store).envs
                &&& final(store).prev_request == old(store).prev_request
            },
        },
{
    match command {
        EphenvCommand::SetValue(args) => set_ephenv(store, dir, args.key, args.value),
    }
}

} // verus!
