//! Ephemeral overrides of environment variables, per directory.

use vstd::prelude::*;
use crate::app_config::{AppConfig, ephemeral_of};
use crate::strmap::{StrMap, string_view};

verus! {

/// The ephemeral overrides of `dir`; empty if it has none.
pub fn get_ephenvs(store: &AppConfig, dir: &String) -> (r: StrMap<String>)
    ensures
        string_view(r@) == ephemeral_of(*store, dir@),
{
    match store.get_ephenvs(dir) {
        Some(m) => m.duplicate(),
        None => {
            let r = StrMap::new();
            assert(string_view(r@) =~= Map::<Seq<char>, Seq<char>>::empty());
            r
        },
    }
}

/// Sets the ephemeral override `key` of `dir` to `value`.
pub fn set_ephenv(store: &mut AppConfig, dir: String, key: String, value: String)
    ensures
        ephemeral_of(*final(store), dir@) == ephemeral_of(*old(store), dir@).insert(key@, value@),
        forall|d: Seq<char>|
            d != dir@ ==> #[trigger] final(store).ephenvs@.get(d) == old(store).ephenvs@.get(d),
        final(store).envs == old(store).envs,
        final(store).prev_request == old(store).prev_request,
{
    store.set_ephenv(dir, key, value);
}

} // verus!
