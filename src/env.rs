//! Selecting and listing environments.

use vstd::prelude::*;
use crate::app_config::{AppConfig, current_env};
use crate::config::Config;
use crate::strmap::strings_view;
use crate::text::{sort_strings, sorted_strictly};

verus! {

/// An environment as listed, with whether it is the selected one.
#[derive(Debug)]
pub struct EnvEntry {
    pub name: String,
    pub current: bool,
}

/// Which of `names` are marked as selected when `current` is selected.
pub open spec fn marks(names: Seq<Seq<char>>, current: Option<Seq<char>>) -> Seq<bool> {
    names.map_values(|n: Seq<char>| current == Some(n))
}

/// An optional string, by its characters.
pub open spec fn opt_view(o: Option<String>) -> Option<Seq<char>> {
    match o {
        Some(s) => Some(s@),
        None => None,
    }
}

/// The environment selected for `dir`.
pub fn get_env(store: &AppConfig, dir: &String) -> (r: Option<String>)
    ensures
        match current_env(*store, dir@) {
            Some(e) => r is Some && r->0@ == e,
            None => r is None,
        },
{
    match store.get_current_env(dir) {
        Some(e) => Some(e.clone()),
        None => None,
    }
}

/// Selects `env` for `dir`. The name is not checked against any configuration.
pub fn set_env(store: &mut AppConfig, dir: String, env: String)
    ensures
        current_env(*final(store), dir@) == Some(env@),
        final(store).envs@ == old(store).envs@.insert(dir@, env),
        final(store).ephenvs == old(store).ephenvs,
        final(store).prev_request == old(store).prev_request,
{
    store.set_current_env(dir, env);
}

/// The names of the environments of `config`, in increasing order.
pub fn list_envs(config: &Config) -> (r: Vec<String>)
    ensures
        sorted_strictly(strings_view(r@)),
        forall|x: Seq<char>| strings_view(r@).contains(x) <==> config.envs@.contains_key(x),
{
    let keys = config.envs.keys();
    let r = sort_strings(keys);
    proof {
        assert forall|x: Seq<char>| strings_view(r@).contains(x) <==> config.envs@.contains_key(
            x,
        ) by {
            config.envs.lemma_keys(x);
        }
    }
    r
}

/// `envs` with the one named `current`, if any, marked.
pub fn mark_current(envs: Vec<String>, current: &Option<String>) -> (r: Vec<EnvEntry>)
    ensures
        r@.len() == envs@.len(),
        forall|i: int|
            0 <= i < r@.len() ==> (#[trigger] r@[i]).name@ == envs@[i]@ && r@[i].current == marks(
                strings_view(envs@),
                opt_view(*current),
            )[i],
{
    let ghost cur = opt_view(*current);
    let mut out: Vec<EnvEntry> = Vec::new();
    let mut i: usize = 0;
    while i < envs.len()
        invariant
            i <= envs@.len(),
            cur == opt_view(*current),
            out@.len() == i,
            forall|k: int|
                0 <= k < i ==> (#[trigger] out@[k]).name@ == envs@[k]@ && out@[k].current == marks(
                    strings_view(envs@),
                    cur,
                )[k],
        decreases envs@.len() - i,
    {
        let is_current = match current {
            Some(c) => {
                assert(cur == Some(c@));
                *c == envs[i]
            },
            None => false,
        };
        assert(is_current == (cur == Some(envs@[i as int]@)));
        assert(strings_view(envs@)[i as int] == envs@[i as int]@);
        assert(marks(strings_view(envs@), cur)[i as int] == (cur == Some(envs@[i as int]@)));
        out.push(EnvEntry { name: envs[i].clone(), current: is_current });
        i = i + 1;
    }
    out
}

/// The environments of `config` in increasing order, the one selected for `dir` marked.
pub fn list(config: &Config, store: &AppConfig, dir: &String) -> (r: Vec<EnvEntry>)
    ensures
        sorted_strictly(r@.map_values(|e: EnvEntry| e.name@)),
        forall|x: Seq<char>|
            r@.map_values(|e: EnvEntry| e.name@).contains(x) <==> config.envs@.contains_key(x),
        forall|i: int|
            0 <= i < r@.len() ==> (#[trigger] r@[i]).current == (current_env(*store, dir@) == Some(
                r@[i].name@,
            )),
{
    let names = list_envs(config);
    let ghost names_view = strings_view(names@);
    let current = get_env(store, dir);
    let r = mark_current(names, &current);
    assert(r@.map_values(|e: EnvEntry| e.name@) =~= names_view);
    r
}

/// Once `name` is selected for `dir`, a listing there marks that name and no other:
/// an entry is marked exactly when the selection is its name.
pub proof fn lemma_select_then_list(
    store: AppConfig,
    selected: AppConfig,
    dir: Seq<char>,
    name: String,
    names: Seq<Seq<char>>,
)
    requires
        selected.envs@ == store.envs@.insert(dir, name),
    ensures
        current_env(selected, dir) == Some(name@),
        forall|n: Seq<char>| (current_env(selected, dir) == Some(n)) <==> n == name@,
        forall|i: int|
            0 <= i < names.len() ==> (#[trigger] marks(names, current_env(selected, dir))[i] <==> names[i]
                == name@),
{
}

} // verus!
