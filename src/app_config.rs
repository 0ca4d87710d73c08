//! The user-level state, kept per working directory: the selected environment, the
//! ephemeral overrides and the last response.

use vstd::prelude::*;
use crate::http::Response;
use crate::strmap::{StrMap, string_view};
use crate::text::{join_path, path_join};

verus! {

/// The state of every directory in which the tool has been used, each keyed by the
/// directory's canonical path.
#[derive(Debug)]
pub struct AppConfig {
    pub envs: StrMap<String>,
    pub ephenvs: StrMap<StrMap<String>>,
    pub prev_request: StrMap<Response>,
}

/// The environment selected for `dir`, if any.
pub open spec fn current_env(store: AppConfig, dir: Seq<char>) -> Option<Seq<char>> {
    if store.envs@.contains_key(dir) {
        Some(store.envs@[dir]@)
    } else {
        None
    }
}

/// The ephemeral overrides of `dir`; none if it has none.
pub open spec fn ephemeral_of(store: AppConfig, dir: Seq<char>) -> Map<Seq<char>, Seq<char>> {
    if store.ephenvs@.contains_key(dir) {
        string_view(store.ephenvs@[dir]@)
    } else {
        Map::empty()
    }
}

/// The file, under the user's configuration directory, that holds the state.
pub open spec fn app_config_file_path(config_dir: Seq<char>) -> Seq<char> {
    path_join(config_dir, "config.json"@)
}

pub fn get_app_config_file_path(config_dir: &str) -> (r: String)
    ensures
        r@ == app_config_file_path(config_dir@),
{
    join_path(config_dir, "config.json")
}

impl AppConfig {
    pub fn new() -> (r: AppConfig)
        ensures
            r.envs@ == Map::<Seq<char>, String>::empty(),
            r.ephenvs@ == Map::<Seq<char>, StrMap<String>>::empty(),
            r.prev_request@ == Map::<Seq<char>, Response>::empty(),
    {
        AppConfig { envs: StrMap::new(), ephenvs: StrMap::new(), prev_request: StrMap::new() }
    }

    pub fn get_current_env(&self, dir: &String) -> (r: Option<&String>)
        ensures
            match current_env(*self, dir@) {
                Some(e) => r is Some && r->0@ == e,
                None => r is None,
            },
    {
        self.envs.get(dir)
    }

    /// Selects `env` for `dir`, whether or not a configuration defines it.
    pub fn set_current_env(&mut self, dir: String, env: String)
        ensures
            final(self).envs@ == old(self).envs@.insert(dir@, env),
            final(self).ephenvs == old(self).ephenvs,
            final(self).prev_request == old(self).prev_request,
    {
        self.envs.insert(dir, env);
    }

    pub fn get_ephenvs(&self, dir: &String) -> (r: Option<&StrMap<String>>)
        ensures
            r is Some <==> self.ephenvs@.contains_key(dir@),
            r is Some ==> *r->0 == self.ephenvs@[dir@],
    {
        self.ephenvs.get(dir)
    }

    /// Sets the ephemeral override `key` of `dir` to `value`.
    pub fn set_ephenv(&mut self, dir: String, key: String, value: String)
        ensures
            final(self).ephenvs@.dom() == old(self).ephenvs@.dom().insert(dir@),
            ephemeral_of(*final(self), dir@) == ephemeral_of(*old(self), dir@).insert(
                key@,
                value@,
            ),
            forall|d: Seq<char>|
                d != dir@ ==> #[trigger] final(self).ephenvs@.get(d) == old(self).ephenvs@.get(d),
            final(self).envs == old(self).envs,
            final(self).prev_request == old(self).prev_request,
    {
        let mut inner = match self.ephenvs.get(&dir) {
            Some(m) => m.duplicate(),
            None => StrMap::new(),
        };
        let ghost before = inner@;
        inner.insert(key, value);
        assert(string_view(inner@) =~= string_view(before).insert(key@, value@));
        self.ephenvs.insert(dir, inner);
        assert(final(self).ephenvs@.dom() =~= old(self).ephenvs@.dom().insert(dir@));
    }

    /// Keeps `response` as the last response of `dir`, in place of any earlier one.
    pub fn set_prev_request(&mut self, dir: String, response: Response)
        ensures
            final(self).prev_request@ == old(self).prev_request@.insert(dir@, response),
            final(self).envs == old(self).envs,
            final(self).ephenvs == old(self).ephenvs,
    {
        self.prev_request.insert(dir, response);
    }

    pub fn get_prev_request(&self, dir: &String) -> (r: Option<&Response>)
        ensures
            r is Some <==> self.prev_request@.contains_key(dir@),
            r is Some ==> *r->0 == self.prev_request@[dir@],
    {
        self.prev_request.get(dir)
    }
}

} // verus!
