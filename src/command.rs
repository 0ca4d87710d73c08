//! A command of the tree: an HTTP call template and the postscript that follows it.

use vstd::prelude::*;
use crate::case::{to_upper_snake_case, upper_snake_case_of};
use crate::error::{CliError, ErrorKind, is_error, postscript_failed};
use crate::http::HttpMethod;
use crate::params::{
    get_params_from_string, lemma_param_names_first_seen, lemma_unique, lemma_unique_idempotent,
    lemma_unique_keeps_prefix, param_names, union_params, unique,
};
use crate::strmap::{StrMap, strings_view};
use crate::text::{join_path, path_join, prefixed};

verus! {

/// The project-local directory that holds the configuration and the postscripts.
pub const CONFIG_DIR: &'static str = ".hit";

/// The directory, under `CONFIG_DIR`, that holds the postscripts.
pub const POSTSCRIPTS_DIR: &'static str = "postscripts";

/// The variable through which a postscript learns the path of the response file.
pub const RESPONSE_PATH_VAR: &'static str = "HIT_RESPONSE_PATH";

/// The prefix of the variables through which a postscript learns resolved values.
pub const POSTSCRIPT_VAR_PREFIX: &'static str = "HIT_";

/// An external command run after a request, on a script file of the project.
#[derive(Debug)]
pub struct PostScriptConfig {
    pub command: String,
    pub file: String,
}

/// A JSON body template, held as its compact and its pretty-printed serialization.
#[derive(Debug)]
pub struct RequestBody {
    pub compact: String,
    pub pretty: String,
}

/// An HTTP call template.
#[derive(Debug)]
pub struct Command {
    pub method: HttpMethod,
    pub url: String,
    pub headers: StrMap<String>,
    pub body: Option<RequestBody>,
    pub postscript: Option<PostScriptConfig>,
}

/// A postscript to start: the command, its script argument and the variables to set.
#[derive(Debug)]
pub struct PostscriptRun {
    pub command: String,
    pub script_path: String,
    pub env: Vec<(String, String)>,
}

/// The parameters of the URL.
pub open spec fn route_param_names(c: Command) -> Seq<Seq<char>> {
    param_names(c.url@)
}

/// The parameters of the body, read from its compact serialization.
pub open spec fn body_param_names(c: Command) -> Seq<Seq<char>> {
    match c.body {
        Some(b) => param_names(b.compact@),
        None => Seq::empty(),
    }
}

/// All parameters: those of the URL, then those of the body that the URL lacks.
pub open spec fn command_param_names(c: Command) -> Seq<Seq<char>> {
    unique(route_param_names(c) + body_param_names(c))
}

/// Where the script of a postscript lies.
pub open spec fn script_path_of(p: PostScriptConfig) -> Seq<char> {
    path_join(path_join(CONFIG_DIR@, POSTSCRIPTS_DIR@), p.file@)
}

/// The variables handed to a postscript: each name upper-snake-cased behind the prefix,
/// each value as it is, in the order of `vars`.
pub open spec fn postscript_env(env: Seq<(String, String)>, vars: Seq<(Seq<char>, String)>) -> bool {
    &&& env.len() == vars.len()
    &&& forall|i: int|
        0 <= i < env.len() ==> (#[trigger] env[i]).0@ == POSTSCRIPT_VAR_PREFIX@
            + upper_snake_case_of(vars[i].0) && env[i].1@ == vars[i].1@
}

/// The name under which a postscript sees a variable, from its upper-snake-cased name.
pub fn postscript_var_name(upper_snake: &str) -> (r: String)
    ensures
        r@ == POSTSCRIPT_VAR_PREFIX@ + upper_snake@,
{
    prefixed(POSTSCRIPT_VAR_PREFIX, upper_snake)
}

impl Command {
    pub fn route_params(&self) -> (r: Vec<String>)
        ensures
            strings_view(r@) == route_param_names(*self),
    {
        get_params_from_string(self.url.as_str())
    }

    pub fn body_params(&self) -> (r: Vec<String>)
        ensures
            strings_view(r@) == body_param_names(*self),
    {
        match &self.body {
            Some(body) => get_params_from_string(body.compact.as_str()),
            None => {
                let r: Vec<String> = Vec::new();
                assert(strings_view(r@) =~= Seq::<Seq<char>>::empty());
                r
            },
        }
    }

    pub fn params(&self) -> (r: Vec<String>)
        ensures
            strings_view(r@) == command_param_names(*self),
    {
        let route = self.route_params();
        union_params(&route, self.body_params())
    }

    /// Where the script of the postscript lies, if there is a postscript.
    pub fn postscript_path(&self) -> (r: Option<String>)
        ensures
            match self.postscript {
                Some(p) => r is Some && r->0@ == script_path_of(p),
                None => r is None,
            },
    {
        match &self.postscript {
            Some(p) => {
                let dir = join_path(CONFIG_DIR, POSTSCRIPTS_DIR);
                Some(join_path(dir.as_str(), p.file.as_str()))
            },
            None => None,
        }
    }

    /// The postscript to start after a run, with `env_vars` exposed to it. Nothing is
    /// started without a postscript or when its script file does not exist.
    pub fn run_post_command_script(&self, env_vars: &StrMap<String>, script_exists: bool) -> (r:
        Option<PostscriptRun>)
        ensures
            (self.postscript is None || !script_exists) <==> r is None,
            r is Some ==> {
                let p = self.postscript->0;
                let run = r->0;
                &&& run.command@ == p.command@
                &&& run.script_path@ == script_path_of(p)
                &&& postscript_env(run.env@, env_vars.pairs())
            },
    {
        if !script_exists {
            return None;
        }
        match &self.postscript {
            None => None,
            Some(p) => {
                let script_path = match self.postscript_path() {
                    Some(path) => path,
                    None => String::new(),
                };
                let mut env: Vec<(String, String)> = Vec::new();
                let mut i: usize = 0;
                while i < env_vars.len()
                    invariant
                        i <= env_vars.pairs().len(),
                        postscript_env(env@, env_vars.pairs().subrange(0, i as int)),
                    decreases env_vars.pairs().len() - i,
                {
                    let snake = to_upper_snake_case(env_vars.key_at(i));
                    let name = postscript_var_name(snake.as_str());
                    let value = env_vars.value_at(i).clone();
                    env.push((name, value));
                    i = i + 1;
                }
                assert(env_vars.pairs().subrange(0, i as int) =~= env_vars.pairs());
                Some(PostscriptRun { command: p.command.clone(), script_path, env })
            },
        }
    }
}

/// A command's parameters are those of its URL followed by those of its body that
/// the URL lacks: no name twice, every name of either part present, and extracting
/// them again from the same command gives the same list.
pub proof fn lemma_params_union(c: Command)
    ensures
        command_param_names(c).no_duplicates(),
        forall|x: Seq<char>|
            command_param_names(c).contains(x) <==> route_param_names(c).contains(x)
                || body_param_names(c).contains(x),
        command_param_names(c).len() >= route_param_names(c).len(),
        command_param_names(c).subrange(0, route_param_names(c).len() as int) == route_param_names(
            c,
        ),
        unique(command_param_names(c)) == command_param_names(c),
{
    let route = route_param_names(c);
    let body = body_param_names(c);
    lemma_param_names_first_seen(c.url@);
    lemma_unique(route + body);
    lemma_unique_keeps_prefix(route, body);
    lemma_unique_idempotent(route + body);
    assert forall|x: Seq<char>| (route + body).contains(x) <==> route.contains(x) || body.contains(
        x,
    ) by {
        if (route + body).contains(x) {
            let k = choose|k: int| 0 <= k < (route + body).len() && (route + body)[k] == x;
            if k >= route.len() {
                assert(body[k - route.len()] == x);
            }
        }
        if route.contains(x) {
            let k = choose|k: int| 0 <= k < route.len() && route[k] == x;
            assert((route + body)[k] == x);
        }
        if body.contains(x) {
            let k = choose|k: int| 0 <= k < body.len() && body[k] == x;
            assert((route + body)[k + route.len()] == x);
        }
    }
}


/// A postscript that did not succeed fails the run.
pub fn postscript_outcome(succeeded: bool) -> (r: Result<(), CliError>)
    ensures
        succeeded <==> r is Ok,
        r is Err ==> is_error(r->Err_0, ErrorKind::ExternalProcess, "postscript failed"@),
{
    if succeeded {
        Ok(())
    } else {
        Err(postscript_failed())
    }
}

} // verus!
