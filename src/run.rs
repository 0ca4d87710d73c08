//! Running a command: the decisions taken before the request is sent.

use vstd::prelude::*;
use crate::app_config::{AppConfig, current_env, ephemeral_of};
use crate::command::{Command, PostscriptRun, postscript_env, script_path_of};
use crate::config::Config;
use crate::env::get_env;
use crate::ephenv::get_ephenvs;
use crate::error::{CliError, ErrorKind, env_not_recognized, env_not_set, is_error};
use crate::http::HttpMethod;
use crate::strmap::{StrMap, string_view};
use crate::template::{resolve_template, resolved};

verus! {

/// A request ready to send, once its body has been edited.
#[derive(Debug)]
pub struct PreparedRequest {
    pub url: String,
    pub method: HttpMethod,
    pub headers: Vec<(String, String)>,
    /// The text to open in the editor.
    pub body: Option<String>,
    /// What a postscript is given: every variable and every parameter.
    pub postscript_vars: StrMap<String>,
}

/// Every header template renders.
pub open spec fn headers_render(
    templates: Seq<(Seq<char>, String)>,
    vars: Map<Seq<char>, Seq<char>>,
) -> bool {
    forall|i: int|
        0 <= i < templates.len() ==> (#[trigger] resolved(templates[i].1@, vars, Map::empty())) is Some
}

/// `out` holds each header of `templates`, in order, with its value resolved against the
/// variables (headers take no parameters).
pub open spec fn headers_rendered(
    out: Seq<(String, String)>,
    templates: Seq<(Seq<char>, String)>,
    vars: Map<Seq<char>, Seq<char>>,
) -> bool {
    &&& out.len() == templates.len()
    &&& forall|i: int|
        0 <= i < out.len() ==> (#[trigger] out[i]).0@ == templates[i].0 && resolved(
            templates[i].1@,
            vars,
            Map::empty(),
        ) == Some(out[i].1@)
}

/// Every template of the command resolves against `vars` and `params`.
pub open spec fn command_resolves(
    c: Command,
    vars: Map<Seq<char>, Seq<char>>,
    params: Map<Seq<char>, Seq<char>>,
) -> bool {
    &&& resolved(c.url@, vars, params) is Some
    &&& headers_render(c.headers.pairs(), vars)
    &&& c.body is Some ==> resolved(c.body->0.pretty@, vars, params) is Some
}

/// The variables of the environment `env`, overridden by the ephemeral ones of `dir`.
pub open spec fn run_vars(config: Config, store: AppConfig, dir: Seq<char>, env: Seq<char>) -> Map<
    Seq<char>,
    Seq<char>,
> {
    string_view(config.envs@[env]@).union_prefer_right(ephemeral_of(store, dir))
}

proof fn lemma_string_view_union(a: Map<Seq<char>, String>, b: Map<Seq<char>, String>)
    ensures
        string_view(a.union_prefer_right(b)) == string_view(a).union_prefer_right(string_view(b)),
{
    assert(string_view(a.union_prefer_right(b)) =~= string_view(a).union_prefer_right(
        string_view(b),
    ));
}

/// Resolves each header template of `headers` against `vars`.
fn render_headers(headers: &StrMap<String>, vars: &StrMap<String>) -> (r: Result<
    Vec<(String, String)>,
    CliError,
>)
    ensures
        headers_render(headers.pairs(), string_view(vars@)) <==> r is Ok,
        r is Ok ==> headers_rendered(r->Ok_0@, headers.pairs(), string_view(vars@)),
        r is Err ==> is_error(r->Err_0, ErrorKind::Resolution, "template could not be resolved"@),
{
    let ghost v = string_view(vars@);
    let no_params: StrMap<String> = StrMap::new();
    assert(string_view(no_params@) =~= Map::<Seq<char>, Seq<char>>::empty());
    let mut out: Vec<(String, String)> = Vec::new();
    let mut i: usize = 0;
    while i < headers.len()
        invariant
            i <= headers.pairs().len(),
            v == string_view(vars@),
            string_view(no_params@) == Map::<Seq<char>, Seq<char>>::empty(),
            headers_rendered(out@, headers.pairs().subrange(0, i as int), v),
        decreases headers.pairs().len() - i,
    {
        match resolve_template(headers.value_at(i).as_str(), vars, &no_params) {
            Ok(value) => {
                out.push((headers.key_at(i).clone(), value));
            },
            Err(e) => {
                assert(resolved(headers.pairs()[i as int].1@, v, Map::empty()) is None);
                return Err(e);
            },
        }
        i = i + 1;
    }
    assert(headers.pairs().subrange(0, i as int) =~= headers.pairs());
    assert forall|k: int| 0 <= k < headers.pairs().len() implies (#[trigger] resolved(
        headers.pairs()[k].1@,
        v,
        Map::empty(),
    )) is Some by {
        assert(out@[k].0@ == headers.pairs()[k].0);
    }
    Ok(out)
}

/// Resolves `api_call` for the directory `dir`: the environment selected there must
/// exist in `config`; its variables, overridden by the ephemeral ones, resolve the
/// `{{name}}` references, and `param_values` fill the `:name` placeholders of the URL
/// and of the body, in the same pass over the template text.
pub fn run(
    api_call: &Command,
    param_values: &StrMap<String>,
    config: &Config,
    store: &AppConfig,
    dir: &String,
) -> (r: Result<PreparedRequest, CliError>)
    ensures
        current_env(*store, dir@) is None ==> r is Err && is_error(
            r->Err_0,
            ErrorKind::Resolution,
            "env not set"@,
        ),
        current_env(*store, dir@) matches Some(e) && !config.envs@.contains_key(e) ==> r is Err
            && is_error(r->Err_0, ErrorKind::Resolution, "env not recognized"@),
        current_env(*store, dir@) is Some && config.envs@.contains_key(current_env(*store, dir@)->0)
            ==> {
            let vars = run_vars(*config, *store, dir@, current_env(*store, dir@)->0);
            let params = string_view(param_values@);
            &&& r is Ok <==> command_resolves(*api_call, vars, params)
            &&& r is Err ==> is_error(
                r->Err_0,
                ErrorKind::Resolution,
                "template could not be resolved"@,
            )
            &&& r is Ok ==> {
                let p = r->Ok_0;
                &&& p.url@ == resolved(api_call.url@, vars, params)->0
                &&& p.method == api_call.method
                &&& headers_rendered(p.headers@, api_call.headers.pairs(), vars)
                &&& match api_call.body {
                    Some(b) => p.body is Some && p.body->0@ == resolved(b.pretty@, vars, params)->0,
                    None => p.body is None,
                }
                &&& string_view(p.postscript_vars@) == vars.union_prefer_right(params)
            }
        },
{
    let current = match get_env(store, dir) {
        Some(e) => e,
        None => return Err(env_not_set()),
    };
    let env_data = match config.envs.get(&current) {
        Some(d) => d,
        None => return Err(env_not_recognized()),
    };
    let ephenv_data = get_ephenvs(store, dir);
    let merged = env_data.merged(&ephenv_data);
    let ghost vars = run_vars(*config, *store, dir@, current@);
    proof {
        lemma_string_view_union(env_data@, ephenv_data@);
    }
    assert(string_view(merged@) == vars);
    let url = match resolve_template(api_call.url.as_str(), &merged, param_values) {
        Ok(u) => u,
        Err(e) => return Err(e),
    };
    let body = match &api_call.body {
        Some(b) => match resolve_template(b.pretty.as_str(), &merged, param_values) {
            Ok(text) => Some(text),
            Err(e) => return Err(e),
        },
        None => None,
    };
    let headers = match render_headers(&api_call.headers, &merged) {
        Ok(h) => h,
        Err(e) => return Err(e),
    };
    let postscript_vars = merged.merged(param_values);
    proof {
        lemma_string_view_union(merged@, param_values@);
    }
    Ok(PreparedRequest { url, method: api_call.method, headers, body, postscript_vars })
}


/// What follows a response: the postscript to start, if any. It runs only after a JSON
/// response, and never when its script file is missing; the run succeeds either way.
pub fn postscript_after_response(
    api_call: &Command,
    prepared: &PreparedRequest,
    response_is_json: bool,
    script_exists: bool,
) -> (r: Option<PostscriptRun>)
    ensures
        r is Some <==> response_is_json && script_exists && api_call.postscript is Some,
        r is Some ==> {
            let p = api_call.postscript->0;
            let run = r->0;
            &&& run.command@ == p.command@
            &&& run.script_path@ == script_path_of(p)
            &&& postscript_env(run.env@, prepared.postscript_vars.pairs())
        },
{
    if !response_is_json {
        return None;
    }
    api_call.run_post_command_script(&prepared.postscript_vars, script_exists)
}

/// Selecting, for `dir`, an environment that `config` lacks is accepted by the store,
/// and a run in `dir` then finds the selection unrecognized.
pub proof fn lemma_select_unknown_env(
    store: AppConfig,
    selected: AppConfig,
    config: Config,
    dir: Seq<char>,
    name: String,
)
    requires
        selected.envs@ == store.envs@.insert(dir, name),
        !config.envs@.contains_key(name@),
    ensures
        current_env(selected, dir) == Some(name@),
        !config.envs@.contains_key(current_env(selected, dir)->0),
{
}

} // verus!
