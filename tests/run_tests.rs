use hit_cli::app_config::AppConfig;
use hit_cli::cli::{formulate_command, get_run_command, CommandSpec};
use hit_cli::command::{postscript_outcome, Command, PostScriptConfig, RequestBody};
use hit_cli::config::{obtain_run_command, CommandType, Config};
use hit_cli::env::set_env;
use hit_cli::ephenv::set_ephenv;
use hit_cli::error::ErrorKind;
use hit_cli::http::HttpMethod;
use hit_cli::input::{longest_common_prefix, CustomAutocomplete};
use hit_cli::run::{postscript_after_response, run};
use hit_cli::strmap::StrMap;
use hit_cli::template::resolve_template;

fn s(x: &str) -> String {
    x.to_string()
}

fn vars(pairs: &[(&str, &str)]) -> StrMap<String> {
    let mut m = StrMap::new();
    for (k, v) in pairs {
        m.insert(s(k), s(v));
    }
    m
}

fn get_command(url: &str) -> Command {
    Command {
        method: HttpMethod::GET,
        url: s(url),
        headers: StrMap::new(),
        body: None,
        postscript: None,
    }
}

fn config_with(envs: &[(&str, &[(&str, &str)])], commands: StrMap<Box<CommandType>>) -> Config {
    let mut e = StrMap::new();
    for (name, vs) in envs {
        e.insert(s(name), vars(vs));
    }
    Config { envs: e, commands }
}

fn users_tree() -> StrMap<Box<CommandType>> {
    let mut users = StrMap::new();
    users.insert(s("get"), Box::new(CommandType::Command(get_command("{{API_URL}}/users/:id"))));
    let mut tree = StrMap::new();
    tree.insert(s("users"), Box::new(CommandType::NestedCommand(users)));
    tree
}

#[test]
fn test_failure_when_env_not_set() {
    let config = config_with(&[("prod", &[("API_URL", "https://api.example.com")])], StrMap::new());
    let store = AppConfig::new();
    let cmd = get_command("{{API_URL}}/users/:id");
    let e = run(&cmd, &vars(&[("id", "meshde")]), &config, &store, &s("/p")).unwrap_err();
    assert_eq!(e.kind, ErrorKind::Resolution);
    assert_eq!(e.to_string(), "env not set");
}

#[test]
fn test_failure_when_env_not_recognized() {
    let config = config_with(&[("prod", &[("API_URL", "https://api.example.com")])], StrMap::new());
    let mut store = AppConfig::new();
    set_env(&mut store, s("/p"), s("something"));
    let cmd = get_command("{{API_URL}}/users/:id");
    let e = run(&cmd, &vars(&[("id", "meshde")]), &config, &store, &s("/p")).unwrap_err();
    assert_eq!(e.kind, ErrorKind::Resolution);
    assert_eq!(e.to_string(), "env not recognized");
}

#[test]
fn run_succeeds_after_env_use() {
    let config = config_with(&[("prod", &[("API_URL", "https://api.example.com")])], StrMap::new());
    let mut store = AppConfig::new();
    let cmd = get_command("{{API_URL}}/health");
    assert!(run(&cmd, &StrMap::new(), &config, &store, &s("/p")).is_err());
    set_env(&mut store, s("/p"), s("prod"));
    let prepared = run(&cmd, &StrMap::new(), &config, &store, &s("/p")).unwrap();
    assert_eq!(prepared.url, "https://api.example.com/health");
    assert_eq!(prepared.method, HttpMethod::GET);
    assert!(prepared.body.is_none());
}

#[test]
fn end_to_end_users_get_resolves_url() {
    let config = config_with(&[("dev", &[("API_URL", "https://x")])], users_tree());
    let mut store = AppConfig::new();
    set_env(&mut store, s("/p"), s("dev"));
    let path = vec![s("users"), s("get")];
    let cmd = obtain_run_command(&config.commands, &path).unwrap();
    let params = vars(&[("id", "42")]);
    let prepared = run(cmd, &params, &config, &store, &s("/p")).unwrap();
    assert_eq!(prepared.url, "https://x/users/42");
}

#[test]
fn ephemeral_values_override_environment() {
    let config = config_with(&[("dev", &[("API_URL", "https://x"), ("V", "1")])], StrMap::new());
    let mut store = AppConfig::new();
    set_env(&mut store, s("/p"), s("dev"));
    set_ephenv(&mut store, s("/p"), s("API_URL"), s("https://override"));
    let prepared = run(&get_command("{{API_URL}}/v{{V}}"), &StrMap::new(), &config, &store, &s("/p")).unwrap();
    assert_eq!(prepared.url, "https://override/v1");
    assert_eq!(prepared.postscript_vars.get(&s("API_URL")), Some(&s("https://override")));
}

#[test]
fn unknown_variable_is_a_resolution_error() {
    let config = config_with(&[("dev", &[("API_URL", "https://x")])], StrMap::new());
    let mut store = AppConfig::new();
    set_env(&mut store, s("/p"), s("dev"));
    let e = run(&get_command("{{MISSING}}/x"), &StrMap::new(), &config, &store, &s("/p")).unwrap_err();
    assert_eq!(e.kind, ErrorKind::Resolution);
    assert_eq!(e.to_string(), "template could not be resolved");
}

#[test]
fn url_without_references_is_not_rendered() {
    let config = config_with(&[("dev", &[])], StrMap::new());
    let mut store = AppConfig::new();
    set_env(&mut store, s("/p"), s("dev"));
    let prepared = run(&get_command("https://h/a?x=1&y=:y"), &vars(&[("y", "2")]), &config, &store, &s("/p")).unwrap();
    assert_eq!(prepared.url, "https://h/a?x=1&y=2");
}

#[test]
fn headers_and_body_are_resolved() {
    let config = config_with(&[("dev", &[("API_URL", "https://x"), ("TOKEN", "t0k")])], StrMap::new());
    let mut store = AppConfig::new();
    set_env(&mut store, s("/p"), s("dev"));
    let cmd = Command {
        method: HttpMethod::POST,
        url: s("{{API_URL}}/orgs/:org"),
        headers: vars(&[("Authorization", "Bearer {{TOKEN}}"), ("Accept", "application/json")]),
        body: Some(RequestBody {
            compact: s(r#"{"name":":name","token":"{{TOKEN}}"}"#),
            pretty: s("{\n  \"name\": \":name\",\n  \"token\": \"{{TOKEN}}\"\n}"),
        }),
        postscript: None,
    };
    let params = vars(&[("org", "acme"), ("name", "Ann")]);
    let prepared = run(&cmd, &params, &config, &store, &s("/p")).unwrap();
    assert_eq!(prepared.url, "https://x/orgs/acme");
    assert_eq!(
        prepared.headers,
        vec![(s("Authorization"), s("Bearer t0k")), (s("Accept"), s("application/json"))]
    );
    assert_eq!(prepared.body, Some(s("{\n  \"name\": \"Ann\",\n  \"token\": \"t0k\"\n}")));
    assert_eq!(prepared.postscript_vars.get(&s("org")), Some(&s("acme")));
    assert_eq!(prepared.postscript_vars.get(&s("TOKEN")), Some(&s("t0k")));
}

#[test]
fn resolve_template_renders_and_fails() {
    let v = vars(&[("A", "1")]);
    let none = StrMap::new();
    assert_eq!(resolve_template("x{{A}}y", &v, &none).unwrap(), "x1y");
    assert_eq!(resolve_template("no references", &v, &none).unwrap(), "no references");
    assert!(resolve_template("{{B}}", &v, &none).is_err());
}

#[test]
fn env_values_and_param_values_are_inserted_verbatim() {
    let config = config_with(&[("dev", &[("K", "https://h/:id")])], StrMap::new());
    let mut store = AppConfig::new();
    set_env(&mut store, s("/p"), s("dev"));
    let params = vars(&[("id", "{{K}}")]);
    let prepared = run(&get_command("{{K}}/:id"), &params, &config, &store, &s("/p")).unwrap();
    assert_eq!(prepared.url, "https://h/:id/{{K}}");
}

#[test]
fn obtain_run_command_walks_the_tree() {
    let tree = users_tree();
    let cmd = obtain_run_command(&tree, &[s("users"), s("get")]).unwrap();
    assert_eq!(cmd.url, "{{API_URL}}/users/:id");
    let e = obtain_run_command(&tree, &[s("users")]).unwrap_err();
    assert_eq!(e.to_string(), "no command selected");
    let e = obtain_run_command(&tree, &[s("orders")]).unwrap_err();
    assert_eq!(e.to_string(), "command not recognized");
    let e = obtain_run_command(&tree, &[]).unwrap_err();
    assert_eq!(e.to_string(), "command not recognized");
}

#[test]
fn run_command_surface_mirrors_the_tree() {
    let mut tree = users_tree();
    tree.insert(s("ping"), Box::new(CommandType::Command(get_command("{{API_URL}}/ping"))));
    let config = config_with(&[], tree);
    let run_cmd = get_run_command(&config);
    assert_eq!(run_cmd.name, "run");
    assert!(run_cmd.arg_required_else_help);
    assert_eq!(run_cmd.subcommands.len(), 2);
    let users = &run_cmd.subcommands[0];
    assert_eq!(users.name, "users");
    assert!(users.arg_required_else_help);
    assert!(users.args.is_empty());
    let get = &users.subcommands[0];
    assert_eq!(get.name, "get");
    assert!(get.arg_required_else_help);
    assert_eq!(get.args.len(), 1);
    assert_eq!(get.args[0].id, "id");
    assert_eq!(get.args[0].long, "id");
    assert_eq!(get.args[0].value_name, "id");
    assert_eq!(get.args[0].help, "Provide value for the param :id");
    let ping = &run_cmd.subcommands[1];
    assert_eq!(ping.name, "ping");
    assert!(!ping.arg_required_else_help);
    assert!(ping.args.is_empty());
}

#[test]
fn flags_are_kebab_case() {
    let mut tree = StrMap::new();
    tree.insert(s("emp"), Box::new(CommandType::Command(get_command("/orgs/:orgId/e/:employee_id"))));
    let base = CommandSpec { name: s("run"), arg_required_else_help: true, args: vec![], subcommands: vec![] };
    let built = formulate_command(base, &tree);
    let longs: Vec<_> = built.subcommands[0].args.iter().map(|a| a.long.clone()).collect();
    assert_eq!(longs, vec![s("org-id"), s("employee-id")]);
    let ids: Vec<_> = built.subcommands[0].args.iter().map(|a| a.id.clone()).collect();
    assert_eq!(ids, vec![s("orgId"), s("employee_id")]);
}

fn with_postscript() -> Command {
    let mut c = get_command("/x");
    c.postscript = Some(PostScriptConfig { command: s("node"), file: s("save.js") });
    c
}

#[test]
fn postscript_with_missing_script_runs_nothing() {
    let c = with_postscript();
    assert!(c.run_post_command_script(&vars(&[("apiUrl", "x")]), false).is_none());
    assert!(get_command("/x").run_post_command_script(&StrMap::new(), true).is_none());
    assert!(postscript_outcome(true).is_ok());
}

#[test]
fn postscript_plan_exposes_upper_snake_variables() {
    let c = with_postscript();
    assert_eq!(c.postscript_path(), Some(s(".hit/postscripts/save.js")));
    let plan = c.run_post_command_script(&vars(&[("apiUrl", "https://x"), ("id", "42")]), true).unwrap();
    assert_eq!(plan.command, "node");
    assert_eq!(plan.script_path, ".hit/postscripts/save.js");
    assert_eq!(plan.env, vec![(s("HIT_API_URL"), s("https://x")), (s("HIT_ID"), s("42"))]);
}

#[test]
fn failed_postscript_fails_the_run() {
    let e = postscript_outcome(false).unwrap_err();
    assert_eq!(e.kind, ErrorKind::ExternalProcess);
    assert_eq!(e.to_string(), "postscript failed");
}

#[test]
fn suggestions_ignore_case() {
    let ac = CustomAutocomplete::new(vec![s("body.Name"), s("body.id"), s("status"), s("url")]);
    assert_eq!(ac.get_suggestions("NAME"), vec![s("body.Name")]);
    assert_eq!(ac.get_suggestions("body"), vec![s("body.Name"), s("body.id")]);
    assert_eq!(ac.get_suggestions(""), vec![s("body.Name"), s("body.id"), s("status"), s("url")]);
    assert!(ac.get_suggestions("zzz").is_empty());
}

#[test]
fn completion_prefers_highlighted_then_common_prefix() {
    let ac = CustomAutocomplete::new(vec![s("body.name"), s("body.nickname"), s("status")]);
    assert_eq!(ac.get_completion("bo", Some(s("status"))), "status");
    assert_eq!(ac.get_completion("bo", None), "body.n");
    assert_eq!(ac.get_completion("zzz", None), "");
}

#[test]
fn longest_common_prefix_cases() {
    assert_eq!(longest_common_prefix(&vec![]), "");
    assert_eq!(longest_common_prefix(&vec![s("ab")]), "ab");
    assert_eq!(longest_common_prefix(&vec![s("a"), s("b"), s("c")]), "");
    assert_eq!(longest_common_prefix(&vec![s("aba"), s("abb"), s("abc")]), "ab");
    assert_eq!(longest_common_prefix(&vec![s("aba"), s("ab"), s("abc")]), "ab");
    assert_eq!(longest_common_prefix(&vec![s("zebrawood"), s("zebrafish"), s("zebra mussel")]), "zebra");
}

#[test]
fn postscript_follows_only_json_responses_with_a_script() {
    let config = config_with(&[("dev", &[("API_URL", "https://x")])], StrMap::new());
    let mut store = AppConfig::new();
    set_env(&mut store, s("/p"), s("dev"));
    let c = with_postscript();
    let prepared = run(&c, &StrMap::new(), &config, &store, &s("/p")).unwrap();
    assert!(postscript_after_response(&c, &prepared, true, false).is_none());
    assert!(postscript_after_response(&c, &prepared, false, true).is_none());
    let plan = postscript_after_response(&c, &prepared, true, true).unwrap();
    assert_eq!(plan.script_path, ".hit/postscripts/save.js");
    assert_eq!(plan.env, vec![(s("HIT_API_URL"), s("https://x"))]);
}
