use hit_cli::app_config::{get_app_config_file_path, AppConfig};
use hit_cli::cli::env::{init as env_init, EnvCommand, EnvOutput, EnvUseArguments};
use hit_cli::cli::ephenv::{init as ephenv_init, EphenvCommand, EphenvSetArguments};
use hit_cli::cli::last::{init as last_init, json_pointer, LastCommand};
use hit_cli::config::{get_config_file_path, Config};
use hit_cli::env::{get_env, list, list_envs, mark_current, set_env};
use hit_cli::ephenv::{get_ephenvs, set_ephenv};
use hit_cli::http::Response;
use hit_cli::strmap::StrMap;

fn s(x: &str) -> String {
    x.to_string()
}

fn vars(pairs: &[(&str, &str)]) -> StrMap<String> {
    let mut m = StrMap::new();
    for (k, v) in pairs {
        m.insert(s(k), s(v));
    }
    m
}

fn three_envs() -> Config {
    let mut envs = StrMap::new();
    envs.insert(s("prod"), vars(&[("API_URL", "https://api.example.com")]));
    envs.insert(s("dev"), vars(&[("API_URL", "https://dev-api.example.com")]));
    envs.insert(s("staging"), vars(&[("API_URL", "https://staging-api.example.com")]));
    Config { envs, commands: StrMap::new() }
}

#[test]
fn strmap_keeps_insertion_order_and_overrides() {
    let mut m = StrMap::new();
    m.insert(s("b"), 1);
    m.insert(s("a"), 2);
    m.insert(s("b"), 3);
    assert_eq!(m.len(), 2);
    assert_eq!(m.keys(), vec![s("b"), s("a")]);
    assert_eq!(m.get(&s("b")), Some(&3));
    assert_eq!(m.get(&s("c")), None);
    assert!(m.contains_key(&s("a")));
}

#[test]
fn merged_prefers_the_second_map() {
    let a = vars(&[("x", "1"), ("y", "2")]);
    let b = vars(&[("y", "3"), ("z", "4")]);
    let m = a.merged(&b);
    assert_eq!(m.keys(), vec![s("x"), s("y"), s("z")]);
    assert_eq!(m.get(&s("y")), Some(&s("3")));
}

#[test]
fn env_list_is_sorted() {
    assert_eq!(list_envs(&three_envs()), vec![s("dev"), s("prod"), s("staging")]);
}

#[test]
fn test_env_list() {
    let store = AppConfig::new();
    let entries = list(&three_envs(), &store, &s("/p"));
    let names: Vec<_> = entries.iter().map(|e| e.name.clone()).collect();
    assert_eq!(names, vec![s("dev"), s("prod"), s("staging")]);
    assert!(entries.iter().all(|e| !e.current));
}

#[test]
fn test_env_use() {
    let config = three_envs();
    let mut store = AppConfig::new();
    let out = env_init(EnvCommand::Use(EnvUseArguments { env: s("prod") }), &config, &mut store, s("/p"));
    assert!(matches!(out, EnvOutput::Selected));
    match env_init(EnvCommand::List, &config, &mut store, s("/p")) {
        EnvOutput::Listing(entries) => {
            let marks: Vec<_> = entries.iter().map(|e| (e.name.clone(), e.current)).collect();
            assert_eq!(marks, vec![(s("dev"), false), (s("prod"), true), (s("staging"), false)]);
        }
        EnvOutput::Selected => panic!("expected a listing"),
    }
}

#[test]
fn selection_is_per_directory() {
    let mut store = AppConfig::new();
    set_env(&mut store, s("/a"), s("prod"));
    set_env(&mut store, s("/b"), s("dev"));
    set_env(&mut store, s("/a"), s("staging"));
    assert_eq!(get_env(&store, &s("/a")), Some(s("staging")));
    assert_eq!(get_env(&store, &s("/b")), Some(s("dev")));
    assert_eq!(get_env(&store, &s("/c")), None);
}

#[test]
fn selecting_an_unknown_env_is_accepted_by_the_store() {
    let mut store = AppConfig::new();
    set_env(&mut store, s("/p"), s("something"));
    assert_eq!(get_env(&store, &s("/p")), Some(s("something")));
}

#[test]
fn mark_current_marks_equal_names() {
    let entries = mark_current(vec![s("a"), s("b")], &Some(s("b")));
    assert!(!entries[0].current);
    assert!(entries[1].current);
}

#[test]
fn ephemeral_values_are_per_directory() {
    let mut store = AppConfig::new();
    assert_eq!(get_ephenvs(&store, &s("/p")).len(), 0);
    set_ephenv(&mut store, s("/p"), s("TOKEN"), s("abc"));
    set_ephenv(&mut store, s("/p"), s("USER"), s("me"));
    ephenv_init(
        EphenvCommand::SetValue(EphenvSetArguments { key: s("TOKEN"), value: s("xyz") }),
        &mut store,
        s("/p"),
    );
    let e = get_ephenvs(&store, &s("/p"));
    assert_eq!(e.get(&s("TOKEN")), Some(&s("xyz")));
    assert_eq!(e.get(&s("USER")), Some(&s("me")));
    assert_eq!(get_ephenvs(&store, &s("/q")).len(), 0);
}

#[test]
fn last_view_without_response_fails() {
    let store = AppConfig::new();
    let e = last_init(LastCommand::View, &store, &s("/p")).unwrap_err();
    assert_eq!(e.to_string(), "No last request found");
}

#[test]
fn last_response_is_overwritten() {
    let mut store = AppConfig::new();
    let first = Response { url: s("https://x/1"), status: 200, headers: StrMap::new(), body: s("{}") };
    let second = Response { url: s("https://x/2"), status: 404, headers: StrMap::new(), body: s("nope") };
    store.set_prev_request(s("/p"), first);
    store.set_prev_request(s("/p"), second);
    let r = last_init(LastCommand::View, &store, &s("/p")).unwrap();
    assert_eq!(r.url, "https://x/2");
    assert_eq!(r.status, 404);
}

#[test]
fn json_pointer_of_dotted_path() {
    assert_eq!(json_pointer("body.items.0.id"), "/body/items/0/id");
    assert_eq!(json_pointer(""), "/");
}

#[test]
fn config_file_paths() {
    assert_eq!(get_config_file_path(), ".hit/config.json");
    assert_eq!(get_app_config_file_path("/home/u/.config/hit-cli"), "/home/u/.config/hit-cli/config.json");
    assert_eq!(get_app_config_file_path("/tmp/"), "/tmp/config.json");
}
