use hit_cli::command::{Command, RequestBody};
use hit_cli::http::HttpMethod;
use hit_cli::params::{get_params_from_string, has_env_vars, is_word, replace_params, union_params};
use hit_cli::strmap::StrMap;

fn s(x: &str) -> String {
    x.to_string()
}

fn map(pairs: &[(&str, &str)]) -> StrMap<String> {
    let mut m = StrMap::new();
    for (k, v) in pairs {
        m.insert(s(k), s(v));
    }
    m
}

fn input_command() -> Command {
    Command {
        method: HttpMethod::POST,
        url: s("https://example.com/orgs/:orgId/employees/:employeeId"),
        headers: StrMap::new(),
        body: Some(RequestBody {
            compact: s(r#"{"name":":employeeName","title":":title"}"#),
            pretty: s("{\n  \"name\": \":employeeName\",\n  \"title\": \":title\"\n}"),
        }),
        postscript: None,
    }
}

#[test]
fn test_route_params() {
    let mut route_params = input_command().route_params();
    route_params.sort();
    assert_eq!(route_params, vec!["employeeId".to_string(), "orgId".to_string()]);
}

#[test]
fn test_body_params() {
    let mut body_params = input_command().body_params();
    body_params.sort();
    assert_eq!(body_params, vec!["employeeName".to_string(), "title".to_string()]);
}

#[test]
fn test_all_params() {
    let mut all_params = input_command().params();
    all_params.sort();
    assert_eq!(
        all_params,
        vec![
            "employeeId".to_string(),
            "employeeName".to_string(),
            "orgId".to_string(),
            "title".to_string()
        ]
    );
}

#[test]
fn params_keep_route_first_then_body() {
    assert_eq!(
        input_command().params(),
        vec![s("orgId"), s("employeeId"), s("employeeName"), s("title")]
    );
}

#[test]
fn repeated_param_is_listed_once_in_first_seen_order() {
    assert_eq!(get_params_from_string("/x/:a/:b/:a"), vec![s("a"), s("b")]);
    assert_eq!(get_params_from_string(":b:a:b"), vec![s("b"), s("a")]);
}

#[test]
fn extraction_is_stable_across_calls() {
    let c = input_command();
    assert_eq!(c.params(), c.params());
    assert_eq!(c.route_params(), c.route_params());
}

#[test]
fn no_placeholder_gives_no_params() {
    assert!(get_params_from_string("").is_empty());
    assert!(get_params_from_string("https://example.com/users").is_empty());
    assert!(get_params_from_string("a:/b: :-").is_empty());
}

#[test]
fn params_stop_at_non_word_characters() {
    assert_eq!(get_params_from_string("::id-x"), vec![s("id")]);
    assert_eq!(get_params_from_string("/u/:user_id.json"), vec![s("user_id")]);
}

#[test]
fn command_without_body_has_route_params_only() {
    let mut c = input_command();
    c.body = None;
    assert!(c.body_params().is_empty());
    assert_eq!(c.params(), vec![s("orgId"), s("employeeId")]);
}

#[test]
fn union_keeps_first_list_then_new_names() {
    let a = vec![s("a"), s("b"), s("c")];
    let b = vec![s("c"), s("d"), s("a")];
    assert_eq!(union_params(&a, b), vec![s("a"), s("b"), s("c"), s("d")]);
}

#[test]
fn union_drops_repeats_within_each_list() {
    let a = vec![s("x"), s("x")];
    let b = vec![s("y"), s("y"), s("x")];
    assert_eq!(union_params(&a, b), vec![s("x"), s("y")]);
}

#[test]
fn env_placeholder_detection() {
    assert!(has_env_vars("{{API_URL}}/users"));
    assert!(has_env_vars("https://{{host}}:8080"));
    assert!(!has_env_vars("https://example.com"));
    assert!(!has_env_vars("{{}}"));
    assert!(!has_env_vars("{{a-b}}"));
    assert!(!has_env_vars("{API_URL}"));
    assert!(!has_env_vars("{{API_URL}"));
}

#[test]
fn replace_params_substitutes_each_occurrence() {
    let params = map(&[("id", "42"), ("org", "acme")]);
    assert_eq!(replace_params(s("/orgs/:org/users/:id/:id"), &params), "/orgs/acme/users/42/42");
}

#[test]
fn replace_params_leaves_unknown_placeholders() {
    let params = map(&[("id", "42")]);
    assert_eq!(replace_params(s("/a/:other/:id"), &params), "/a/:other/42");
}

#[test]
fn replace_params_does_not_rescan_values() {
    let params = map(&[("a", ":b"), ("b", "no")]);
    assert_eq!(replace_params(s(":a/:b"), &params), ":b/no");
}

#[test]
fn replace_params_replaces_substrings() {
    let params = map(&[("id", "42")]);
    assert_eq!(replace_params(s("/:idx/:id"), &params), "/42x/42");
}

#[test]
fn replace_params_prefers_the_longest_key() {
    let params = map(&[("id", "1"), ("idx", "2")]);
    assert_eq!(replace_params(s("/:idx/:id/:idy"), &params), "/2/1/1y");
}

#[test]
fn unicode_word_characters_form_names() {
    assert_eq!(get_params_from_string(":é"), vec![s("é")]);
    assert_eq!(get_params_from_string("/u/:café/:名前"), vec![s("café"), s("名前")]);
    assert!(has_env_vars("{{café}}"));
    assert!(is_word('é'));
    assert!(is_word('_'));
    assert!(!is_word('-'));
    assert!(!is_word('}'));
}
