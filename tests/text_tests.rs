use hit_cli::command::Command;
use hit_cli::http::{request_headers, HttpMethod};
use hit_cli::import::url_of_openapi_path;
use hit_cli::strmap::StrMap;
use hit_cli::text::{join_path, lex_less, prefixed, sort_strings};

fn s(x: &str) -> String {
    x.to_string()
}

#[test]
fn openapi_paths_become_url_templates() {
    assert_eq!(url_of_openapi_path("/users/{id}"), "{{API_URL}}/users/:id");
    assert_eq!(url_of_openapi_path("/orgs/{orgId}/members/{memberId}"), "{{API_URL}}/orgs/:orgId/members/:memberId");
    assert_eq!(url_of_openapi_path(""), "{{API_URL}}");
}

#[test]
fn imported_url_params_are_extracted() {
    let c = Command {
        method: HttpMethod::GET,
        url: url_of_openapi_path("/orgs/{orgId}/members/{memberId}"),
        headers: StrMap::new(),
        body: None,
        postscript: None,
    };
    assert_eq!(c.params(), vec![s("orgId"), s("memberId")]);
}

#[test]
fn method_names() {
    assert_eq!(HttpMethod::GET.as_str(), "GET");
    assert_eq!(HttpMethod::POST.as_str(), "POST");
    assert_eq!(HttpMethod::PUT.as_str(), "PUT");
    assert_eq!(HttpMethod::DELETE.as_str(), "DELETE");
    assert_eq!(HttpMethod::PATCH.as_str(), "PATCH");
}

#[test]
fn join_path_cases() {
    assert_eq!(join_path(".hit", "config.json"), ".hit/config.json");
    assert_eq!(join_path(".hit/", "x"), ".hit/x");
    assert_eq!(join_path("", "x"), "x");
    assert_eq!(join_path(".hit/postscripts", "/abs/run.sh"), "/abs/run.sh");
    assert_eq!(prefixed("HIT_", "TOKEN"), "HIT_TOKEN");
}

#[test]
fn lexicographic_order() {
    assert!(lex_less(&s("dev"), &s("prod")));
    assert!(!lex_less(&s("prod"), &s("dev")));
    assert!(lex_less(&s("ab"), &s("abc")));
    assert!(!lex_less(&s("abc"), &s("abc")));
    assert!(lex_less(&s("Z"), &s("a")));
}

#[test]
fn sorting_strings() {
    assert_eq!(
        sort_strings(vec![s("staging"), s("dev"), s("prod"), s("a")]),
        vec![s("a"), s("dev"), s("prod"), s("staging")]
    );
    assert!(sort_strings(vec![]).is_empty());
}

#[test]
fn request_headers_carry_the_tool_user_agent() {
    let given = vec![(s("Accept"), s("application/json")), (s("User-Agent"), s("curl")), (s("X"), s("1"))];
    assert_eq!(
        request_headers(&given),
        vec![(s("Accept"), s("application/json")), (s("X"), s("1")), (s("User-Agent"), s("hit-cli"))]
    );
    assert_eq!(request_headers(&vec![]), vec![(s("User-Agent"), s("hit-cli"))]);
}
