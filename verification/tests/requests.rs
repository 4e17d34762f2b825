use gitconfig_proxy::github::{handle_raw, handle_tree, relay, HttpRequest, Method, Upstream};
use gitconfig_proxy::params::Params;
use gitconfig_proxy::state::AppState;

fn state(token: Option<&str>) -> AppState {
    AppState {
        default_token: token.map(str::to_string),
        profile_path: None,
        mission_path: None,
        allowed_ips: Vec::new(),
    }
}

fn query(pairs: &[(&str, &str)]) -> Params {
    let mut params = Params::new();
    for (name, value) in pairs {
        params.insert(name.to_string(), value.to_string());
    }
    params
}

fn headers(request: &HttpRequest) -> Vec<(&str, &str)> {
    request.headers.iter().map(|(n, v)| (n.as_str(), v.as_str())).collect()
}

#[test]
fn a_tree_is_asked_of_the_api() {
    let params = query(&[("owner", "me"), ("repo", "cfg"), ("branch", "dev")]);
    let request = handle_tree(&state(Some("t0")), &params).unwrap();
    assert_eq!(request.method, Method::Get);
    assert_eq!(request.url, "https://api.github.com/repos/me/cfg/git/trees/dev?recursive=1");
    assert_eq!(
        headers(&request),
        vec![
            ("Authorization", "Bearer t0"),
            ("Accept", "application/vnd.github+json"),
            ("X-GitHub-Api-Version", "2022-11-28"),
        ]
    );
}

#[test]
fn the_branch_is_main_unless_given() {
    let params = query(&[("owner", "me"), ("repo", "cfg"), ("token", "t1")]);
    let request = handle_tree(&state(None), &params).unwrap();
    assert_eq!(request.url, "https://api.github.com/repos/me/cfg/git/trees/main?recursive=1");
    let params = query(&[("owner", "me"), ("repo", "cfg"), ("branch", ""), ("token", "t1")]);
    let refusal = handle_tree(&state(None), &params).unwrap_err();
    assert_eq!(refusal.body, "Missing required parameter: branch");
}

#[test]
fn a_file_is_asked_of_the_raw_host() {
    let params = query(&[("owner", "me"), ("repo", "cfg"), ("path", "a b/c#1.xml")]);
    let request = handle_raw(&state(Some("t0")), &params).unwrap();
    assert_eq!(request.method, Method::Get);
    assert_eq!(request.url, "https://raw.githubusercontent.com/me/cfg/main/a%20b/c%231.xml");
    assert_eq!(headers(&request), vec![("Authorization", "token t0")]);
}

#[test]
fn checks_come_in_order() {
    let all_wrong = query(&[("owner", ""), ("repo", "a/b"), ("branch", ""), ("path", "..")]);
    let refusal = handle_raw(&state(None), &all_wrong).unwrap_err();
    assert_eq!(refusal.status.as_u16(), 400);
    assert!(refusal.body.starts_with("No GitHub token."));
    let body = |pairs: &[(&str, &str)]| handle_raw(&state(Some("t")), &query(pairs)).unwrap_err().body;
    assert_eq!(body(&[("repo", "a/b"), ("path", "..")]), "Missing required parameter: owner");
    assert_eq!(
        body(&[("owner", "o"), ("repo", "a/b"), ("path", "..")]),
        "Invalid characters in parameter: repo"
    );
    assert_eq!(
        body(&[("owner", "o"), ("repo", "r"), ("branch", "a b"), ("path", "..")]),
        "Invalid characters in parameter: branch"
    );
    assert_eq!(body(&[("owner", "o"), ("repo", "r"), ("path", "..")]), "Path traversal not allowed");
    assert_eq!(body(&[("owner", "o"), ("repo", "r")]), "Missing required parameter: path");
}

#[test]
fn user_input_cannot_leave_its_place_in_a_url() {
    for owner in ["evil.com/x", "x@evil.com", "a:80", "a?b", "a#b", "..", "a\\b"] {
        let params = query(&[("owner", owner), ("repo", "r")]);
        assert!(handle_tree(&state(Some("t")), &params).is_err(), "{:?}", owner);
    }
    let params = query(&[("owner", "o"), ("repo", "r"), ("path", "a?b=c#d/e@f")]);
    let request = handle_raw(&state(Some("t")), &params).unwrap();
    assert_eq!(request.url, "https://raw.githubusercontent.com/o/r/main/a%3Fb=c%23d/e@f");
    let segments: Vec<&str> = request.url.split('/').collect();
    assert_eq!(segments[2], "raw.githubusercontent.com");
    assert_eq!(segments.len(), 8);
}

#[test]
fn refusals_do_not_show_the_token() {
    let mut bodies = Vec::new();
    for token in ["one", "another"] {
        bodies.push(handle_tree(&state(Some(token)), &query(&[])).unwrap_err().body);
        bodies.push(handle_tree(&state(None), &query(&[("token", token)])).unwrap_err().body);
    }
    assert!(bodies.iter().all(|b| b == "Missing required parameter: owner"));
}

#[test]
fn refusals_tell_names_and_not_values() {
    for owner in ["a/b", "c d", "..", "user:secret"] {
        let params = query(&[("owner", owner), ("repo", "r")]);
        let refusal = handle_tree(&state(Some("t")), &params).unwrap_err();
        assert_eq!(refusal.body, "Invalid characters in parameter: owner");
    }
}

#[test]
fn answers_are_passed_on() {
    let reply = relay(Ok(Upstream { code: 404, body: Some("gone".to_string()) }));
    assert_eq!((reply.status.as_u16(), reply.body.as_str()), (404, "gone"));
    let reply = relay(Ok(Upstream { code: 200, body: None }));
    assert_eq!((reply.status.as_u16(), reply.body.as_str()), (200, ""));
    let reply = relay(Ok(Upstream { code: 42, body: Some("?".to_string()) }));
    assert_eq!((reply.status.as_u16(), reply.body.as_str()), (502, "?"));
    let reply = relay(Err("connection refused".to_string()));
    assert_eq!((reply.status.as_u16(), reply.body.as_str()), (502, "Proxy error: connection refused"));
}
