use gitconfig_proxy::access::{allow_all, ip_allowlist, IpAddress};
use gitconfig_proxy::params::Params;
use gitconfig_proxy::state::{tls_enabled, AppState};
use gitconfig_proxy::status::{HttpStatus, Reply};
use gitconfig_proxy::validate::{resolve_token, validate_path, validate_segment};

fn v4(text: &str) -> IpAddress {
    let octets = text.split('.').map(|part| part.parse::<u8>().unwrap());
    IpAddress::V4(octets.fold(0, |sum, octet| sum * 256 + u32::from(octet)))
}

fn answer(result: Result<(), Reply>) -> Option<(u16, String)> {
    result.err().map(|r| (r.status.as_u16(), r.body))
}

fn state(token: Option<&str>) -> AppState {
    AppState {
        default_token: token.map(str::to_string),
        profile_path: None,
        mission_path: None,
        allowed_ips: Vec::new(),
    }
}

fn query(pairs: &[(&str, &str)]) -> Params {
    let mut params = Params::new();
    for (name, value) in pairs {
        params.insert(name.to_string(), value.to_string());
    }
    params
}

#[test]
fn listed_clients_are_admitted() {
    let allowed = vec![v4("127.0.0.1"), v4("192.168.1.100"), IpAddress::V6(1)];
    assert!(ip_allowlist(&allowed, v4("192.168.1.100"), "192.168.1.100").is_ok());
    assert!(ip_allowlist(&allowed, IpAddress::V6(1), "::1").is_ok());
}

#[test]
fn unlisted_clients_are_refused() {
    let allowed = vec![v4("127.0.0.1")];
    assert_eq!(
        answer(ip_allowlist(&allowed, v4("10.0.0.5"), "10.0.0.5")),
        Some((403, "IP 10.0.0.5 not in allowlist".to_string()))
    );
    assert_eq!(
        answer(ip_allowlist(&allowed, IpAddress::V6(1), "::1")),
        Some((403, "IP ::1 not in allowlist".to_string()))
    );
    assert!(ip_allowlist(&Vec::new(), v4("127.0.0.1"), "127.0.0.1").is_err());
}

#[test]
fn an_unspecified_address_admits_everyone() {
    for wildcard in [v4("0.0.0.0"), IpAddress::V6(0)] {
        let allowed = vec![v4("127.0.0.1"), wildcard];
        assert!(allow_all(&allowed));
        assert!(ip_allowlist(&allowed, v4("8.8.8.8"), "8.8.8.8").is_ok());
    }
    assert!(!allow_all(&vec![v4("127.0.0.1")]));
}

#[test]
fn more_addresses_take_no_access_away() {
    let mut allowed = vec![v4("10.0.0.1")];
    assert!(ip_allowlist(&allowed, v4("10.0.0.1"), "10.0.0.1").is_ok());
    allowed.push(v4("10.0.0.2"));
    assert!(ip_allowlist(&allowed, v4("10.0.0.1"), "10.0.0.1").is_ok());
}

#[test]
fn the_order_of_addresses_takes_no_access_away() {
    let allowed = vec![v4("10.0.0.1"), v4("10.0.0.2")];
    let wider = vec![v4("10.0.0.3"), v4("10.0.0.2"), v4("10.0.0.1")];
    for client in ["10.0.0.1", "10.0.0.2"] {
        assert!(ip_allowlist(&allowed, v4(client), client).is_ok());
        assert!(ip_allowlist(&wider, v4(client), client).is_ok());
    }
}

#[test]
fn the_proxys_own_token_goes_first() {
    let params = query(&[("token", "theirs")]);
    assert_eq!(resolve_token(&state(Some("ours")), &params).unwrap(), "ours");
    assert_eq!(resolve_token(&state(Some("")), &params).unwrap(), "theirs");
    assert_eq!(resolve_token(&state(None), &params).unwrap(), "theirs");
}

#[test]
fn without_a_token_a_request_is_refused() {
    for params in [query(&[]), query(&[("token", "")])] {
        let refusal = resolve_token(&state(None), &params).unwrap_err();
        assert_eq!(refusal.status.as_u16(), 400);
        assert_eq!(
            refusal.body,
            "No GitHub token. Set GITHUB_TOKEN env var or pass ?token= parameter."
        );
    }
}

#[test]
fn the_last_value_of_a_parameter_counts() {
    let params = query(&[("token", "a"), ("token", "b")]);
    assert_eq!(params.get("token"), Some("b"));
    assert_eq!(params.get("owner"), None);
    assert_eq!(params.get_or("owner", "x"), "x");
}

#[test]
fn segments_without_separators_pass() {
    for value in ["main", "my-repo_1.0", "a.b.c", "h\u{e9}", "a+b(c)%", "."] {
        assert_eq!(answer(validate_segment(value, "repo")), None, "{:?}", value);
    }
}

#[test]
fn segments_that_could_change_a_url_are_refused() {
    for value in ["..", "a..b", "a/b", "a\\b", "a?b", "a&b", "a#b", "a b", "a@b", "a:b"] {
        assert_eq!(
            answer(validate_segment(value, "owner")),
            Some((400, "Invalid characters in parameter: owner".to_string())),
            "{:?}",
            value
        );
    }
    assert_eq!(
        answer(validate_segment("", "branch")),
        Some((400, "Missing required parameter: branch".to_string()))
    );
}

#[test]
fn plain_relative_paths_pass() {
    for path in ["a", "EditorFiles/My Map.dze", "a//b/", "./a", ".", "a?b#c@d", "h\u{e9}"] {
        assert_eq!(answer(validate_path(path)), None, "{:?}", path);
    }
}

#[test]
fn other_paths_are_refused() {
    assert_eq!(
        answer(validate_path("")),
        Some((400, "Missing required parameter: path".to_string()))
    );
    for path in ["..", "../a", "a/../b", "a..b", "/..", "..\\"] {
        assert_eq!(
            answer(validate_path(path)),
            Some((400, "Path traversal not allowed".to_string())),
            "{:?}",
            path
        );
    }
    for path in ["/a", "a\\b", "C:/a", "a:b", "/"] {
        assert_eq!(
            answer(validate_path(path)),
            Some((400, "Invalid path format".to_string())),
            "{:?}",
            path
        );
    }
}

#[test]
fn tls_needs_certificate_and_key() {
    assert_eq!(tls_enabled(true, true), Some(true));
    assert_eq!(tls_enabled(false, false), Some(false));
    assert_eq!(tls_enabled(true, false), None);
    assert_eq!(tls_enabled(false, true), None);
}

#[test]
fn status_codes_have_three_digits() {
    assert!(HttpStatus::from_u16(99).is_none());
    assert_eq!(HttpStatus::from_u16(100).unwrap().as_u16(), 100);
    assert_eq!(HttpStatus::from_u16(999).unwrap().as_u16(), 999);
    assert!(HttpStatus::from_u16(1000).is_none());
    assert!(HttpStatus::from_u16(204).unwrap().is_success());
    assert!(!HttpStatus::from_u16(199).unwrap().is_success());
    assert!(!HttpStatus::from_u16(300).unwrap().is_success());
}

#[test]
fn status_codes_are_printed_with_their_reason() {
    assert_eq!(HttpStatus::from_u16(404).unwrap().text(), "404 Not Found");
    assert_eq!(HttpStatus::ok().text(), "200 OK");
    assert_eq!(HttpStatus::from_u16(599).unwrap().text(), "599 <unknown status code>");
}
