use docker_rl::err::ExitCode;
use docker_rl::limit::{limit_from_response, parse_header, parse_quota, Header, Limit};
use docker_rl::run::{on_failure, on_probe_response, on_token_response, start, Action};
use docker_rl::token::{connection_failure, token_from_response};

fn header(name: &str, value: &str) -> Header {
    Header { name: name.as_bytes().to_vec(), value: value.as_bytes().to_vec() }
}

fn docker_headers(limit: &str, remaining: &str) -> Vec<Header> {
    vec![
        header("content-type", "application/json"),
        header("ratelimit-limit", limit),
        header("ratelimit-remaining", remaining),
    ]
}

#[test]
fn quota_before_semicolon() {
    assert_eq!(parse_quota(&b"100;w=21600".to_vec()), Some(100));
    assert_eq!(parse_quota(&b"97;w=21600".to_vec()), Some(97));
}

#[test]
fn quota_without_suffix() {
    assert_eq!(parse_quota(&b"42".to_vec()), Some(42));
    assert_eq!(parse_quota(&b"+7;x".to_vec()), Some(7));
    assert_eq!(parse_quota(&b"0".to_vec()), Some(0));
}

#[test]
fn quota_largest() {
    assert_eq!(parse_quota(&b"18446744073709551615;w=1".to_vec()), Some(u64::MAX));
    assert_eq!(parse_quota(&b"18446744073709551616;w=1".to_vec()), None);
}

#[test]
fn quota_rejects_bad_prefix() {
    assert_eq!(parse_quota(&b"abc;w=1".to_vec()), None);
    assert_eq!(parse_quota(&b";w=1".to_vec()), None);
    assert_eq!(parse_quota(&b"".to_vec()), None);
    assert_eq!(parse_quota(&b"-1".to_vec()), None);
    assert_eq!(parse_quota(&b"1 ;w".to_vec()), None);
    assert_eq!(parse_quota(&vec![b'5', 0x80]), None);
}

#[test]
fn header_missing_is_parsing_error() {
    let hs = vec![header("ratelimit-limit", "100;w=21600")];
    let e = parse_header(&hs, b"ratelimit-remaining").unwrap_err();
    assert_eq!(e.code, ExitCode::Parsing);
    let e = limit_from_response(200, &hs).unwrap_err();
    assert_eq!(e.code, ExitCode::Parsing);
    let hs = vec![header("ratelimit-remaining", "97;w=21600")];
    assert_eq!(limit_from_response(200, &hs).unwrap_err().code, ExitCode::Parsing);
}

#[test]
fn header_non_numeric_is_parsing_error() {
    let hs = docker_headers("abc;w=1", "97;w=21600");
    assert_eq!(limit_from_response(200, &hs).unwrap_err().code, ExitCode::Parsing);
}

#[test]
fn first_header_of_a_name_counts() {
    let hs = vec![header("ratelimit-limit", "5"), header("ratelimit-limit", "9")];
    assert_eq!(parse_header(&hs, b"ratelimit-limit").unwrap(), 5);
}

#[test]
fn too_many_requests_is_over_limit() {
    let hs = docker_headers("100;w=21600", "0;w=21600");
    assert_eq!(limit_from_response(429, &hs).unwrap_err().code, ExitCode::OverLimit);
    assert_eq!(limit_from_response(429, &Vec::new()).unwrap_err().code, ExitCode::OverLimit);
}

#[test]
fn other_status_is_connection_error() {
    let hs = docker_headers("100;w=21600", "97;w=21600");
    assert_eq!(limit_from_response(500, &hs).unwrap_err().code, ExitCode::Connection);
    assert_eq!(limit_from_response(404, &hs).unwrap_err().code, ExitCode::Connection);
}

#[test]
fn probe_success_gives_limit() {
    let hs = docker_headers("100;w=21600", "97;w=21600");
    let l = limit_from_response(200, &hs).unwrap();
    assert_eq!(l, Limit { remaining: 97, total: 100 });
    assert_eq!(l.to_text(), "97/100");
}

#[test]
fn limit_text_forms() {
    assert_eq!(Limit { remaining: 0, total: 0 }.to_text(), "0/0");
    assert_eq!(Limit { remaining: 10, total: 200 }.to_text(), "10/200");
    assert_eq!(Limit { remaining: u64::MAX, total: 1 }.to_text(), "18446744073709551615/1");
}

#[test]
fn token_rejection_is_auth() {
    let e = token_from_response(401, true, None).unwrap_err();
    assert_eq!(e.code, ExitCode::Auth);
    let e = token_from_response(403, true, Some("x".to_string())).unwrap_err();
    assert_eq!(e.code, ExitCode::Auth);
    assert_eq!(connection_failure().code, ExitCode::Connection);
    assert_ne!(ExitCode::Auth, ExitCode::Connection);
}

#[test]
fn token_errors() {
    assert_eq!(token_from_response(401, false, None).unwrap_err().code, ExitCode::Connection);
    assert_eq!(token_from_response(500, true, None).unwrap_err().code, ExitCode::Connection);
    assert_eq!(token_from_response(200, false, None).unwrap_err().code, ExitCode::Parsing);
    assert_eq!(token_from_response(200, true, Some("abc".to_string())).unwrap().token, "abc");
}

#[test]
fn anonymous_run_end_to_end() {
    assert!(matches!(start(false), Action::RequestToken { credentialed: false }));
    let token = match on_token_response(200, false, Some("abc".to_string())) {
        Action::Probe(t) => t,
        other => panic!("unexpected step {:?}", other),
    };
    assert_eq!(token.token, "abc");
    let hs = docker_headers("100;w=21600", "97;w=21600");
    match on_probe_response(200, &hs) {
        Action::Finish(Ok(l)) => {
            assert_eq!(l, Limit { remaining: 97, total: 100 });
            assert_eq!(l.to_text(), "97/100");
        }
        other => panic!("unexpected step {:?}", other),
    }
}

#[test]
fn bad_password_run_stops_before_probe() {
    assert!(matches!(start(true), Action::RequestToken { credentialed: true }));
    match on_token_response(401, true, None) {
        Action::Finish(Err(e)) => assert_eq!(e.code, ExitCode::Auth),
        other => panic!("unexpected step {:?}", other),
    }
}

#[test]
fn unreachable_server_is_connection_error() {
    match on_failure() {
        Action::Finish(Err(e)) => assert_eq!(e.code, ExitCode::Connection),
        other => panic!("unexpected step {:?}", other),
    }
}

#[test]
fn unexpected_status_names_it() {
    let e = limit_from_response(503, &Vec::new()).unwrap_err();
    assert_eq!(e.msg, "error connecting to docker.io: status 503");
    let e = token_from_response(500, false, None).unwrap_err();
    assert_eq!(e.msg, "error connecting to docker.io: status 500");
}
