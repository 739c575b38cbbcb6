use anime_games_proxy::rewrite::{plan_request, target_ok, connect_established_reply,
    make_route_target, RequestAction, RewriteError};

#[test]
fn rewrites_path_and_query_onto_target() {
    let r = plan_request(
        "GET",
        "h.hoyoverse.com",
        Some("/a/b?c=1"),
        "http://127.0.0.1:9000",
    );
    match r {
        Ok(RequestAction::Rewrite(u)) => assert_eq!(u, "http://127.0.0.1:9000/a/b?c=1"),
        _ => panic!("expected a rewrite"),
    }
}

#[test]
fn missing_path_defaults_to_slash() {
    let r = plan_request("GET", "h.hoyoverse.com", None, "http://127.0.0.1:9000");
    match r {
        Ok(RequestAction::Rewrite(u)) => assert_eq!(u, "http://127.0.0.1:9000/"),
        _ => panic!("expected a rewrite"),
    }
}

#[test]
fn connect_establishes_tunnel() {
    let r = plan_request(
        "CONNECT",
        "example.hoyoverse.com:443",
        None,
        "http://127.0.0.1:9000",
    );
    assert!(matches!(r, Ok(RequestAction::EstablishTunnel)));
}

#[test]
fn non_matching_host_passes_through() {
    let r = plan_request("GET", "example.com", Some("/x?y=1"), "http://127.0.0.1:9000");
    assert!(matches!(r, Ok(RequestAction::PassThrough)));
}

#[test]
fn rule_domain_in_the_query_does_not_match() {
    // Only the authority is judged: a query mentioning a rule domain leaves
    // the request untouched.
    let r = plan_request(
        "GET",
        "example.com",
        Some("/?x=mihoyo.com"),
        "http://127.0.0.1:9000",
    );
    assert!(matches!(r, Ok(RequestAction::PassThrough)));
}

#[test]
fn malformed_target_is_rejected_not_forwarded() {
    let r = plan_request("GET", "h.hoyoverse.com", Some("/a"), "");
    assert!(matches!(r, Err(RewriteError::MalformedTarget)));
    let r2 = plan_request("GET", "h.hoyoverse.com", Some("/a"), "http:// bad");
    assert!(matches!(r2, Err(RewriteError::MalformedTarget)));
    let r3 = plan_request("GET", "h.hoyoverse.com", Some("/a"), "http://\tbad");
    assert!(matches!(r3, Err(RewriteError::MalformedTarget)));
}

#[test]
fn malformed_target_does_not_matter_for_pass_through() {
    let r = plan_request("GET", "example.com", Some("/a"), "");
    assert!(matches!(r, Ok(RequestAction::PassThrough)));
}

#[test]
fn target_wellformedness() {
    assert!(target_ok("http://127.0.0.1:9000"));
    assert!(!target_ok(""));
    assert!(!target_ok("http:// 127.0.0.1"));
    assert!(!target_ok("http://\t127.0.0.1"));
    assert!(!target_ok("http://a\nb"));
}

#[test]
fn connect_reply_carries_marker_header() {
    let reply = connect_established_reply();
    assert_eq!(reply.status, 200);
    assert_eq!(reply.header_name, "DecryptEndpoint");
    assert_eq!(reply.header_value, "Created");
}

#[test]
fn route_target_serialization() {
    assert_eq!(make_route_target(false, "127.0.0.1", "80"), "http://127.0.0.1:80");
    assert_eq!(make_route_target(true, "example.net", "8443"), "https://example.net:8443");
}
