//! End-to-end request handling at the model level: the decisions the proxy
//! takes for a tunneled game connection and for an untouched host. The
//! socket work around these decisions is the embedding application's.

use anime_games_proxy::ca::{generate_ca_material, CertificateAuthority};
use anime_games_proxy::registry::RouteRegistry;
use anime_games_proxy::rewrite::{plan_request, connect_established_reply, RequestAction};
use anime_games_proxy::server::{server_step, ServerPhase, ServerEvent, ServerAction};

#[test]
fn intercepted_connect_then_rewritten_get() {
    // The operator points the proxy at a backend before traffic arrives.
    let mut registry = RouteRegistry::new();
    registry.set_target("http://127.0.0.1:9000");
    let target = registry.get_target();

    // The client opens a tunnel to a game host: the proxy answers with the
    // marker header and terminates TLS with a leaf for that host.
    let connect = plan_request("CONNECT", "example.hoyoverse.com:443", None, &target);
    assert!(matches!(connect, Ok(RequestAction::EstablishTunnel)));
    let reply = connect_established_reply();
    assert_eq!(reply.status, 200);
    assert_eq!((reply.header_name.as_str(), reply.header_value.as_str()),
        ("DecryptEndpoint", "Created"));

    let (key, cert) = generate_ca_material().expect("generation");
    let mut ca = CertificateAuthority::new(key, cert, 1000);
    let leaf = ca.issue_leaf("example.hoyoverse.com").expect("issuance");
    assert_eq!(leaf.host, "example.hoyoverse.com");

    // The decrypted request inside the tunnel is rewritten to the backend,
    // path and query preserved.
    let get = plan_request(
        "GET",
        "example.hoyoverse.com",
        Some("/query?x=1"),
        &target,
    );
    match get {
        Ok(RequestAction::Rewrite(u)) => assert_eq!(u, "http://127.0.0.1:9000/query?x=1"),
        _ => panic!("expected a rewrite"),
    }
}

#[test]
fn non_matching_host_is_untouched() {
    let mut registry = RouteRegistry::new();
    registry.set_target("http://127.0.0.1:9000");
    let target = registry.get_target();
    let get = plan_request("GET", "example.com", Some("/query?x=1"), &target);
    assert!(matches!(get, Ok(RequestAction::PassThrough)));
}

#[test]
fn server_life_runs_forward() {
    let (p, a) = server_step(ServerPhase::Idle, ServerEvent::StartRequested);
    assert_eq!((p, a), (ServerPhase::Starting, ServerAction::BringUp));
    let (p, a) = server_step(p, ServerEvent::Started);
    assert_eq!((p, a), (ServerPhase::Listening, ServerAction::AcceptConnections));
    let (p, a) = server_step(p, ServerEvent::ShutdownSignal);
    assert_eq!((p, a), (ServerPhase::ShuttingDown, ServerAction::StopAccepting));
    let (p, a) = server_step(p, ServerEvent::Drained);
    assert_eq!((p, a), (ServerPhase::Stopped, ServerAction::Stay));
    // Terminal: nothing moves the server again.
    let (p, _) = server_step(p, ServerEvent::StartRequested);
    assert_eq!(p, ServerPhase::Stopped);
}

#[test]
fn failed_startup_is_fatal() {
    let (p, _) = server_step(ServerPhase::Idle, ServerEvent::StartRequested);
    let (p, a) = server_step(p, ServerEvent::StartFailed);
    assert_eq!((p, a), (ServerPhase::Stopped, ServerAction::FailFatally));
}

#[test]
fn unexpected_events_change_nothing() {
    let (p, a) = server_step(ServerPhase::Listening, ServerEvent::Started);
    assert_eq!((p, a), (ServerPhase::Listening, ServerAction::Stay));
    let (p, a) = server_step(ServerPhase::Idle, ServerEvent::Drained);
    assert_eq!((p, a), (ServerPhase::Idle, ServerAction::Stay));
}
