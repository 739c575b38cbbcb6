use anime_games_proxy::registry::{RouteRegistry, SharedRouteRegistry};

#[test]
fn starts_at_local_default() {
    let reg = RouteRegistry::new();
    assert_eq!(reg.get_target(), "http://localhost:443");
}

#[test]
fn stores_target_as_given_when_clean() {
    let mut reg = RouteRegistry::new();
    reg.set_target("http://127.0.0.1:9000");
    assert_eq!(reg.get_target(), "http://127.0.0.1:9000");
}

#[test]
fn strips_embedded_spaces() {
    let mut reg = RouteRegistry::new();
    reg.set_target("http:// 127.0.0.1:9000");
    assert_eq!(reg.get_target(), "http://127.0.0.1:9000");
    reg.set_target("  http://a b c  ");
    assert_eq!(reg.get_target(), "http://abc");
}

#[test]
fn strips_every_kind_of_whitespace() {
    let mut reg = RouteRegistry::new();
    reg.set_target("http://\t127.0.0.1:9000\n");
    assert_eq!(reg.get_target(), "http://127.0.0.1:9000");
    reg.set_target("http://\r10.0.0.1\u{b}:80\u{c}");
    assert_eq!(reg.get_target(), "http://10.0.0.1:80");
}

#[test]
fn setting_the_stored_value_again_changes_nothing() {
    let mut reg = RouteRegistry::new();
    reg.set_target("http:// 127.0.0.1:9000");
    let stored = reg.get_target();
    reg.set_target(&stored);
    assert_eq!(reg.get_target(), stored);
}

#[test]
fn shared_holder_normalizes_too() {
    let reg = SharedRouteRegistry::new();
    assert_eq!(reg.get_target(), "http://localhost:443");
    reg.set_target("http:// 10.0.0.1:9000");
    assert_eq!(reg.get_target(), "http://10.0.0.1:9000");
}
