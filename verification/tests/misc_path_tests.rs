use anime_games_proxy::strutil::expand_home;
use anime_games_proxy::config::config_file_path;
use anime_games_proxy::ca::ca_paths;

#[test]
fn tilde_expansion() {
    assert_eq!(expand_home("~/.steam/steam", Some("/home/u")), "/home/u/.steam/steam");
    assert_eq!(expand_home("/usr/share/steam", Some("/home/u")), "/usr/share/steam");
    assert_eq!(expand_home("~/.steam", None), "~/.steam");
}

#[test]
fn config_file_location() {
    assert_eq!(
        config_file_path("/home/u"),
        "/home/u/.config/anime-games-proxy/config.json"
    );
}

#[test]
fn ca_file_layout() {
    let (key, cert) = ca_paths("/home/u");
    assert_eq!(key, "/home/u/.local/share/anime-games-proxy/ca/private.key");
    assert_eq!(cert, "/home/u/.local/share/anime-games-proxy/ca/cert.crt");
}
