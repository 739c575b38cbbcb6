use anime_games_proxy::config::{Config, ConfigGame, exe_name, strip_exe_suffix};

fn game(name: &str, wineprefix: &str, runner: &str) -> ConfigGame {
    ConfigGame {
        name: name.to_string(),
        wineprefix: wineprefix.to_string(),
        proton_wine_path: runner.to_string(),
        ..Default::default()
    }
}

#[test]
fn defaults() {
    let c = Config::default();
    assert_eq!(c.proxy_port, "8080");
    assert!(c.games.is_empty());
    let g = ConfigGame::default();
    assert_eq!(g.server, "127.0.0.1");
    assert_eq!(g.server_port, 80);
    assert!(!g.use_ssl);
    assert!(g.name.is_empty());
}

#[test]
fn exe_name_takes_the_file_name() {
    assert_eq!(exe_name("/games/GenshinImpact.exe"), "GenshinImpact.exe");
    assert_eq!(exe_name("GenshinImpact.exe"), "GenshinImpact.exe");
}

#[test]
fn strip_exe_suffix_is_case_insensitive() {
    assert_eq!(strip_exe_suffix("Game.exe"), "Game");
    assert_eq!(strip_exe_suffix("Game.EXE"), "Game");
    assert_eq!(strip_exe_suffix("Game"), "Game");
}

#[test]
fn saved_runner_prefers_runner_path_over_wineprefix() {
    let c = Config {
        games: vec![game("Game.exe", "/prefix", "/runner")],
        proxy_port: "8080".to_string(),
    };
    assert_eq!(c.saved_runner_for_exe("/path/Game.exe"), Some("/runner".to_string()));
}

#[test]
fn saved_runner_falls_back_to_wineprefix() {
    let c = Config {
        games: vec![game("Game.exe", "/prefix", "   ")],
        proxy_port: "8080".to_string(),
    };
    assert_eq!(c.saved_runner_for_exe("Game.exe"), Some("/prefix".to_string()));
}

#[test]
fn saved_runner_blank_entry_yields_nothing() {
    let c = Config {
        games: vec![game("Game.exe", "", " ")],
        proxy_port: "8080".to_string(),
    };
    assert_eq!(c.saved_runner_for_exe("Game.exe"), None);
    assert_eq!(c.saved_runner_for_exe("Other.exe"), None);
}

#[test]
fn set_runner_updates_the_matching_entry() {
    let mut c = Config {
        games: vec![game("Game.exe", "/prefix", "/old")],
        proxy_port: "8080".to_string(),
    };
    c.set_runner_for_exe("/somewhere/Game.exe", "/new".to_string());
    assert_eq!(c.games.len(), 1);
    assert_eq!(c.games[0].proton_wine_path, "/new");
    assert_eq!(c.games[0].wineprefix, "/prefix");
}

#[test]
fn set_runner_appends_a_fresh_entry() {
    let mut c = Config::default();
    c.set_runner_for_exe("/somewhere/Game.exe", "/runner".to_string());
    assert_eq!(c.games.len(), 1);
    assert_eq!(c.games[0].name, "Game.exe");
    assert_eq!(c.games[0].proton_wine_path, "/runner");
    assert_eq!(c.games[0].server, "127.0.0.1");
    assert_eq!(c.games[0].server_port, 80);
}

#[test]
fn server_for_exe_returns_the_entry_settings() {
    let mut g = game("Game.exe", "", "");
    g.server = "10.0.0.5".to_string();
    g.server_port = 8443;
    g.use_ssl = true;
    let c = Config { games: vec![g], proxy_port: "8080".to_string() };
    assert_eq!(
        c.server_for_exe("/x/Game.exe"),
        Some(("10.0.0.5".to_string(), 8443, true))
    );
    assert_eq!(c.server_for_exe("Missing.exe"), None);
}

#[test]
fn wineprefix_exact_name_wins() {
    let c = Config {
        games: vec![game("Game.exe", "/exact", ""), game("Game", "/noext", "")],
        proxy_port: "8080".to_string(),
    };
    assert_eq!(
        c.choose_wineprefix("Game.exe", Some("/home/u")),
        Some("/exact".to_string())
    );
}

#[test]
fn wineprefix_falls_back_to_extensionless_match() {
    let c = Config {
        games: vec![game("Game", "/noext", "")],
        proxy_port: "8080".to_string(),
    };
    assert_eq!(
        c.choose_wineprefix("Game.exe", Some("/home/u")),
        Some("/noext".to_string())
    );
}

#[test]
fn wineprefix_defaults_under_home() {
    let c = Config::default();
    assert_eq!(
        c.choose_wineprefix("Game.exe", Some("/home/u")),
        Some("/home/u/.local/share/anime-games-proxy/prefix/Game".to_string())
    );
    assert_eq!(c.choose_wineprefix("Game.exe", None), None);
}
