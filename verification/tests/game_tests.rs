use anime_games_proxy::game::{GameType, detect_game, modify_command_for_game, get_patch_dir};

#[test]
fn detects_genshin() {
    let args = vec!["wine".to_string(), "/g/GenshinImpact.exe".to_string()];
    let info = detect_game(&args);
    assert_eq!(info.game_type, GameType::Genshin);
    assert_eq!(info.game_exe, "/g/GenshinImpact.exe");
}

#[test]
fn detects_starrail() {
    let args = vec!["/g/StarRail.exe".to_string()];
    let info = detect_game(&args);
    assert_eq!(info.game_type, GameType::StarRail);
    assert_eq!(info.game_exe, "/g/StarRail.exe");
}

#[test]
fn other_exe_is_unknown() {
    let args = vec!["--flag".to_string(), "/g/Other.exe".to_string()];
    let info = detect_game(&args);
    assert_eq!(info.game_type, GameType::Unknown);
    assert_eq!(info.game_exe, "/g/Other.exe");
}

#[test]
fn no_exe_means_no_game() {
    let args = vec!["--flag".to_string(), "value".to_string()];
    let info = detect_game(&args);
    assert_eq!(info.game_type, GameType::Unknown);
    assert_eq!(info.game_exe, "");
    let info2 = detect_game(&Vec::new());
    assert_eq!(info2.game_type, GameType::Unknown);
    assert_eq!(info2.game_exe, "");
}

#[test]
fn first_classifying_argument_wins() {
    let args = vec!["/g/Other.exe".to_string(), "/g/GenshinImpact.exe".to_string()];
    let info = detect_game(&args);
    assert_eq!(info.game_type, GameType::Unknown);
    assert_eq!(info.game_exe, "/g/Other.exe");
}

#[test]
fn starrail_command_gets_the_injector() {
    let args = vec!["wine".to_string(), "/g/StarRail.exe".to_string(), "-arg".to_string()];
    let info = detect_game(&args);
    let out = modify_command_for_game(&args, &info, "/patch/jadeite.exe").unwrap();
    assert_eq!(
        out,
        vec![
            "wine".to_string(),
            "/patch/jadeite.exe".to_string(),
            "/g/StarRail.exe".to_string(),
            "-arg".to_string(),
        ]
    );
}

#[test]
fn other_commands_are_unchanged() {
    let args = vec!["wine".to_string(), "/g/GenshinImpact.exe".to_string()];
    let info = detect_game(&args);
    let out = modify_command_for_game(&args, &info, "/patch/jadeite.exe").unwrap();
    assert_eq!(out, args);
}

#[test]
fn patch_dir_falls_back_to_tmp() {
    assert_eq!(
        get_patch_dir(Some("/home/u")),
        "/home/u/.local/share/anime-games-proxy/patch"
    );
    assert_eq!(get_patch_dir(None), "/tmp/.local/share/anime-games-proxy/patch");
}
