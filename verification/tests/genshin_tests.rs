use anime_games_proxy::genshin::{GenshinError, Version, GenshinPatcher, ApplyPlan, CheckPlan,
    UnpatchPlan, parent_dir, required_version};

#[test]
fn version_parsing() {
    let v = Version::parse("5.0.0").unwrap();
    assert_eq!((v.major, v.minor, v.patch), (5, 0, 0));
    let v = Version::parse("1.2.3").unwrap();
    assert_eq!((v.major, v.minor, v.patch), (1, 2, 3));
    let v = Version::parse("4.8").unwrap();
    assert_eq!((v.major, v.minor, v.patch), (4, 8, 0));
    let v = Version::parse("7").unwrap();
    assert_eq!((v.major, v.minor, v.patch), (7, 0, 0));
    let v = Version::parse("x.y.z").unwrap();
    assert_eq!((v.major, v.minor, v.patch), (0, 0, 0));
    let v = Version::parse("1.2.3.4").unwrap();
    assert_eq!((v.major, v.minor, v.patch), (1, 2, 3));
    let v = Version::parse("").unwrap();
    assert_eq!((v.major, v.minor, v.patch), (0, 0, 0));
}

#[test]
fn version_order() {
    let required = required_version();
    assert!(Version::parse("5.0.0").unwrap().at_least(&required));
    assert!(Version::parse("5.1.0").unwrap().at_least(&required));
    assert!(Version::parse("6.0.0").unwrap().at_least(&required));
    assert!(!Version::parse("4.9.9").unwrap().at_least(&required));
    assert!(!Version::parse("4.8").unwrap().at_least(&required));
}

#[test]
fn reads_version_from_config_text() {
    let text = "channel=1\ngame_version=5.0.0\ncps=x\n";
    assert_eq!(GenshinPatcher::parse_game_version(text).unwrap(), "5.0.0");
}

#[test]
fn reads_version_with_windows_line_endings() {
    let text = "channel=1\r\ngame_version=5.1.0\r\n";
    assert_eq!(GenshinPatcher::parse_game_version(text).unwrap(), "5.1.0");
}

#[test]
fn version_token_stops_at_whitespace() {
    let text = "game_version=5.0.0 extra\n";
    assert_eq!(GenshinPatcher::parse_game_version(text).unwrap(), "5.0.0");
}

#[test]
fn missing_version_is_an_error() {
    let text = "channel=1\nother=2\n";
    match GenshinPatcher::parse_game_version(text) {
        Err(GenshinError::InvalidVersion(m)) => {
            assert_eq!(m, "Could not find game_version in config.ini")
        }
        _ => panic!("expected an invalid-version error"),
    }
    assert!(GenshinPatcher::parse_game_version("game_version= \n").is_err());
}

#[test]
fn patcher_paths() {
    let p = GenshinPatcher::new("/games/genshin/GenshinImpact.exe", true).unwrap();
    assert!(!p.is_patched());
    let text = GenshinPatcher::parse_game_version("game_version=5.0.0\n").unwrap();
    assert_eq!(text, "5.0.0");
    assert_eq!(parent_dir("/games/genshin/GenshinImpact.exe"), Some("/games/genshin".to_string()));
    assert_eq!(parent_dir("GenshinImpact.exe"), Some("".to_string()));
    assert_eq!(parent_dir(""), None);
    assert_eq!(parent_dir("/GenshinImpact.exe"), Some("/".to_string()));
}

#[test]
fn missing_executable_is_an_error() {
    match GenshinPatcher::new("/games/GenshinImpact.exe", false) {
        Err(GenshinError::PathNotFound(m)) => {
            assert_eq!(m, "Game executable not found: /games/GenshinImpact.exe")
        }
        _ => panic!("expected a path error"),
    }
}

#[test]
fn error_messages() {
    let e = GenshinError::DownloadError("boom".to_string());
    assert_eq!(e.message(), "Download error: boom");
    let e = GenshinError::IoError("io".to_string());
    assert_eq!(e.message(), "IO error: io");
}

#[test]
fn check_plan() {
    assert!(matches!(GenshinPatcher::plan_check(false, Some("5.0.0")), CheckPlan::Skip));
    assert!(matches!(GenshinPatcher::plan_check(true, None), CheckPlan::Skip));
    assert!(matches!(GenshinPatcher::plan_check(true, Some("4.9.0")), CheckPlan::Skip));
    assert!(matches!(GenshinPatcher::plan_check(true, Some("5.0.0")), CheckPlan::Patch));
    assert!(matches!(GenshinPatcher::plan_check(true, Some("5.2.1")), CheckPlan::Patch));
}

#[test]
fn apply_plan() {
    assert!(GenshinPatcher::plan_apply(false, true, true, 1, 2, false).is_err());
    assert!(GenshinPatcher::plan_apply(true, false, true, 1, 2, false).is_err());
    assert!(GenshinPatcher::plan_apply(true, true, false, 1, 2, false).is_err());
    assert!(matches!(
        GenshinPatcher::plan_apply(true, true, true, 5, 5, false),
        Ok(ApplyPlan::AlreadyPatched)
    ));
    assert!(matches!(
        GenshinPatcher::plan_apply(true, true, true, 3, 5, false),
        Ok(ApplyPlan::CopyWithBackup)
    ));
    assert!(matches!(
        GenshinPatcher::plan_apply(true, true, true, 3, 5, true),
        Ok(ApplyPlan::CopyOnly)
    ));
}

#[test]
fn unpatch_plan() {
    let mut p = GenshinPatcher::new("/g/GenshinImpact.exe", true).unwrap();
    assert!(matches!(p.plan_unpatch(true), UnpatchPlan::NotPatched));
    p.set_patched(true);
    assert!(matches!(p.plan_unpatch(true), UnpatchPlan::RestoreBackup));
    assert!(matches!(p.plan_unpatch(false), UnpatchPlan::ForgetOnly));
    p.set_patched(false);
    assert!(matches!(p.plan_unpatch(false), UnpatchPlan::NotPatched));
}

#[test]
fn patch_dir_location() {
    assert_eq!(
        GenshinPatcher::get_patch_dir(Some("/home/u")),
        "/home/u/.local/share/anime-games-proxy/patch/genshin"
    );
}
