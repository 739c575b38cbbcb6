use anime_games_proxy::starrail::{ReleaseInfo, ReleaseAsset, get_patch_file_path, select_release,
    pick_asset, asset_file_name, is_zip_name};
use anime_games_proxy::umu::{UmuRun, select_umu_asset};

#[test]
fn injector_location() {
    assert_eq!(
        get_patch_file_path(Some("/home/u")),
        "/home/u/.local/share/anime-games-proxy/patch/star-rail/jadeite.exe"
    );
    assert_eq!(
        get_patch_file_path(None),
        "/tmp/.local/share/anime-games-proxy/patch/star-rail/jadeite.exe"
    );
}

#[test]
fn selects_first_stable_release() {
    let releases = vec![
        ReleaseInfo { draft: true, prerelease: false },
        ReleaseInfo { draft: false, prerelease: true },
        ReleaseInfo { draft: false, prerelease: false },
        ReleaseInfo { draft: false, prerelease: false },
    ];
    assert_eq!(select_release(&releases), Some(2));
    let none = vec![ReleaseInfo { draft: true, prerelease: true }];
    assert_eq!(select_release(&none), None);
    assert_eq!(select_release(&Vec::new()), None);
}

#[test]
fn picks_first_downloadable_asset() {
    let assets = vec![
        ReleaseAsset { name: Some("a".to_string()), url: None },
        ReleaseAsset { name: None, url: Some("https://x/y.zip".to_string()) },
    ];
    assert_eq!(pick_asset(&assets), Some(1));
    assert_eq!(pick_asset(&Vec::new()), None);
}

#[test]
fn asset_names() {
    assert_eq!(asset_file_name(Some("jadeite.zip"), "https://x/other"), "jadeite.zip");
    assert_eq!(asset_file_name(None, "https://host/path/v1.zip"), "v1.zip");
}

#[test]
fn archive_detection() {
    assert!(is_zip_name("patch.zip"));
    assert!(is_zip_name("PATCH.ZIP"));
    assert!(!is_zip_name("patch.tar"));
    assert!(!is_zip_name("zip"));
}

#[test]
fn helper_defaults() {
    let u = UmuRun::default();
    assert_eq!(u.binary, "umu-run");
    assert_eq!(
        UmuRun::install_dir("/home/u"),
        "/home/u/.local/share/anime-games-proxy"
    );
}

#[test]
fn helper_asset_selection() {
    let names = vec![
        "umu-launcher.tar.gz".to_string(),
        "umu-launcher-zipapp.tar".to_string(),
        "umu-launcher-zipapp.zip".to_string(),
    ];
    assert_eq!(select_umu_asset(&names), Some(1));
    let none = vec!["src.tar.gz".to_string()];
    assert_eq!(select_umu_asset(&none), None);
}
