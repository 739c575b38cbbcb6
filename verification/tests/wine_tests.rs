use anime_games_proxy::wine::{RunnerType, Runner, WineCandidate, is_executable,
    detect_runner_type, unique_paths, find_proton_dirs, find_wine_binaries, runner_candidates,
    find_runner};
use anime_games_proxy::game::GameType;

#[test]
fn executable_modes() {
    assert!(is_executable(0o755));
    assert!(is_executable(0o100));
    assert!(is_executable(0o001));
    assert!(!is_executable(0o644));
    assert!(!is_executable(0));
}

#[test]
fn runner_classification_by_name() {
    assert_eq!(detect_runner_type("/tools/Proton-GE-8"), Some(RunnerType::Proton));
    assert_eq!(detect_runner_type("/tools/GE-Proton9-2"), Some(RunnerType::Proton));
    assert_eq!(detect_runner_type("/runners/wine-staging"), Some(RunnerType::Wine));
    assert_eq!(detect_runner_type("/runners/Wine-GE"), Some(RunnerType::Wine));
    assert_eq!(detect_runner_type("/runners/lutris-7"), None);
}

#[test]
fn proton_wins_over_wine_in_a_name() {
    assert_eq!(detect_runner_type("/t/proton-wine"), Some(RunnerType::Proton));
}

#[test]
fn unique_paths_keeps_first_occurrences() {
    let paths = vec![
        "/a".to_string(),
        "/b".to_string(),
        "/a".to_string(),
        "/c".to_string(),
        "/b".to_string(),
    ];
    assert_eq!(unique_paths(&paths), vec!["/a", "/b", "/c"]);
}

#[test]
fn proton_dirs_are_filtered_classified_and_deduplicated() {
    let entries = vec![
        "/c/Proton 8.0".to_string(),
        "/c/SteamLinuxRuntime".to_string(),
        "/c/GE-Proton9-2".to_string(),
        "/c/Proton 8.0".to_string(),
    ];
    let runners = find_proton_dirs(&entries);
    assert_eq!(runners.len(), 2);
    assert_eq!(runners[0].path, "/c/Proton 8.0");
    assert_eq!(runners[1].path, "/c/GE-Proton9-2");
    assert!(runners.iter().all(|r| r.runner_type == RunnerType::Proton));
}

#[test]
fn wine_binaries_need_both_a_binary_and_a_runner_name() {
    let candidates = vec![
        WineCandidate { path: "/t/wine-ge".to_string(), has_wine_binary: true },
        WineCandidate { path: "/t/wine-broken".to_string(), has_wine_binary: false },
        WineCandidate { path: "/t/unrelated".to_string(), has_wine_binary: true },
        WineCandidate { path: "/t/Proton-experimental".to_string(), has_wine_binary: true },
    ];
    let runners = find_wine_binaries(&candidates);
    assert_eq!(runners.len(), 2);
    assert_eq!(runners[0].path, "/t/wine-ge");
    assert_eq!(runners[0].runner_type, RunnerType::Wine);
    assert_eq!(runners[1].path, "/t/Proton-experimental");
    assert_eq!(runners[1].runner_type, RunnerType::Proton);
}

#[test]
fn wine_binaries_are_deduplicated_by_path() {
    // The same directory reached from two scan bases keeps its first
    // occurrence only.
    let candidates = vec![
        WineCandidate { path: "/t/wine-ge".to_string(), has_wine_binary: true },
        WineCandidate { path: "/t/wine-staging".to_string(), has_wine_binary: true },
        WineCandidate { path: "/t/wine-ge".to_string(), has_wine_binary: true },
    ];
    let runners = find_wine_binaries(&candidates);
    assert_eq!(runners.len(), 2);
    assert_eq!(runners[0].path, "/t/wine-ge");
    assert_eq!(runners[1].path, "/t/wine-staging");
}

fn proton(path: &str) -> Runner {
    Runner { path: path.to_string(), runner_type: RunnerType::Proton }
}

fn wine(path: &str) -> Runner {
    Runner { path: path.to_string(), runner_type: RunnerType::Wine }
}

#[test]
fn starrail_candidates_are_wine_only() {
    let protons = vec![proton("/p1")];
    let wines = vec![wine("/w1"), wine("/w2")];
    let c = runner_candidates(GameType::StarRail, &protons, &wines);
    assert_eq!(c.len(), 2);
    assert_eq!(c[0].path, "/w1");
    assert_eq!(c[1].path, "/w2");
}

#[test]
fn other_games_get_proton_then_wine() {
    let protons = vec![proton("/p1")];
    let wines = vec![wine("/w1")];
    let c = runner_candidates(GameType::Genshin, &protons, &wines);
    assert_eq!(c.len(), 2);
    assert_eq!(c[0].path, "/p1");
    assert_eq!(c[0].runner_type, RunnerType::Proton);
    assert_eq!(c[1].path, "/w1");
    assert_eq!(c[1].runner_type, RunnerType::Wine);
}

#[test]
fn saved_runner_must_be_among_candidates() {
    let candidates = vec![proton("/p1"), wine("/w1")];
    assert_eq!(find_runner(&candidates, "/w1"), Some(1));
    assert_eq!(find_runner(&candidates, "/gone"), None);
}
