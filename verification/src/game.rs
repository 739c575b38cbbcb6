//! Which game an executable belongs to, and how the launch command is
//! adjusted for it: the one game that needs an injector has its executable
//! argument replaced by the injector path, with the original executable
//! passed along as the injector's first argument.

use vstd::prelude::*;
use crate::strutil::{has_substr, has_suffix, contains_sub, ends_with_str};

verus! {

/// The games the launcher knows how to prepare.
#[derive(PartialEq, Eq, Structural, Clone, Copy, Debug)]
pub enum GameType {
    Genshin,
    StarRail,
    Unknown,
}

/// The detected game: the executable argument and its classification.
pub struct GameInfo {
    /// The command argument naming the game executable, or empty where none
    /// was found.
    pub game_exe: String,
    /// Which game that executable is.
    pub game_type: GameType,
}

/// How one argument classifies, on its own.
pub open spec fn spec_classify_arg(arg: Seq<char>) -> Option<GameType> {
    if has_substr(arg, "GenshinImpact.exe"@) {
        Some(GameType::Genshin)
    } else if has_substr(arg, "StarRail.exe"@) {
        Some(GameType::StarRail)
    } else if has_suffix(arg, ".exe"@) {
        Some(GameType::Unknown)
    } else {
        None
    }
}

/// What scanning the arguments detects: the first argument that classifies,
/// with its classification — or an empty name and no known game.
pub open spec fn spec_detect(args: Seq<Seq<char>>) -> (Seq<char>, GameType)
    decreases args.len(),
{
    if args.len() == 0 {
        (Seq::empty(), GameType::Unknown)
    } else {
        match spec_classify_arg(args.first()) {
            Some(t) => (args.first(), t),
            None => spec_detect(args.drop_first()),
        }
    }
}

/// Where the first `i` arguments classify as nothing, detection over the
/// whole list equals detection over the rest.
proof fn lemma_detect_skip(args: Seq<Seq<char>>, i: int)
    requires
        0 <= i <= args.len(),
        forall|k: int| 0 <= k < i ==> spec_classify_arg(#[trigger] args[k]) is None,
    ensures
        spec_detect(args) == spec_detect(args.skip(i)),
    decreases i,
{
    if i > 0 {
        assert(spec_classify_arg(args.first()) is None);
        lemma_detect_skip(args.drop_first(), i - 1);
        assert(args.drop_first().skip(i - 1) =~= args.skip(i));
    } else {
        assert(args.skip(0) =~= args);
    }
}

/// Scan the command arguments for the game executable: the first argument
/// mentioning a known game executable decides the game; any other `.exe`
/// argument is an unknown game; with no executable at all, the name is empty.
pub fn detect_game(args: &Vec<String>) -> (r: GameInfo)
    ensures
        r.game_exe@ == spec_detect(args.deep_view()).0,
        r.game_type == spec_detect(args.deep_view()).1,
{
    let n = args.len();
    let mut i: usize = 0;
    while i < n
        invariant
            n == args@.len(),
            i <= n,
            args.deep_view().len() == n,
            forall|k: int| 0 <= k < n ==> args.deep_view()[k] == #[trigger] args@[k]@,
            forall|k: int| 0 <= k < i ==> spec_classify_arg(#[trigger] args.deep_view()[k]) is None,
        decreases n - i,
    {
        let arg = &args[i];
        let r: Option<GameType> = if contains_sub(arg.as_str(), "GenshinImpact.exe") {
            Some(GameType::Genshin)
        } else if contains_sub(arg.as_str(), "StarRail.exe") {
            Some(GameType::StarRail)
        } else if ends_with_str(arg.as_str(), ".exe") {
            Some(GameType::Unknown)
        } else {
            None
        };
        match r {
            Some(t) => {
                proof {
                    lemma_detect_skip(args.deep_view(), i as int);
                    assert(args.deep_view().skip(i as int).first() == args.deep_view()[i as int]);
                }
                return GameInfo { game_exe: arg.clone(), game_type: t };
            },
            None => {
                assert(spec_classify_arg(args.deep_view()[i as int]) is None);
            },
        }
        i += 1;
    }
    proof {
        lemma_detect_skip(args.deep_view(), n as int);
        assert(args.deep_view().skip(n as int) =~= Seq::<Seq<char>>::empty());
    }
    GameInfo { game_exe: String::new(), game_type: GameType::Unknown }
}

/// The first argument mentioning the injected game's executable.
pub open spec fn spec_find_sr(args: Seq<Seq<char>>) -> Option<int>
    decreases args.len(),
{
    if args.len() == 0 {
        None
    } else if has_substr(args.first(), "StarRail.exe"@) {
        Some(0int)
    } else {
        match spec_find_sr(args.drop_first()) {
            Some(j) => Some(j + 1),
            None => None,
        }
    }
}

/// Where the first `i` arguments miss and argument `i` hits, the find lands
/// on `i`.
proof fn lemma_find_sr_hit(args: Seq<Seq<char>>, i: int)
    requires
        0 <= i < args.len(),
        forall|k: int| 0 <= k < i ==> !has_substr(#[trigger] args[k], "StarRail.exe"@),
        has_substr(args[i], "StarRail.exe"@),
    ensures
        spec_find_sr(args) == Some(i),
    decreases i,
{
    if i > 0 {
        lemma_find_sr_hit(args.drop_first(), i - 1);
    }
}

/// Where no argument hits, the find comes up empty.
proof fn lemma_find_sr_miss(args: Seq<Seq<char>>)
    requires
        forall|k: int| 0 <= k < args.len() ==> !has_substr(#[trigger] args[k], "StarRail.exe"@),
    ensures
        spec_find_sr(args) is None,
    decreases args.len(),
{
    if args.len() > 0 {
        lemma_find_sr_miss(args.drop_first());
    }
}

/// Copy a list of arguments.
fn clone_args(args: &Vec<String>) -> (r: Vec<String>)
    ensures
        r.deep_view() == args.deep_view(),
{
    let n = args.len();
    let mut r: Vec<String> = Vec::new();
    let mut i: usize = 0;
    while i < n
        invariant
            n == args@.len(),
            i <= n,
            r@.len() == i,
            forall|k: int| 0 <= k < i ==> #[trigger] r@[k]@ == args@[k]@,
        decreases n - i,
    {
        r.push(args[i].clone());
        i += 1;
    }
    assert(r.deep_view() =~= args.deep_view());
    r
}

/// Adjust the launch command for the detected game. For the game that needs
/// an injector, the first argument holding its executable is replaced by the
/// injector path and the original executable follows it as an argument; every
/// other command is passed through unchanged. Never fails.
pub fn modify_command_for_game(args: &Vec<String>, game_info: &GameInfo, injector_path: &str) -> (r:
    Result<Vec<String>, String>)
    ensures
        r is Ok,
        !(game_info.game_type == GameType::StarRail) ==> (r matches Ok(v) && v.deep_view()
            == args.deep_view()),
        game_info.game_type == GameType::StarRail ==> match spec_find_sr(args.deep_view()) {
            Some(i) => (r matches Ok(v) && v.deep_view() == args.deep_view().update(
                i,
                injector_path@,
            ).insert(i + 1, args.deep_view()[i])),
            None => (r matches Ok(v) && v.deep_view() == args.deep_view()),
        },
{
    let mut modified = clone_args(args);
    if !(game_info.game_type == GameType::StarRail) {
        return Ok(modified);
    }
    let n = args.len();
    let mut i: usize = 0;
    assert(args.deep_view().len() == n);
    assert(forall|k: int| 0 <= k < n ==> args.deep_view()[k] == #[trigger] args@[k]@);
    while i < n
        invariant
            game_info.game_type == GameType::StarRail,
            n == args@.len(),
            i <= n,
            args.deep_view().len() == n,
            forall|k: int| 0 <= k < n ==> args.deep_view()[k] == #[trigger] args@[k]@,
            modified.deep_view() == args.deep_view(),
            forall|k: int|
                0 <= k < i ==> !has_substr(#[trigger] args.deep_view()[k], "StarRail.exe"@),
        decreases n - i,
    {
        if contains_sub(args[i].as_str(), "StarRail.exe") {
            proof {
                lemma_find_sr_hit(args.deep_view(), i as int);
            }
            let original = args[i].clone();
            modified.set(i, injector_path.to_owned());
            modified.insert(i + 1, original);
            assert(modified.deep_view() =~= args.deep_view().update(
                i as int,
                injector_path@,
            ).insert(i + 1, args.deep_view()[i as int]));
            return Ok(modified);
        }
        i += 1;
    }
    proof {
        lemma_find_sr_miss(args.deep_view());
    }
    Ok(modified)
}

/// The directory patches are kept under: the caller's home — `/tmp` where
/// none is known — extended by the launcher's patch path.
pub fn get_patch_dir(home: Option<&str>) -> (r: String)
    ensures
        r@ == (match home {
            Some(h) => h@,
            None => "/tmp"@,
        }) + "/.local/share/anime-games-proxy/patch"@,
{
    let mut r = match home {
        Some(h) => h.to_owned(),
        None => String::from_str("/tmp"),
    };
    r.append("/.local/share/anime-games-proxy/patch");
    r
}

} // verus!
