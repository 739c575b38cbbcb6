//! The proton launcher helper: where it is installed and which release asset
//! holds it. Downloading and unpacking are the caller's business.

use vstd::prelude::*;
use crate::strutil::{has_substr, has_suffix, contains_sub, ends_with_str, spec_join, path_join};

verus! {

/// The helper used to run games under proton.
pub struct UmuRun {
    /// The helper binary's name.
    pub binary: String,
}

impl Default for UmuRun {
    /// The helper under its usual name.
    fn default() -> (r: Self)
        ensures
            r.binary@ == "umu-run"@,
    {
        UmuRun { binary: String::from_str("umu-run") }
    }
}

impl UmuRun {
    /// The directory the helper is installed into under the given home.
    pub fn install_dir(home: &str) -> (r: String)
        ensures
            r@ == spec_join(home@, ".local/share/anime-games-proxy"@),
    {
        path_join(home, ".local/share/anime-games-proxy")
    }
}

/// A usable helper asset: a packaged build, delivered as a tar archive.
pub open spec fn spec_umu_asset(name: Seq<char>) -> bool {
    has_substr(name, "zipapp"@) && has_suffix(name, ".tar"@)
}

/// The first usable helper asset.
pub open spec fn spec_select_umu_asset(names: Seq<Seq<char>>) -> Option<int>
    decreases names.len(),
{
    if names.len() == 0 {
        None
    } else if spec_umu_asset(names.first()) {
        Some(0int)
    } else {
        match spec_select_umu_asset(names.drop_first()) {
            Some(j) => Some(j + 1),
            None => None,
        }
    }
}

/// Where the first `i` names miss and name `i` hits, selection lands on `i`.
proof fn lemma_select_umu_hit(names: Seq<Seq<char>>, i: int)
    requires
        0 <= i < names.len(),
        forall|k: int| 0 <= k < i ==> !spec_umu_asset(#[trigger] names[k]),
        spec_umu_asset(names[i]),
    ensures
        spec_select_umu_asset(names) == Some(i),
    decreases i,
{
    if i > 0 {
        lemma_select_umu_hit(names.drop_first(), i - 1);
    }
}

/// Where no name hits, selection comes up empty.
proof fn lemma_select_umu_miss(names: Seq<Seq<char>>)
    requires
        forall|k: int| 0 <= k < names.len() ==> !spec_umu_asset(#[trigger] names[k]),
    ensures
        spec_select_umu_asset(names) is None,
    decreases names.len(),
{
    if names.len() > 0 {
        lemma_select_umu_miss(names.drop_first());
    }
}

/// Pick the release asset that holds the helper: the first packaged build
/// delivered as a tar archive.
pub fn select_umu_asset(names: &Vec<String>) -> (r: Option<usize>)
    ensures
        r is Some <==> spec_select_umu_asset(names.deep_view()) is Some,
        r matches Some(i) ==> spec_select_umu_asset(names.deep_view()) == Some(i as int) && i
            < names@.len(),
{
    let n = names.len();
    let mut i: usize = 0;
    while i < n
        invariant
            n == names@.len(),
            i <= n,
            names.deep_view().len() == n,
            forall|k: int| 0 <= k < n ==> names.deep_view()[k] == #[trigger] names@[k]@,
            forall|k: int| 0 <= k < i ==> !spec_umu_asset(#[trigger] names.deep_view()[k]),
        decreases n - i,
    {
        if contains_sub(names[i].as_str(), "zipapp") && ends_with_str(names[i].as_str(), ".tar") {
            proof {
                lemma_select_umu_hit(names.deep_view(), i as int);
            }
            return Some(i);
        }
        i += 1;
    }
    proof {
        lemma_select_umu_miss(names.deep_view());
    }
    None
}

} // verus!
