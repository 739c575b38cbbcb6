//! Choosing what to download for the game that runs through an injector:
//! which release counts, which of its assets to take, what to call the file,
//! and whether it needs unpacking. The network and archive work is the
//! caller's business.

use vstd::prelude::*;
use crate::strutil::{spec_base_name, base_name, spec_ascii_lower, ascii_lower, has_suffix,
    ends_with_str};
use crate::game::get_patch_dir;

verus! {

/// Where the injector executable is kept.
pub fn get_patch_file_path(home: Option<&str>) -> (r: String)
    ensures
        r@ == (match home {
            Some(h) => h@,
            None => "/tmp"@,
        }) + "/.local/share/anime-games-proxy/patch"@ + "/star-rail/jadeite.exe"@,
{
    let mut r = get_patch_dir(home);
    r.append("/star-rail/jadeite.exe");
    r
}

/// One release, as the caller read it from the release listing.
pub struct ReleaseInfo {
    /// Marked as a draft.
    pub draft: bool,
    /// Marked as a prerelease.
    pub prerelease: bool,
}

/// One asset of a release: its name and its download address, where the
/// listing gave them.
pub struct ReleaseAsset {
    /// The asset's name, where the listing named it.
    pub name: Option<String>,
    /// The asset's download address, where the listing gave one.
    pub url: Option<String>,
}

/// The first release that is neither a draft nor a prerelease.
pub open spec fn spec_select_release(rs: Seq<ReleaseInfo>) -> Option<int>
    decreases rs.len(),
{
    if rs.len() == 0 {
        None
    } else if !rs.first().draft && !rs.first().prerelease {
        Some(0int)
    } else {
        match spec_select_release(rs.drop_first()) {
            Some(j) => Some(j + 1),
            None => None,
        }
    }
}

/// Where the first `i` releases miss and release `i` hits, selection lands
/// on `i`.
proof fn lemma_select_release_hit(rs: Seq<ReleaseInfo>, i: int)
    requires
        0 <= i < rs.len(),
        forall|k: int| 0 <= k < i ==> (#[trigger] rs[k]).draft || rs[k].prerelease,
        !rs[i].draft && !rs[i].prerelease,
    ensures
        spec_select_release(rs) == Some(i),
    decreases i,
{
    if i > 0 {
        lemma_select_release_hit(rs.drop_first(), i - 1);
    }
}

/// Where every release misses, selection comes up empty.
proof fn lemma_select_release_miss(rs: Seq<ReleaseInfo>)
    requires
        forall|k: int| 0 <= k < rs.len() ==> (#[trigger] rs[k]).draft || rs[k].prerelease,
    ensures
        spec_select_release(rs) is None,
    decreases rs.len(),
{
    if rs.len() > 0 {
        lemma_select_release_miss(rs.drop_first());
    }
}

/// Pick the release to install from: the first that is neither a draft nor a
/// prerelease.
pub fn select_release(releases: &Vec<ReleaseInfo>) -> (r: Option<usize>)
    ensures
        r is Some <==> spec_select_release(releases@) is Some,
        r matches Some(i) ==> spec_select_release(releases@) == Some(i as int) && i
            < releases@.len(),
{
    let n = releases.len();
    let mut i: usize = 0;
    while i < n
        invariant
            n == releases@.len(),
            i <= n,
            forall|k: int| 0 <= k < i ==> (#[trigger] releases@[k]).draft || releases@[k].prerelease,
        decreases n - i,
    {
        if !releases[i].draft && !releases[i].prerelease {
            proof {
                lemma_select_release_hit(releases@, i as int);
            }
            return Some(i);
        }
        i += 1;
    }
    proof {
        lemma_select_release_miss(releases@);
    }
    None
}

/// The first asset with a download address.
pub open spec fn spec_pick_asset(assets: Seq<ReleaseAsset>) -> Option<int>
    decreases assets.len(),
{
    if assets.len() == 0 {
        None
    } else if assets.first().url is Some {
        Some(0int)
    } else {
        match spec_pick_asset(assets.drop_first()) {
            Some(j) => Some(j + 1),
            None => None,
        }
    }
}

/// Where the first `i` assets miss and asset `i` hits, picking lands on `i`.
proof fn lemma_pick_asset_hit(assets: Seq<ReleaseAsset>, i: int)
    requires
        0 <= i < assets.len(),
        forall|k: int| 0 <= k < i ==> (#[trigger] assets[k]).url is None,
        assets[i].url is Some,
    ensures
        spec_pick_asset(assets) == Some(i),
    decreases i,
{
    if i > 0 {
        lemma_pick_asset_hit(assets.drop_first(), i - 1);
    }
}

/// Where no asset has an address, picking comes up empty.
proof fn lemma_pick_asset_miss(assets: Seq<ReleaseAsset>)
    requires
        forall|k: int| 0 <= k < assets.len() ==> (#[trigger] assets[k]).url is None,
    ensures
        spec_pick_asset(assets) is None,
    decreases assets.len(),
{
    if assets.len() > 0 {
        lemma_pick_asset_miss(assets.drop_first());
    }
}

/// Pick the asset to download: the first with a download address.
pub fn pick_asset(assets: &Vec<ReleaseAsset>) -> (r: Option<usize>)
    ensures
        r is Some <==> spec_pick_asset(assets@) is Some,
        r matches Some(i) ==> spec_pick_asset(assets@) == Some(i as int) && i < assets@.len(),
{
    let n = assets.len();
    let mut i: usize = 0;
    while i < n
        invariant
            n == assets@.len(),
            i <= n,
            forall|k: int| 0 <= k < i ==> (#[trigger] assets@[k]).url is None,
        decreases n - i,
    {
        let has_url = match &assets[i].url {
            Some(_) => true,
            None => false,
        };
        if has_url {
            proof {
                lemma_pick_asset_hit(assets@, i as int);
            }
            return Some(i);
        }
        i += 1;
    }
    proof {
        lemma_pick_asset_miss(assets@);
    }
    None
}

/// What the downloaded file is called: the asset's own name, or the last
/// segment of its address where it has none.
pub fn asset_file_name(name: Option<&str>, url: &str) -> (r: String)
    ensures
        match name {
            Some(n) => r@ == n@,
            None => r@ == spec_base_name(url@),
        },
{
    match name {
        Some(n) => n.to_owned(),
        None => base_name(url),
    }
}

/// Whether a downloaded file is an archive to unpack: its name, lowered,
/// ends in the archive suffix.
pub fn is_zip_name(name: &str) -> (r: bool)
    ensures
        r == has_suffix(spec_ascii_lower(name@), ".zip"@),
{
    let lower = ascii_lower(name);
    ends_with_str(lower.as_str(), ".zip")
}

} // verus!
