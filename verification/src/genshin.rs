//! Patching decisions for the game that is patched in place: reading the
//! game version out of its configuration text, comparing it against the
//! version the patch needs, and planning the copy, backup and restore steps.
//! The caller performs the file reads, copies and downloads; every decision
//! over what it read is verified here.

use vstd::prelude::*;
use crate::strutil::{spec_base_name, base_name, spec_join, path_join, has_prefix,
    starts_with_str, spec_find_char, find_char_from, lemma_find_char_range, spec_find_ws,
    find_ws_from, spec_find_non_ws, find_non_ws_from, lemma_find_ws_range, spec_parse_u32,
    parse_u32};

verus! {

/// Why preparing or patching the game failed.
#[derive(Debug)]
pub enum GenshinError {
    /// A file operation failed; the payload describes it.
    IoError(String),
    /// A download failed; the payload describes it.
    DownloadError(String),
    /// A version string could not be used; the payload describes it.
    InvalidVersion(String),
    /// A needed path was not found; the payload names it.
    PathNotFound(String),
}

impl GenshinError {
    /// The error as readable text.
    pub fn message(&self) -> (r: String)
        ensures
            match self {
                GenshinError::IoError(m) => r@ == "IO error: "@ + m@,
                GenshinError::DownloadError(m) => r@ == "Download error: "@ + m@,
                GenshinError::InvalidVersion(m) => r@ == "Invalid version: "@ + m@,
                GenshinError::PathNotFound(m) => r@ == "Path not found: "@ + m@,
            },
    {
        match self {
            GenshinError::IoError(m) => {
                let mut r = String::from_str("IO error: ");
                r.append(m.as_str());
                r
            },
            GenshinError::DownloadError(m) => {
                let mut r = String::from_str("Download error: ");
                r.append(m.as_str());
                r
            },
            GenshinError::InvalidVersion(m) => {
                let mut r = String::from_str("Invalid version: ");
                r.append(m.as_str());
                r
            },
            GenshinError::PathNotFound(m) => {
                let mut r = String::from_str("Path not found: ");
                r.append(m.as_str());
                r
            },
        }
    }
}

/// A game version: major, minor and patch numbers.
#[derive(PartialEq, Eq, Structural, Clone, Copy, Debug)]
pub struct Version {
    pub major: u32,
    pub minor: u32,
    pub patch: u32,
}

/// A dotted component parsed as a number — zero where it is missing, not
/// numeric, or too large.
pub open spec fn spec_part_val(s: Seq<char>) -> u32 {
    match spec_parse_u32(s) {
        Some(v) => v,
        None => 0,
    }
}

/// The version a dotted string denotes: the first three dot-separated
/// components as numbers, missing ones read as zero.
pub open spec fn spec_version_of(s: Seq<char>) -> (u32, u32, u32) {
    let d1 = spec_find_char(s, 0, '.');
    if d1 >= s.len() {
        (spec_part_val(s.subrange(0, d1)), 0u32, 0u32)
    } else {
        let d2 = spec_find_char(s, d1 + 1, '.');
        if d2 >= s.len() {
            (spec_part_val(s.subrange(0, d1)), spec_part_val(s.subrange(d1 + 1, d2)), 0u32)
        } else {
            let d3 = spec_find_char(s, d2 + 1, '.');
            (
                spec_part_val(s.subrange(0, d1)),
                spec_part_val(s.subrange(d1 + 1, d2)),
                spec_part_val(s.subrange(d2 + 1, d3)),
            )
        }
    }
}

/// Parse a dotted component, reading anything unusable as zero.
fn part_val(s: &str) -> (r: u32)
    ensures
        r == spec_part_val(s@),
{
    match parse_u32(s) {
        Some(v) => v,
        None => 0,
    }
}

impl Version {
    /// Read a version string: up to three dot-separated numeric components;
    /// a missing or unreadable component counts as zero. Never fails.
    pub fn parse(version_str: &str) -> (r: Result<Version, GenshinError>)
        ensures
            r matches Ok(v) && (v.major, v.minor, v.patch) == spec_version_of(version_str@),
    {
        let len = version_str.unicode_len();
        let d1 = find_char_from(version_str, 0, '.');
        proof {
            lemma_find_char_range(version_str@, 0, '.');
        }
        let major = part_val(version_str.substring_char(0, d1));
        if d1 >= len {
            return Ok(Version { major, minor: 0, patch: 0 });
        }
        let d2 = find_char_from(version_str, d1 + 1, '.');
        proof {
            lemma_find_char_range(version_str@, d1 + 1, '.');
        }
        let minor = part_val(version_str.substring_char(d1 + 1, d2));
        if d2 >= len {
            return Ok(Version { major, minor, patch: 0 });
        }
        let d3 = find_char_from(version_str, d2 + 1, '.');
        proof {
            lemma_find_char_range(version_str@, d2 + 1, '.');
        }
        let patch = part_val(version_str.substring_char(d2 + 1, d3));
        Ok(Version { major, minor, patch })
    }

    /// Lexicographic order on (major, minor, patch): this version is at
    /// least the other.
    pub fn at_least(&self, other: &Version) -> (r: bool)
        ensures
            r == spec_version_ge(*self, *other),
    {
        if self.major != other.major {
            self.major > other.major
        } else if self.minor != other.minor {
            self.minor > other.minor
        } else {
            self.patch >= other.patch
        }
    }
}

/// Lexicographic comparison of versions: `a` is at least `b`.
pub open spec fn spec_version_ge(a: Version, b: Version) -> bool {
    ||| a.major > b.major
    ||| (a.major == b.major && a.minor > b.minor)
    ||| (a.major == b.major && a.minor == b.minor && a.patch >= b.patch)
}

/// The directory portion of a path: everything before the last slash — the
/// root where the slash leads, an empty directory where the path has no
/// slash, nothing where the path is empty.
pub open spec fn spec_parent_dir(s: Seq<char>) -> Option<Seq<char>> {
    if s.len() == 0 {
        None
    } else if spec_base_name(s).len() == s.len() {
        Some(Seq::empty())
    } else if s.len() - spec_base_name(s).len() - 1 == 0 {
        Some(s.take(1))
    } else {
        Some(s.take(s.len() - spec_base_name(s).len() - 1))
    }
}

/// Compute a path's directory portion.
pub fn parent_dir(s: &str) -> (r: Option<String>)
    ensures
        r is Some <==> spec_parent_dir(s@) is Some,
        r matches Some(p) ==> Some(p@) == spec_parent_dir(s@),
{
    let len = s.unicode_len();
    if len == 0 {
        return None;
    }
    let base = base_name(s);
    let blen = base.as_str().unicode_len();
    assert(spec_base_name(s@).len() == blen);
    if blen == len {
        return Some(String::new());
    }
    proof {
        assert(blen < len) by {
            lemma_base_name_len(s@);
        }
    }
    let cut = len - blen - 1;
    if cut == 0 {
        Some(s.substring_char(0, 1).to_owned())
    } else {
        Some(s.substring_char(0, cut).to_owned())
    }
}

/// A path's base name is never longer than the path.
proof fn lemma_base_name_len(s: Seq<char>)
    ensures
        spec_base_name(s).len() <= s.len(),
    decreases s.len(),
{
    if s.len() > 0 && s.last() != '/' {
        lemma_base_name_len(s.drop_last());
    }
}

/// The version the in-place patch needs.
pub open spec fn spec_required_version() -> (u32, u32, u32) {
    (5u32, 0u32, 0u32)
}

/// The version the in-place patch needs, as a value.
pub fn required_version() -> (r: Version)
    ensures
        (r.major, r.minor, r.patch) == spec_required_version(),
{
    Version { major: 5, minor: 0, patch: 0 }
}

/// What one line of the game's configuration text yields: where the line —
/// its trailing carriage return dropped — starts with the version key, the
/// first whitespace-separated token after every leading repetition of the
/// key, if that token is nonempty.
pub open spec fn spec_line_version(line: Seq<char>) -> Option<Seq<char>> {
    let l = if line.len() > 0 && line.last() == '\r' {
        line.drop_last()
    } else {
        line
    };
    if has_prefix(l, "game_version="@) {
        let v = spec_strip_key(l);
        let st = spec_find_non_ws(v, 0);
        let en = spec_find_ws(v, st);
        if st < v.len() {
            Some(v.subrange(st, en))
        } else {
            None
        }
    } else {
        None
    }
}

/// The line with every leading repetition of the version key removed.
pub open spec fn spec_strip_key(l: Seq<char>) -> Seq<char>
    decreases l.len(),
{
    if has_prefix(l, "game_version="@) && "game_version="@.len() > 0 {
        spec_strip_key(l.skip("game_version="@.len() as int))
    } else {
        l
    }
}

/// The version the configuration text names: what the first line with a
/// version yields.
pub open spec fn spec_config_version(s: Seq<char>, from: int) -> Option<Seq<char>>
    decreases s.len() - from,
    via spec_config_version_dec
{
    if from < 0 || from > s.len() {
        None
    } else {
        let nl = spec_find_char(s, from, '\n');
        let here = spec_line_version(s.subrange(from, nl));
        if here is Some {
            here
        } else if nl >= s.len() {
            None
        } else {
            spec_config_version(s, nl + 1)
        }
    }
}

#[via_fn]
proof fn spec_config_version_dec(s: Seq<char>, from: int) {
    if 0 <= from <= s.len() {
        lemma_find_char_range(s, from, '\n');
    }
}

/// What one line yields, executably.
fn line_version(line: &str) -> (r: Option<String>)
    ensures
        r is Some <==> spec_line_version(line@) is Some,
        r matches Some(v) ==> Some(v@) == spec_line_version(line@),
{
    let len = line.unicode_len();
    let stripped: &str = if len > 0 && line.get_char(len - 1) == '\r' {
        let t = line.substring_char(0, len - 1);
        assert(t@ =~= line@.drop_last());
        t
    } else {
        line
    };
    if !starts_with_str(stripped, "game_version=") {
        return None;
    }
    let key_len = "game_version=".unicode_len();
    proof {
        reveal_strlit("game_version=");
    }
    let mut v: String = stripped.to_owned();
    let ghost l0 = stripped@;
    let mut cur_len = stripped.unicode_len();
    while starts_with_str(v.as_str(), "game_version=")
        invariant
            key_len == "game_version="@.len(),
            key_len > 0,
            cur_len == v@.len(),
            spec_strip_key(l0) == spec_strip_key(v@),
        decreases v@.len(),
    {
        let next = v.as_str().substring_char(key_len, cur_len);
        assert(next@ =~= v@.skip(key_len as int));
        let n = next.to_owned();
        cur_len = cur_len - key_len;
        v = n;
    }
    let vs = v.as_str();
    assert(vs@ == spec_strip_key(l0));
    let st = find_non_ws_from(vs, 0);
    proof {
        lemma_find_ws_range(vs@, 0);
    }
    if st >= cur_len {
        return None;
    }
    let en = find_ws_from(vs, st);
    proof {
        lemma_find_ws_range(vs@, st as int);
    }
    Some(vs.substring_char(st, en).to_owned())
}

/// Find the version named in the configuration text, scanning line by line
/// from `pos`.
fn scan_config_version(s: &str, pos: usize) -> (r: Option<String>)
    requires
        pos <= s@.len(),
    ensures
        r is Some <==> spec_config_version(s@, pos as int) is Some,
        r matches Some(v) ==> Some(v@) == spec_config_version(s@, pos as int),
    decreases s@.len() - pos,
{
    let len = s.unicode_len();
    let nl = find_char_from(s, pos, '\n');
    proof {
        lemma_find_char_range(s@, pos as int, '\n');
    }
    let line = s.substring_char(pos, nl);
    match line_version(line) {
        Some(v) => Some(v),
        None => {
            if nl >= len {
                None
            } else {
                scan_config_version(s, nl + 1)
            }
        },
    }
}

/// The plan for bringing the patch into the game directory.
pub enum ApplyPlan {
    /// The game already carries a patch at least as large: nothing to copy,
    /// the game counts as patched.
    AlreadyPatched,
    /// Back the original file up, then copy the patch over it.
    CopyWithBackup,
    /// The backup already exists: copy the patch over the original.
    CopyOnly,
}

/// The plan after checking whether patching is wanted at all.
pub enum CheckPlan {
    /// Leave the game untouched.
    Skip,
    /// Download the patch if missing, then apply it.
    Patch,
}

/// What to do when undoing the patch.
pub enum UnpatchPlan {
    /// The game was never patched in this run: nothing to do.
    NotPatched,
    /// Copy the backup back over the patched file, then forget the patch.
    RestoreBackup,
    /// No backup exists: just forget the patch.
    ForgetOnly,
}

/// The in-place patcher for one game installation: where the game lives,
/// where its plugins live, and whether this run has patched it.
pub struct GenshinPatcher {
    game_dir: String,
    plugins_dir: String,
    patched: bool,
}

impl GenshinPatcher {
    /// The game directory.
    pub closed spec fn game_dir_spec(&self) -> Seq<char> {
        self.game_dir@
    }

    /// The plugins directory.
    pub closed spec fn plugins_dir_spec(&self) -> Seq<char> {
        self.plugins_dir@
    }

    /// Whether this run has patched the game.
    pub closed spec fn patched_spec(&self) -> bool {
        self.patched
    }

    /// Set up a patcher for the given game executable. The caller says
    /// whether the executable exists; the game directory is the executable's
    /// directory, the plugins directory sits at its fixed place below it.
    pub fn new(game_exe: &str, exe_exists: bool) -> (r: Result<GenshinPatcher, GenshinError>)
        ensures
            r is Ok <==> exe_exists && spec_parent_dir(game_exe@) is Some,
            r matches Ok(p) ==> {
                &&& Some(p.game_dir_spec()) == spec_parent_dir(game_exe@)
                &&& p.plugins_dir_spec() == spec_join(
                    spec_join(spec_parent_dir(game_exe@).unwrap(), "GenshinImpact_Data"@),
                    "Plugins"@,
                )
                &&& p.patched_spec() == false
            },
            !exe_exists ==> (r matches Err(GenshinError::PathNotFound(m)) && m@
                == "Game executable not found: "@ + game_exe@),
            exe_exists && spec_parent_dir(game_exe@) is None ==> (r matches Err(
                GenshinError::PathNotFound(m),
            ) && m@ == "Could not determine game directory"@),
    {
        if !exe_exists {
            let mut m = String::from_str("Game executable not found: ");
            m.append(game_exe);
            return Err(GenshinError::PathNotFound(m));
        }
        match parent_dir(game_exe) {
            Some(game_dir) => {
                let data = path_join(game_dir.as_str(), "GenshinImpact_Data");
                let plugins_dir = path_join(data.as_str(), "Plugins");
                Ok(GenshinPatcher { game_dir, plugins_dir, patched: false })
            },
            None => Err(
                GenshinError::PathNotFound(String::from_str("Could not determine game directory")),
            ),
        }
    }

    /// The game directory.
    pub fn game_dir(&self) -> (r: &String)
        ensures
            r@ == self.game_dir_spec(),
    {
        &self.game_dir
    }

    /// The plugins directory.
    pub fn plugins_dir(&self) -> (r: &String)
        ensures
            r@ == self.plugins_dir_spec(),
    {
        &self.plugins_dir
    }

    /// Whether this run has patched the game.
    pub fn is_patched(&self) -> (r: bool)
        ensures
            r == self.patched_spec(),
    {
        self.patched
    }

    /// Record that the game now carries the patch — or no longer does.
    pub fn set_patched(&mut self, patched: bool)
        ensures
            final(self).patched_spec() == patched,
            final(self).game_dir_spec() == old(self).game_dir_spec(),
            final(self).plugins_dir_spec() == old(self).plugins_dir_spec(),
    {
        self.patched = patched;
    }

    /// Read the game version out of the configuration text the caller read
    /// from the game's `config.ini`: the first line naming a nonempty
    /// version decides; without one the text is unusable.
    pub fn parse_game_version(content: &str) -> (r: Result<String, GenshinError>)
        ensures
            r is Ok <==> spec_config_version(content@, 0) is Some,
            r matches Ok(v) ==> Some(v@) == spec_config_version(content@, 0),
            r matches Err(e) ==> e matches GenshinError::InvalidVersion(m) && m@
                == "Could not find game_version in config.ini"@,
    {
        match scan_config_version(content, 0) {
            Some(v) => Ok(v),
            None => Err(
                GenshinError::InvalidVersion(
                    String::from_str("Could not find game_version in config.ini"),
                ),
            ),
        }
    }

    /// Decide whether the game should be patched: only where the plugins
    /// directory exists, a version was read, and it is at least the required
    /// version.
    pub fn plan_check(plugins_exists: bool, version: Option<&str>) -> (r: CheckPlan)
        ensures
            !plugins_exists ==> r is Skip,
            plugins_exists && version is None ==> r is Skip,
            plugins_exists ==> (version matches Some(v) ==> if spec_version_ge(
                (Version {
                    major: spec_version_of(v@).0,
                    minor: spec_version_of(v@).1,
                    patch: spec_version_of(v@).2,
                }),
                (Version { major: 5, minor: 0, patch: 0 }),
            ) {
                r is Patch
            } else {
                r is Skip
            }),
    {
        if !plugins_exists {
            return CheckPlan::Skip;
        }
        match version {
            None => CheckPlan::Skip,
            Some(v) => {
                let game_version = match Version::parse(v) {
                    Ok(gv) => gv,
                    Err(_) => {
                        return CheckPlan::Skip;
                    },
                };
                let required = required_version();
                if game_version.at_least(&required) {
                    CheckPlan::Patch
                } else {
                    CheckPlan::Skip
                }
            },
        }
    }

    /// Decide how to bring the patch in, from what the caller found on disk:
    /// the plugins directory, the downloaded patch, and the game's own file
    /// must all exist; a patch no smaller than the game's file means the game
    /// is already patched; otherwise the original is backed up first, unless
    /// a backup is already there.
    pub fn plan_apply(
        plugins_exists: bool,
        source_exists: bool,
        target_exists: bool,
        source_len: u64,
        target_len: u64,
        backup_exists: bool,
    ) -> (r: Result<ApplyPlan, GenshinError>)
        ensures
            !plugins_exists ==> r is Err,
            plugins_exists && !source_exists ==> r is Err,
            plugins_exists && source_exists && !target_exists ==> r is Err,
            r is Err ==> !(plugins_exists && source_exists && target_exists),
            r matches Err(e) ==> e is PathNotFound,
            plugins_exists && source_exists && target_exists ==> match r {
                Ok(p) => if source_len >= target_len {
                    p is AlreadyPatched
                } else if !backup_exists {
                    p is CopyWithBackup
                } else {
                    p is CopyOnly
                },
                Err(_) => false,
            },
    {
        if !plugins_exists {
            return Err(GenshinError::PathNotFound(String::from_str("Plugins directory not found")));
        }
        if !source_exists {
            return Err(
                GenshinError::PathNotFound(String::from_str("Source patch file not found")),
            );
        }
        if !target_exists {
            return Err(
                GenshinError::PathNotFound(
                    String::from_str("Original patch file not found in the game directory"),
                ),
            );
        }
        if source_len >= target_len {
            Ok(ApplyPlan::AlreadyPatched)
        } else if !backup_exists {
            Ok(ApplyPlan::CopyWithBackup)
        } else {
            Ok(ApplyPlan::CopyOnly)
        }
    }

    /// Decide how to undo the patch: nothing where this run never patched;
    /// restore the backup where one exists; otherwise only forget.
    pub fn plan_unpatch(&self, backup_exists: bool) -> (r: UnpatchPlan)
        ensures
            !self.patched_spec() ==> r is NotPatched,
            self.patched_spec() && backup_exists ==> r is RestoreBackup,
            self.patched_spec() && !backup_exists ==> r is ForgetOnly,
    {
        if !self.patched {
            UnpatchPlan::NotPatched
        } else if backup_exists {
            UnpatchPlan::RestoreBackup
        } else {
            UnpatchPlan::ForgetOnly
        }
    }

    /// The directory the downloaded patch is kept under.
    pub fn get_patch_dir(home: Option<&str>) -> (r: String)
        ensures
            r@ == (match home {
                Some(h) => h@,
                None => "/tmp"@,
            }) + "/.local/share/anime-games-proxy/patch"@ + "/genshin"@,
    {
        let base = crate::game::get_patch_dir(home);
        let mut r = base;
        r.append("/genshin");
        r
    }
}

} // verus!
