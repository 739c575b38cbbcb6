//! Per-game configuration and the lookups the launcher makes against it:
//! which runner was saved for an executable, which private server it should
//! talk to, and which wine prefix to use. Reading and writing the
//! configuration file is the caller's business; everything decided over the
//! loaded values is verified here.

use vstd::prelude::*;
use crate::strutil::{spec_base_name, base_name, spec_blank, is_blank, spec_ascii_lower,
    ascii_lower, has_suffix, ends_with_str, str_eq, spec_join, path_join};

verus! {

/// Settings for one game executable.
pub struct ConfigGame {
    /// The executable's file name this entry is for.
    pub name: String,
    /// A wine prefix chosen for this game, or blank.
    pub wineprefix: String,
    /// A proton or wine runner path chosen for this game, or blank.
    pub proton_wine_path: String,
    /// The private server host.
    pub server: String,
    /// The private server port.
    pub server_port: i32,
    /// Whether the server connection uses SSL.
    pub use_ssl: bool,
}

impl Default for ConfigGame {
    /// An empty entry pointing at the local default server.
    fn default() -> (r: Self)
        ensures
            r.name@ == Seq::<char>::empty(),
            r.wineprefix@ == Seq::<char>::empty(),
            r.proton_wine_path@ == Seq::<char>::empty(),
            r.server@ == "127.0.0.1"@,
            r.server_port == 80,
            r.use_ssl == false,
    {
        ConfigGame {
            name: String::new(),
            wineprefix: String::new(),
            proton_wine_path: String::new(),
            server: String::from_str("127.0.0.1"),
            server_port: 80,
            use_ssl: false,
        }
    }
}

/// The launcher's configuration: one entry per game, plus the proxy port.
pub struct Config {
    /// The per-game entries, in file order.
    pub games: Vec<ConfigGame>,
    /// The port the proxy listens on, as text.
    pub proxy_port: String,
}

impl Default for Config {
    /// No games and the default proxy port.
    fn default() -> (r: Self)
        ensures
            r.games@.len() == 0,
            r.proxy_port@ == "8080"@,
    {
        Config { games: Vec::new(), proxy_port: String::from_str("8080") }
    }
}

/// The name an executable path is looked up under: the file-name portion of
/// the path, or the path itself where that portion is empty.
pub open spec fn spec_exe_name(path: Seq<char>) -> Seq<char> {
    if spec_base_name(path).len() == 0 {
        path
    } else {
        spec_base_name(path)
    }
}

/// Compute the lookup name of an executable path.
pub fn exe_name(path: &str) -> (r: String)
    ensures
        r@ == spec_exe_name(path@),
{
    let base = base_name(path);
    if base.as_str().unicode_len() == 0 {
        path.to_owned()
    } else {
        base
    }
}

/// The index of the first entry whose name is `name`.
pub open spec fn spec_find_idx(games: Seq<ConfigGame>, name: Seq<char>) -> Option<int>
    decreases games.len(),
{
    if games.len() == 0 {
        None
    } else if games.first().name@ == name {
        Some(0int)
    } else {
        match spec_find_idx(games.drop_first(), name) {
            Some(j) => Some(j + 1),
            None => None,
        }
    }
}

/// Where the first `i` entries miss and entry `i` hits, the find lands on `i`.
proof fn lemma_find_idx_hit(games: Seq<ConfigGame>, name: Seq<char>, i: int)
    requires
        0 <= i < games.len(),
        forall|k: int| 0 <= k < i ==> (#[trigger] games[k]).name@ != name,
        games[i].name@ == name,
    ensures
        spec_find_idx(games, name) == Some(i),
    decreases i,
{
    if i == 0 {
    } else {
        assert(games.first().name@ != name);
        lemma_find_idx_hit(games.drop_first(), name, i - 1);
    }
}

/// Where no entry hits, the find comes up empty.
proof fn lemma_find_idx_miss(games: Seq<ConfigGame>, name: Seq<char>)
    requires
        forall|k: int| 0 <= k < games.len() ==> (#[trigger] games[k]).name@ != name,
    ensures
        spec_find_idx(games, name) is None,
    decreases games.len(),
{
    if games.len() > 0 {
        lemma_find_idx_miss(games.drop_first(), name);
    }
}

/// The find always lands inside the sequence, on a hit.
proof fn lemma_find_idx_in_range(games: Seq<ConfigGame>, name: Seq<char>)
    ensures
        spec_find_idx(games, name) matches Some(i) ==> 0 <= i < games.len() && games[i].name@
            == name,
    decreases games.len(),
{
    if games.len() > 0 {
        lemma_find_idx_in_range(games.drop_first(), name);
    }
}

impl Config {
    /// Find the first entry for the given executable name. Returns its index.
    fn find_game(&self, name: &str) -> (r: Option<usize>)
        ensures
            r is Some <==> spec_find_idx(self.games@, name@) is Some,
            r matches Some(i) ==> spec_find_idx(self.games@, name@) == Some(i as int) && i
                < self.games@.len(),
    {
        let n = self.games.len();
        let mut i: usize = 0;
        while i < n
            invariant
                n == self.games@.len(),
                i <= n,
                forall|k: int| 0 <= k < i ==> (#[trigger] self.games@[k]).name@ != name@,
            decreases n - i,
        {
            if str_eq(self.games[i].name.as_str(), name) {
                proof {
                    lemma_find_idx_hit(self.games@, name@, i as int);
                }
                return Some(i);
            }
            i += 1;
        }
        proof {
            lemma_find_idx_miss(self.games@, name@);
        }
        None
    }

    /// The runner saved for the given executable: the entry's runner path if
    /// it has one, else its wine prefix, else nothing. Only the first entry
    /// for the executable's name is consulted.
    pub fn saved_runner_for_exe(&self, game_exe: &str) -> (r: Option<String>)
        ensures
            spec_find_idx(self.games@, spec_exe_name(game_exe@)) is None ==> r is None,
            spec_find_idx(self.games@, spec_exe_name(game_exe@)) matches Some(i)
                ==> if !spec_blank(self.games@[i].proton_wine_path@) {
                    r matches Some(v) && v@ == self.games@[i].proton_wine_path@
                } else if !spec_blank(self.games@[i].wineprefix@) {
                    r matches Some(v) && v@ == self.games@[i].wineprefix@
                } else {
                    r is None
                },
    {
        let name = exe_name(game_exe);
        proof {
            lemma_find_idx_in_range(self.games@, name@);
        }
        match self.find_game(name.as_str()) {
            Some(i) => {
                let g = &self.games[i];
                if !is_blank(g.proton_wine_path.as_str()) {
                    Some(g.proton_wine_path.clone())
                } else if !is_blank(g.wineprefix.as_str()) {
                    Some(g.wineprefix.clone())
                } else {
                    None
                }
            },
            None => None,
        }
    }

    /// Record the runner chosen for the given executable: the first entry for
    /// its name gets the runner path; where there is none, a fresh entry is
    /// appended.
    pub fn set_runner_for_exe(&mut self, game_exe: &str, runner_path: String)
        ensures
            final(self).proxy_port@ == old(self).proxy_port@,
            match spec_find_idx(old(self).games@, spec_exe_name(game_exe@)) {
                Some(i) => {
                    &&& final(self).games@.len() == old(self).games@.len()
                    &&& (forall|k: int|
                        0 <= k < old(self).games@.len() && k != i ==> final(self).games@[k] == old(
                            self,
                        ).games@[k])
                    &&& final(self).games@[i].name@ == old(self).games@[i].name@
                    &&& final(self).games@[i].wineprefix@ == old(self).games@[i].wineprefix@
                    &&& final(self).games@[i].proton_wine_path@ == runner_path@
                    &&& final(self).games@[i].server@ == old(self).games@[i].server@
                    &&& final(self).games@[i].server_port == old(self).games@[i].server_port
                    &&& final(self).games@[i].use_ssl == old(self).games@[i].use_ssl
                },
                None => {
                    &&& final(self).games@.len() == old(self).games@.len() + 1
                    &&& (forall|k: int|
                        0 <= k < old(self).games@.len() ==> final(self).games@[k] == old(
                            self,
                        ).games@[k])
                    &&& final(self).games@.last().name@ == spec_exe_name(game_exe@)
                    &&& final(self).games@.last().proton_wine_path@ == runner_path@
                    &&& final(self).games@.last().wineprefix@ == Seq::<char>::empty()
                    &&& final(self).games@.last().server@ == "127.0.0.1"@
                    &&& final(self).games@.last().server_port == 80
                    &&& final(self).games@.last().use_ssl == false
                },
            },
    {
        let name = exe_name(game_exe);
        proof {
            lemma_find_idx_in_range(self.games@, name@);
        }
        match self.find_game(name.as_str()) {
            Some(i) => {
                let g = &self.games[i];
                let updated = ConfigGame {
                    name: g.name.clone(),
                    wineprefix: g.wineprefix.clone(),
                    proton_wine_path: runner_path,
                    server: g.server.clone(),
                    server_port: g.server_port,
                    use_ssl: g.use_ssl,
                };
                self.games.set(i, updated);
            },
            None => {
                let fresh = ConfigGame {
                    name,
                    wineprefix: String::new(),
                    proton_wine_path: runner_path,
                    server: String::from_str("127.0.0.1"),
                    server_port: 80,
                    use_ssl: false,
                };
                self.games.push(fresh);
            },
        }
    }

    /// The server settings saved for the given executable — host, port and
    /// whether to use SSL — or nothing where no entry matches.
    pub fn server_for_exe(&self, game_exe: &str) -> (r: Option<(String, i32, bool)>)
        ensures
            spec_find_idx(self.games@, spec_exe_name(game_exe@)) is None ==> r is None,
            spec_find_idx(self.games@, spec_exe_name(game_exe@)) matches Some(i) ==> (r matches
                Some(t) && t.0@ == self.games@[i].server@ && t.1 == self.games@[i].server_port
                && t.2 == self.games@[i].use_ssl),
    {
        let name = exe_name(game_exe);
        proof {
            lemma_find_idx_in_range(self.games@, name@);
        }
        match self.find_game(name.as_str()) {
            Some(i) => {
                let g = &self.games[i];
                Some((g.server.clone(), g.server_port, g.use_ssl))
            },
            None => None,
        }
    }
}

/// Where the configuration file lives under the given home directory.
pub fn config_file_path(home: &str) -> (r: String)
    ensures
        r@ == spec_join(spec_join(spec_join(home@, ".config"@), "anime-games-proxy"@), "config.json"@),
{
    let a = path_join(home, ".config");
    let b = path_join(a.as_str(), "anime-games-proxy");
    path_join(b.as_str(), "config.json")
}

/// An executable name without its extension: the name with a trailing
/// `.exe` — in any letter case — removed.
pub open spec fn spec_no_ext(n: Seq<char>) -> Seq<char> {
    if has_suffix(spec_ascii_lower(n), ".exe"@) {
        n.take(n.len() - 4)
    } else {
        n
    }
}

/// Strip a trailing `.exe`, in any letter case.
pub fn strip_exe_suffix(n: &str) -> (r: String)
    ensures
        r@ == spec_no_ext(n@),
{
    let len = n.unicode_len();
    let lower = ascii_lower(n);
    if ends_with_str(lower.as_str(), ".exe") {
        proof {
            reveal_strlit(".exe");
        }
        n.substring_char(0, len - 4).to_owned()
    } else {
        n.to_owned()
    }
}

/// The index of the first entry whose name, extension dropped, is `folder`.
pub open spec fn spec_find_idx_noext(games: Seq<ConfigGame>, folder: Seq<char>) -> Option<int>
    decreases games.len(),
{
    if games.len() == 0 {
        None
    } else if spec_no_ext(games.first().name@) == folder {
        Some(0int)
    } else {
        match spec_find_idx_noext(games.drop_first(), folder) {
            Some(j) => Some(j + 1),
            None => None,
        }
    }
}

/// Where the first `i` entries miss and entry `i` hits, the extensionless
/// find lands on `i`.
proof fn lemma_find_noext_hit(games: Seq<ConfigGame>, folder: Seq<char>, i: int)
    requires
        0 <= i < games.len(),
        forall|k: int| 0 <= k < i ==> spec_no_ext((#[trigger] games[k]).name@) != folder,
        spec_no_ext(games[i].name@) == folder,
    ensures
        spec_find_idx_noext(games, folder) == Some(i),
    decreases i,
{
    if i > 0 {
        lemma_find_noext_hit(games.drop_first(), folder, i - 1);
    }
}

/// Where no entry hits, the extensionless find comes up empty.
proof fn lemma_find_noext_miss(games: Seq<ConfigGame>, folder: Seq<char>)
    requires
        forall|k: int| 0 <= k < games.len() ==> spec_no_ext((#[trigger] games[k]).name@) != folder,
    ensures
        spec_find_idx_noext(games, folder) is None,
    decreases games.len(),
{
    if games.len() > 0 {
        lemma_find_noext_miss(games.drop_first(), folder);
    }
}

/// The wine prefix a game runs under: the prefix of the first entry for the
/// exact executable name, where it has one; else the prefix of the first
/// entry whose name matches with extensions dropped, where it has one; else
/// a prefix named after the executable under the caller's home — or nothing
/// where no home is known.
pub open spec fn spec_choose_prefix(
    games: Seq<ConfigGame>,
    exe: Seq<char>,
    home: Option<Seq<char>>,
) -> Option<Seq<char>> {
    if spec_find_idx(games, exe) matches Some(i) && !spec_blank(games[i].wineprefix@) {
        Some(games[spec_find_idx(games, exe).unwrap()].wineprefix@)
    } else if spec_find_idx_noext(games, spec_no_ext(exe)) matches Some(j) && !spec_blank(
        games[j].wineprefix@,
    ) {
        Some(games[spec_find_idx_noext(games, spec_no_ext(exe)).unwrap()].wineprefix@)
    } else {
        match home {
            Some(h) => Some(
                spec_join(spec_join(h, ".local/share/anime-games-proxy/prefix"@), spec_no_ext(exe)),
            ),
            None => None,
        }
    }
}

impl Config {
    /// Find the first entry matching `folder` with extensions dropped.
    fn find_game_noext(&self, folder: &str) -> (r: Option<usize>)
        ensures
            r is Some <==> spec_find_idx_noext(self.games@, folder@) is Some,
            r matches Some(i) ==> spec_find_idx_noext(self.games@, folder@) == Some(i as int) && i
                < self.games@.len(),
    {
        let n = self.games.len();
        let mut i: usize = 0;
        while i < n
            invariant
                n == self.games@.len(),
                i <= n,
                forall|k: int|
                    0 <= k < i ==> spec_no_ext((#[trigger] self.games@[k]).name@) != folder@,
            decreases n - i,
        {
            let noext = strip_exe_suffix(self.games[i].name.as_str());
            if str_eq(noext.as_str(), folder) {
                proof {
                    lemma_find_noext_hit(self.games@, folder@, i as int);
                }
                return Some(i);
            }
            i += 1;
        }
        proof {
            lemma_find_noext_miss(self.games@, folder@);
        }
        None
    }

    /// Choose the wine prefix for the given executable name: a prefix saved
    /// under the exact name wins, then one saved under the name without its
    /// extension, then the default prefix under the caller's home.
    pub fn choose_wineprefix(&self, exe_name: &str, home: Option<&str>) -> (r: Option<String>)
        ensures
            r is Some <==> spec_choose_prefix(
                self.games@,
                exe_name@,
                match home {
                    Some(h) => Some(h@),
                    None => None,
                },
            ) is Some,
            r matches Some(v) ==> Some(v@) == spec_choose_prefix(
                self.games@,
                exe_name@,
                match home {
                    Some(h) => Some(h@),
                    None => None,
                },
            ),
    {
        if let Some(i) = self.find_game(exe_name) {
            if !is_blank(self.games[i].wineprefix.as_str()) {
                return Some(self.games[i].wineprefix.clone());
            }
        }
        let folder = strip_exe_suffix(exe_name);
        if let Some(j) = self.find_game_noext(folder.as_str()) {
            if !is_blank(self.games[j].wineprefix.as_str()) {
                return Some(self.games[j].wineprefix.clone());
            }
        }
        match home {
            Some(h) => {
                let base = path_join(h, ".local/share/anime-games-proxy/prefix");
                Some(path_join(base.as_str(), folder.as_str()))
            },
            None => None,
        }
    }
}

} // verus!
