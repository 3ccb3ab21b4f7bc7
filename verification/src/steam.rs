//! Finding Steam, its libraries, its Proton versions and the games installed there.

use vstd::prelude::*;

use crate::config::Game;
use crate::order;
use crate::paths;
use crate::state;
use crate::text;

verus! {

/// What was found of a Steam installation.
#[derive(Debug)]
pub struct SteamInfo {
    /// Where Steam is installed.
    pub steam_root: String,
    /// The `steamapps` folders: the primary one, then those of the extra libraries.
    pub libraries: Vec<String>,
    /// The Proton versions, GE-Proton and dwproton first.
    pub protons: Vec<String>,
}

/// The model of [`SteamInfo`].
#[verifier::ext_equal]
pub struct SteamInfoView {
    pub steam_root: Seq<char>,
    pub libraries: Seq<Seq<char>>,
    pub protons: Seq<Seq<char>>,
}

impl DeepView for SteamInfo {
    type V = SteamInfoView;

    open spec fn deep_view(&self) -> SteamInfoView {
        SteamInfoView {
            steam_root: self.steam_root@,
            libraries: self.libraries.deep_view(),
            protons: self.protons.deep_view(),
        }
    }
}

impl Clone for SteamInfo {
    fn clone(&self) -> (r: Self)
        ensures
            r.deep_view() == self.deep_view(),
            r.steam_root@ == self.steam_root@,
            r.libraries.deep_view() == self.libraries.deep_view(),
            r.protons.deep_view() == self.protons.deep_view(),
    {
        let r = SteamInfo {
            steam_root: self.steam_root.clone(),
            libraries: self.libraries.clone(),
            protons: self.protons.clone(),
        };
        assert(r.deep_view() =~= self.deep_view());
        r
    }
}

impl SteamInfo {
    /// The Proton version to use, if any.
    pub fn proton(&self) -> (r: Option<&str>)
        ensures
            match r {
                Some(p) => self.protons@.len() > 0 && p@ == self.protons@[0]@,
                None => self.protons@.len() == 0,
            },
    {
        if self.protons.len() > 0 {
            Some(self.protons[0].as_str())
        } else {
            None
        }
    }
}

/// The folder of a game under `common`.
pub open spec fn folder_name(game: Game) -> Seq<char> {
    match game {
        Game::WuWa => "Wuthering Waves"@,
        Game::Pgr => "Punishing Gray Raven"@,
    }
}

fn game_folder_name(game: Game) -> (r: &'static str)
    ensures
        r@ == folder_name(game),
{
    match game {
        Game::WuWa => "Wuthering Waves",
        Game::Pgr => "Punishing Gray Raven",
    }
}

/// The folder of a game in a library.
pub open spec fn game_dir(library: Seq<char>, game: Game) -> Seq<char> {
    paths::joined(paths::joined(library, "common"@), folder_name(game))
}

fn game_dir_in(library: &str, game: Game) -> (r: String)
    ensures
        r@ == game_dir(library@, game),
{
    let common = paths::join(library, "common");
    paths::join(common.as_str(), game_folder_name(game))
}

/// The primary library of an installation.
pub open spec fn primary_library(steam: SteamInfoView) -> Seq<char> {
    if steam.libraries.len() > 0 {
        steam.libraries[0]
    } else {
        paths::joined(steam.steam_root, "steamapps"@)
    }
}

/// Where a game is installed by default: in the primary library.
pub fn default_game_dir(steam: &SteamInfo, game: Game) -> (r: String)
    ensures
        r@ == game_dir(primary_library(steam.deep_view()), game),
{
    if steam.libraries.len() > 0 {
        assert(steam.deep_view().libraries[0] == steam.libraries@[0]@);
        game_dir_in(steam.libraries[0].as_str(), game)
    } else {
        let steamapps = paths::join(steam.steam_root.as_str(), "steamapps");
        game_dir_in(steamapps.as_str(), game)
    }
}

/// The places where Steam may be, the likelier ones first.
pub open spec fn root_candidates(home: Seq<char>, steam_root: Option<Seq<char>>) -> Seq<Seq<char>> {
    let usual = seq![
        paths::joined(home, ".local/share/Steam"@),
        paths::joined(home, ".var/app/com.valvesoftware.Steam/.local/share/Steam"@),
        paths::joined(home, ".steam/steam"@),
    ];
    match steam_root {
        Some(root) => seq![root] + usual,
        None => usual,
    }
}

/// The places where Steam may be: what the environment names, the native place, the one of the
/// flatpak, the old link.
pub fn steam_candidates(home: &str, steam_root: Option<String>) -> (r: Vec<String>)
    ensures
        r.deep_view() == root_candidates(home@, steam_root.deep_view()),
{
    let mut r: Vec<String> = Vec::new();
    if let Some(root) = &steam_root {
        r.push(root.clone());
    }
    r.push(paths::join(home, ".local/share/Steam"));
    r.push(paths::join(home, ".var/app/com.valvesoftware.Steam/.local/share/Steam"));
    r.push(paths::join(home, ".steam/steam"));
    assert(r.deep_view() =~= root_candidates(home@, steam_root.deep_view()));
    r
}

/// The library that a line of the library file names, if it names one: the line has the key
/// `path` in quotes, then the folder in quotes.
pub open spec fn library_of(line: Seq<char>) -> Option<Seq<char>> {
    let t = text::drop_both(line, text::any_space());
    let rest = t.skip(1);
    let at = text::lead(rest, text::is_other_than('"')) as int;
    if t.len() > 0 && t[0] == '"' && at < rest.len() && rest.take(at) == "path"@ {
        let value = text::drop_both(
            text::drop_both(rest.skip(at + 1), text::any_space()),
            text::is_char('"'),
        );
        Some(paths::joined(value, "steamapps"@))
    } else {
        None
    }
}

/// The libraries that some lines name, in order.
pub open spec fn libraries_of(lines: Seq<Seq<char>>) -> Seq<Seq<char>>
    decreases lines.len(),
{
    if lines.len() == 0 {
        Seq::empty()
    } else {
        let before = libraries_of(lines.drop_last());
        match library_of(lines.last()) {
            Some(dir) => before.push(dir),
            None => before,
        }
    }
}

/// The `steamapps` folders of an installation.
pub open spec fn all_libraries(root: Seq<char>, library_file: Option<Seq<char>>) -> Seq<Seq<char>> {
    let primary = seq![paths::joined(root, "steamapps"@)];
    match library_file {
        None => primary,
        Some(file) => primary + libraries_of(text::pieces(file, '\n')),
    }
}

fn parse_line(line: &str) -> (r: Option<String>)
    ensures
        r.deep_view() == library_of(line@),
{
    let t = text::trim(line);
    let v = text::to_chars(t.as_str());
    if v.len() == 0 || v[0] != '"' {
        return None;
    }
    let rest = text::spell(&v, 1, v.len());
    assert(rest@ =~= t@.skip(1));
    match text::split_once(rest.as_str(), '"') {
        None => None,
        Some((key, value)) => {
            if text::same_text(key.as_str(), "path") {
                let spaced = text::trim(value.as_str());
                let dir = text::trim_matches(spaced.as_str(), '"');
                Some(paths::join(dir.as_str(), "steamapps"))
            } else {
                None
            }
        },
    }
}

/// The `steamapps` folders of an installation: the one at its root, then those that the library
/// file names.
pub fn parse_libraryfolders(root: &str, library_file: Option<String>) -> (r: Vec<String>)
    ensures
        r.deep_view() == all_libraries(root@, library_file.deep_view()),
{
    let mut r: Vec<String> = Vec::new();
    r.push(paths::join(root, "steamapps"));
    let ghost primary = seq![paths::joined(root@, "steamapps"@)];
    assert(r.deep_view() =~= primary);
    if let Some(file) = &library_file {
        let lines = text::split(file.as_str(), '\n');
        let ghost all = lines.deep_view();
        let mut i: usize = 0;
        assert(primary + libraries_of(all.take(0)) =~= primary);
        while i < lines.len()
            invariant
                i <= lines@.len(),
                all == lines.deep_view(),
                r.deep_view() == primary + libraries_of(all.take(i as int)),
            decreases lines@.len() - i,
        {
            proof {
                assert(all.take(i + 1).drop_last() =~= all.take(i as int));
                assert(all.take(i + 1).last() == lines@[i as int]@);
            }
            let ghost before = r.deep_view();
            if let Some(dir) = parse_line(lines[i].as_str()) {
                let ghost named = dir@;
                r.push(dir);
                assert(r.deep_view() =~= before.push(named));
                assert(r.deep_view() =~= primary + libraries_of(all.take(i + 1)));
            }
            i = i + 1;
        }
        assert(all.take(all.len() as int) =~= all);
    }
    r
}

/// One entry of a folder.
#[derive(Debug)]
pub struct DirEntry {
    pub name: String,
    pub is_dir: bool,
}

/// The model of [`DirEntry`].
pub struct DirEntryView {
    pub name: Seq<char>,
    pub is_dir: bool,
}

impl DeepView for DirEntry {
    type V = DirEntryView;

    open spec fn deep_view(&self) -> DirEntryView {
        DirEntryView { name: self.name@, is_dir: self.is_dir }
    }
}

/// Whether a name is one of the Proton builds that come first.
pub open spec fn is_favoured(name: Seq<char>) -> bool {
    "GE-Proton"@.is_prefix_of(name) || "dwproton"@.is_prefix_of(name)
}

/// Whether an entry is a Proton version.
pub open spec fn is_proton(entry: DirEntryView) -> bool {
    entry.is_dir && (is_favoured(entry.name) || ("Proton"@.is_prefix_of(entry.name)
        && !text::has_text(entry.name, "Runtime"@)))
}

/// A Proton version: in which of the two folders it lies, and its name.
#[derive(Debug)]
pub struct Proton {
    /// Whether it lies among the games, not among the compatibility tools.
    pub among_games: bool,
    pub name: String,
}

/// The model of [`Proton`].
pub struct ProtonView {
    pub among_games: bool,
    pub name: Seq<char>,
}

impl DeepView for Proton {
    type V = ProtonView;

    open spec fn deep_view(&self) -> ProtonView {
        ProtonView { among_games: self.among_games, name: self.name@ }
    }
}

/// The path of a Proton version.
pub open spec fn proton_path(root: Seq<char>, p: ProtonView) -> Seq<char> {
    let dir = if p.among_games {
        "steamapps/common"@
    } else {
        "compatibilitytools.d"@
    };
    paths::joined(paths::joined(root, dir), p.name)
}

/// Whether one Proton version goes before another: favoured builds before others, then by path.
pub open spec fn goes_first(a: ProtonView, b: ProtonView) -> bool {
    if is_favoured(a.name) != is_favoured(b.name) {
        is_favoured(a.name)
    } else if a.among_games != b.among_games {
        !a.among_games
    } else {
        text::text_less(a.name, b.name)
    }
}

/// Whether the version at `a` of a list goes before the one at `b`, the order of the list deciding
/// between equals.
pub open spec fn ranks_before(all: Seq<ProtonView>, a: usize, b: usize) -> bool {
    goes_first(all[a as int], all[b as int]) || (!goes_first(all[b as int], all[a as int]) && a < b)
}

/// Whether `order` lists each of the first `n` versions once, in their order.
pub open spec fn is_ranking(all: Seq<ProtonView>, order: Seq<usize>, n: int) -> bool {
    &&& order.len() == n
    &&& forall|i: int| 0 <= i < order.len() ==> #[trigger] order[i] < n
    &&& forall|i: int, j: int|
        0 <= i < j < order.len() ==> #[trigger] ranks_before(all, order[i], order[j])
}

/// The Proton versions among some entries.
pub open spec fn protons_in(among_games: bool, entries: Seq<DirEntryView>) -> Seq<ProtonView>
    decreases entries.len(),
{
    if entries.len() == 0 {
        Seq::empty()
    } else {
        let before = protons_in(among_games, entries.drop_last());
        if is_proton(entries.last()) {
            before.push(ProtonView { among_games, name: entries.last().name })
        } else {
            before
        }
    }
}

fn push_protons(among_games: bool, entries: &Vec<DirEntry>, out: &mut Vec<Proton>)
    ensures
        final(out).deep_view() == old(out).deep_view() + protons_in(
            among_games,
            entries.deep_view(),
        ),
{
    let ghost start = out.deep_view();
    let ghost all = entries.deep_view();
    let mut i: usize = 0;
    assert(start + protons_in(among_games, all.take(0)) =~= start);
    while i < entries.len()
        invariant
            i <= entries@.len(),
            all == entries.deep_view(),
            out.deep_view() == start + protons_in(among_games, all.take(i as int)),
        decreases entries@.len() - i,
    {
        proof {
            assert(all.take(i + 1).drop_last() =~= all.take(i as int));
            assert(all.take(i + 1).last() == entries@[i as int].deep_view());
        }
        let ghost before = out.deep_view();
        let name = entries[i].name.as_str();
        let named = favoured(name) || (text::starts_with(name, "Proton") && !text::contains(
            name,
            "Runtime",
        ));
        if named && entries[i].is_dir {
            out.push(Proton { among_games, name: entries[i].name.clone() });
            assert(out.deep_view() =~= before.push(ProtonView { among_games, name: name@ }));
            assert(out.deep_view() =~= start + protons_in(among_games, all.take(i + 1)));
        }
        i = i + 1;
    }
    assert(all.take(all.len() as int) =~= all);
}

fn favoured(name: &str) -> (r: bool)
    ensures
        r == is_favoured(name@),
{
    text::starts_with(name, "GE-Proton") || text::starts_with(name, "dwproton")
}

fn is_before(a: &Proton, b: &Proton) -> (r: bool)
    ensures
        r == goes_first(a.deep_view(), b.deep_view()),
{
    let fa = favoured(a.name.as_str());
    let fb = favoured(b.name.as_str());
    if fa != fb {
        fa
    } else if a.among_games != b.among_games {
        !a.among_games
    } else {
        text::is_less(a.name.as_str(), b.name.as_str())
    }
}

proof fn lemma_goes_first(a: ProtonView, b: ProtonView, c: ProtonView)
    ensures
        goes_first(a, b) && goes_first(b, c) ==> goes_first(a, c),
        goes_first(a, b) && !goes_first(c, b) ==> goes_first(a, c),
        !goes_first(a, a),
        goes_first(a, b) ==> !goes_first(b, a),
{
    text::lemma_text_less_transitive(a.name, b.name, c.name);
    text::lemma_text_less_total(b.name, c.name);
    text::lemma_text_less_total(a.name, b.name);
    text::lemma_text_less_total(a.name, a.name);
    text::lemma_text_less_total(b.name, a.name);
}

fn rank(list: &Vec<Proton>) -> (r: Vec<usize>)
    ensures
        is_ranking(list.deep_view(), r@, list@.len() as int),
{
    let ghost all = list.deep_view();
    let n: usize = list.len();
    let mut r: Vec<usize> = Vec::new();
    let mut i: usize = 0;
    while i < n
        invariant
            n == list@.len(),
            all == list.deep_view(),
            i <= n,
            is_ranking(all, r@, i as int),
        decreases n - i,
    {
        let mut at: usize = i;
        while at > 0 && is_before(&list[i], &list[r[at - 1]])
            invariant
                at <= i < n,
                n == list@.len(),
                all == list.deep_view(),
                r@.len() == i,
                is_ranking(all, r@, i as int),
                forall|k: int|
                    at <= k < i ==> goes_first(all[i as int], all[(#[trigger] r@[k]) as int]),
            decreases at,
        {
            assert(all[i as int] == list@[i as int].deep_view());
            assert(all[r@[at - 1] as int] == list@[r@[at - 1] as int].deep_view());
            at = at - 1;
        }
        let ghost before = r@;
        proof {
            assert(all[i as int] == list@[i as int].deep_view());
            if at > 0 {
                assert(all[r@[at - 1] as int] == list@[r@[at - 1] as int].deep_view());
            }
        }
        r.insert(at, i);
        proof {
            assert(r@ == before.insert(at as int, i));
            assert forall|a: int, b: int| 0 <= a < b < r@.len() implies #[trigger] ranks_before(
                all,
                r@[a],
                r@[b],
            ) by {
                let a0 = if a < at {
                    a
                } else {
                    a - 1
                };
                let b0 = if b < at {
                    b
                } else {
                    b - 1
                };
                if a == at {
                    assert(r@[b] == before[b - 1]);
                } else if b == at {
                    assert(r@[a] == before[a]);
                    assert(at > 0);
                    let x = before[at - 1];
                    assert(!goes_first(all[i as int], all[x as int]));
                    if a < at - 1 {
                        assert(ranks_before(all, before[a], x));
                        lemma_goes_first(all[i as int], all[before[a] as int], all[x as int]);
                    }
                } else {
                    assert(ranks_before(all, before[a0], before[b0]));
                }
            }
            assert forall|a: int| 0 <= a < r@.len() implies #[trigger] r@[a] < i + 1 by {
                if a < at {
                    assert(r@[a] == before[a]);
                } else if a > at {
                    assert(r@[a] == before[a - 1]);
                }
            }
        }
        i = i + 1;
    }
    r
}

/// All Proton versions of an installation, as they were found.
pub open spec fn protons_found(tools: Seq<DirEntryView>, games: Seq<DirEntryView>) -> Seq<ProtonView> {
    protons_in(false, tools) + protons_in(true, games)
}

/// Whether `list` holds the paths of the Proton versions that were found, in their order.
pub open spec fn lists_protons(
    root: Seq<char>,
    tools: Seq<DirEntryView>,
    games: Seq<DirEntryView>,
    list: Seq<Seq<char>>,
) -> bool {
    let all = protons_found(tools, games);
    exists|order: Seq<usize>|
        #[trigger] is_ranking(all, order, all.len() as int) && list == order.map_values(
            |i: usize| proton_path(root, all[i as int]),
        )
}

/// The Proton versions of an installation, from the entries of its folders `compatibilitytools.d`
/// and `steamapps/common`: GE-Proton and dwproton first, then the others, each by path.
pub fn find_protons(root: &str, tools: &Vec<DirEntry>, games: &Vec<DirEntry>) -> (r: Vec<String>)
    ensures
        lists_protons(root@, tools.deep_view(), games.deep_view(), r.deep_view()),
{
    let mut list: Vec<Proton> = Vec::new();
    let ghost none = list.deep_view();
    push_protons(false, tools, &mut list);
    push_protons(true, games, &mut list);
    let ghost all = protons_found(tools.deep_view(), games.deep_view());
    proof {
        assert(none =~= Seq::empty());
        assert(list.deep_view() =~= all);
    }
    let order = rank(&list);
    let tool_dir = paths::join(root, "compatibilitytools.d");
    let game_dir = paths::join(root, "steamapps/common");
    let ghost path_of = |i: usize| proton_path(root@, all[i as int]);
    let mut r: Vec<String> = Vec::new();
    let mut i: usize = 0;
    assert(r.deep_view() =~= order@.take(0).map_values(path_of));
    while i < order.len()
        invariant
            i <= order@.len(),
            all == list.deep_view(),
            is_ranking(all, order@, list@.len() as int),
            path_of == (|i: usize| proton_path(root@, all[i as int])),
            tool_dir@ == paths::joined(root@, "compatibilitytools.d"@),
            game_dir@ == paths::joined(root@, "steamapps/common"@),
            r.deep_view() == order@.take(i as int).map_values(path_of),
        decreases order@.len() - i,
    {
        let ghost before = r.deep_view();
        let k: usize = order[i];
        assert(all[k as int] == list@[k as int].deep_view());
        let dir = if list[k].among_games {
            game_dir.as_str()
        } else {
            tool_dir.as_str()
        };
        r.push(paths::join(dir, list[k].name.as_str()));
        proof {
            assert(r.deep_view() =~= before.push(path_of(k)));
            assert(order@.take(i + 1).map_values(path_of) =~= before.push(path_of(k)));
        }
        i = i + 1;
    }
    proof {
        assert(order@.take(order@.len() as int) =~= order@);
        assert(is_ranking(all, order@, all.len() as int));
        assert(r.deep_view() =~= order@.map_values(
            |i: usize| proton_path(root@, all[i as int]),
        ));
    }
    r
}

/// What was found at a place where Steam may be.
#[derive(Debug)]
pub struct SteamProbe {
    pub root: String,
    /// Whether there is a folder `steamapps`.
    pub has_steamapps: bool,
    /// The library file, if it could be read.
    pub library_file: Option<String>,
    /// The entries of `compatibilitytools.d`, none where it could not be listed.
    pub tools: Vec<DirEntry>,
    /// The entries of `steamapps/common`, none where it could not be listed.
    pub games: Vec<DirEntry>,
}

/// Whether an installation is the one that a probe describes.
pub open spec fn describes(probe: SteamProbe, info: SteamInfoView) -> bool {
    &&& info.steam_root == probe.root@
    &&& info.libraries == all_libraries(probe.root@, probe.library_file.deep_view())
    &&& lists_protons(probe.root@, probe.tools.deep_view(), probe.games.deep_view(), info.protons)
}

/// Whether the first probe with a folder `steamapps` stands at `i`.
pub open spec fn first_steam(probes: Seq<SteamProbe>, i: int) -> bool {
    &&& 0 <= i < probes.len()
    &&& probes[i].has_steamapps
    &&& forall|j: int| 0 <= j < i ==> !(#[trigger] probes[j]).has_steamapps
}

/// The first Steam installation among the places that were looked at.
pub fn detect_steam(probes: &Vec<SteamProbe>) -> (r: Option<SteamInfo>)
    ensures
        match r {
            Some(info) => exists|i: int|
                #[trigger] first_steam(probes@, i) && describes(probes@[i], info.deep_view()),
            None => forall|i: int|
                0 <= i < probes@.len() ==> !(#[trigger] probes@[i]).has_steamapps,
        },
        r is Some ==> exists|i: int|
            0 <= i < probes@.len() && (#[trigger] probes@[i]).has_steamapps && r->0.steam_root@
                == probes@[i].root@ && r->0.libraries.deep_view() == all_libraries(
                probes@[i].root@,
                probes@[i].library_file.deep_view(),
            ) && forall|j: int| 0 <= j < i ==> !(#[trigger] probes@[j]).has_steamapps,
{
    let mut i: usize = 0;
    while i < probes.len()
        invariant
            i <= probes@.len(),
            forall|j: int| 0 <= j < i ==> !(#[trigger] probes@[j]).has_steamapps,
        decreases probes@.len() - i,
    {
        let probe = &probes[i];
        if probe.has_steamapps {
            let root = probe.root.as_str();
            let library_file = probe.library_file.clone();
            let info = SteamInfo {
                steam_root: probe.root.clone(),
                libraries: parse_libraryfolders(root, library_file),
                protons: find_protons(root, &probe.tools, &probe.games),
            };
            assert(first_steam(probes@, i as int));
            return Some(info);
        }
        i = i + 1;
    }
    None
}

/// The folders that a game may be installed in, one per library.
pub open spec fn game_dirs(libraries: Seq<Seq<char>>, game: Game) -> Seq<Seq<char>> {
    libraries.map_values(|lib: Seq<char>| game_dir(lib, game))
}

/// The folders that a game may be installed in, one per library, each with the file that marks an
/// installation.
pub fn install_candidates(steam: &SteamInfo, game: Game) -> (r: Vec<(String, String)>)
    ensures
        r@.len() == steam.libraries@.len(),
        forall|i: int|
            0 <= i < r@.len() ==> (#[trigger] r@[i]).0@ == game_dir(
                steam.libraries@[i]@,
                game,
            ) && r@[i].1@ == paths::joined(r@[i].0@, state::LOCAL_CONFIG_FILE@),
        forall|i: int|
            0 <= i < r@.len() ==> (#[trigger] r@[i]).1@ == paths::joined(
                r@[i].0@,
                "launcherDownloadConfig.json"@,
            ),
{
    let mut r: Vec<(String, String)> = Vec::new();
    let mut i: usize = 0;
    while i < steam.libraries.len()
        invariant
            i <= steam.libraries@.len(),
            r@.len() == i,
            forall|k: int|
                0 <= k < i ==> (#[trigger] r@[k]).0@ == game_dir(steam.libraries@[k]@, game)
                    && r@[k].1@ == paths::joined(r@[k].0@, state::LOCAL_CONFIG_FILE@),
        decreases steam.libraries@.len() - i,
    {
        let dir = game_dir_in(steam.libraries[i].as_str(), game);
        let mark = state::local_config_path(dir.as_str());
        r.push((dir, mark));
        i = i + 1;
    }
    r
}

/// The first of some folders at which something was found, if any.
pub open spec fn first_found(dirs: Seq<Seq<char>>, found: Seq<bool>) -> Seq<Seq<char>>
    decreases dirs.len(),
{
    if dirs.len() == 0 || found.len() == 0 {
        Seq::empty()
    } else if found[0] {
        seq![dirs[0]]
    } else {
        first_found(dirs.drop_first(), found.drop_first())
    }
}

fn find_game(steam: &SteamInfo, game: Game, found: &Vec<bool>) -> (r: Option<String>)
    requires
        found@.len() == steam.libraries@.len(),
    ensures
        first_found(game_dirs(steam.deep_view().libraries, game), found@) == match r {
            Some(dir) => seq![dir@],
            None => Seq::empty(),
        },
{
    let ghost dirs = game_dirs(steam.deep_view().libraries, game);
    let mut i: usize = 0;
    assert(dirs.skip(0) =~= dirs && found@.skip(0) =~= found@);
    while i < found.len()
        invariant
            i <= found@.len(),
            found@.len() == steam.libraries@.len(),
            dirs == game_dirs(steam.deep_view().libraries, game),
            first_found(dirs, found@) == first_found(dirs.skip(i as int), found@.skip(i as int)),
        decreases found@.len() - i,
    {
        assert(steam.deep_view().libraries[i as int] == steam.libraries@[i as int]@);
        if found[i] {
            return Some(game_dir_in(steam.libraries[i].as_str(), game));
        }
        assert(dirs.skip(i as int).drop_first() =~= dirs.skip(i + 1));
        assert(found@.skip(i as int).drop_first() =~= found@.skip(i + 1));
        i = i + 1;
    }
    None
}

/// The installed games: for each game the first library in which its folder holds the local
/// configuration. `wuwa` and `pgr` say of each library whether it does.
pub fn auto_detect_games(steam: &SteamInfo, wuwa: &Vec<bool>, pgr: &Vec<bool>) -> (r: Vec<String>)
    requires
        wuwa@.len() == steam.libraries@.len(),
        pgr@.len() == steam.libraries@.len(),
    ensures
        r.deep_view() == first_found(game_dirs(steam.deep_view().libraries, Game::WuWa), wuwa@)
            + first_found(game_dirs(steam.deep_view().libraries, Game::Pgr), pgr@),
{
    let mut r: Vec<String> = Vec::new();
    let ghost first = first_found(game_dirs(steam.deep_view().libraries, Game::WuWa), wuwa@);
    let ghost second = first_found(game_dirs(steam.deep_view().libraries, Game::Pgr), pgr@);
    if let Some(dir) = find_game(steam, Game::WuWa, wuwa) {
        r.push(dir);
    }
    assert(r.deep_view() =~= first);
    let ghost before = r.deep_view();
    if let Some(dir) = find_game(steam, Game::Pgr, pgr) {
        let ghost named = dir@;
        r.push(dir);
        assert(r.deep_view() =~= before.push(named));
    }
    assert(r.deep_view() =~= first + second);
    r
}

/// There is only one order of the Proton versions that were found.
pub proof fn law_ranking_is_unique(all: Seq<ProtonView>, a: Seq<usize>, b: Seq<usize>)
    requires
        is_ranking(all, a, all.len() as int),
        is_ranking(all, b, all.len() as int),
    ensures
        a == b,
{
    let before = |x: usize, y: usize| ranks_before(all, x, y);
    assert forall|i: int, j: int| 0 <= i < j < a.len() implies #[trigger] before(a[i], a[j]) by {
        assert(ranks_before(all, a[i], a[j]));
    }
    assert forall|i: int, j: int| 0 <= i < j < b.len() implies #[trigger] before(b[i], b[j]) by {
        assert(ranks_before(all, b[i], b[j]));
    }
    assert forall|x: usize, y: usize| #[trigger] before(x, y) implies !before(y, x) by {
        lemma_goes_first(all[x as int], all[y as int], all[x as int]);
    }
    order::lemma_listing_is_unique(before, a, b, all.len() as int);
}

/// A favoured Proton build is never listed after one that is not.
pub proof fn law_favoured_protons_come_first(
    all: Seq<ProtonView>,
    order: Seq<usize>,
    i: int,
    j: int,
)
    requires
        is_ranking(all, order, all.len() as int),
        0 <= i < j < order.len(),
        is_favoured(all[order[j] as int].name),
    ensures
        is_favoured(all[order[i] as int].name),
{
    assert(ranks_before(all, order[i], order[j]));
}

/// The extra libraries come after the primary one, whatever the library file holds.
pub proof fn law_primary_library_comes_first(root: Seq<char>, library_file: Option<Seq<char>>)
    ensures
        all_libraries(root, library_file).len() > 0,
        all_libraries(root, library_file)[0] == paths::joined(root, "steamapps"@),
{
}

}
