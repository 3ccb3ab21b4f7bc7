//! Where Steam, its libraries, its Proton versions and its games are found.

use vstd::prelude::*;

use crate::config::Game;
use crate::order;
use crate::paths;
use crate::steam;
use crate::steam::{DirEntryView, ProtonView, SteamInfoView, SteamProbe};
use crate::text;
use crate::text_laws;
use crate::token_laws;

verus! {

/// A game lies in the folder of its own name, under `common` of a library.
pub proof fn law_game_folders(library: Seq<char>, game: Game)
    ensures
        game == Game::WuWa ==> steam::game_dir(library, game) == paths::joined(
            paths::joined(library, "common"@),
            "Wuthering Waves"@,
        ),
        game == Game::Pgr ==> steam::game_dir(library, game) == paths::joined(
            paths::joined(library, "common"@),
            "Punishing Gray Raven"@,
        ),
{
}

/// A game is installed by default in the first library, and without any in the one at the root.
pub proof fn law_primary_library(info: SteamInfoView)
    ensures
        info.libraries.len() > 0 ==> steam::primary_library(info) == info.libraries[0],
        info.libraries.len() == 0 ==> steam::primary_library(info) == paths::joined(
            info.steam_root,
            "steamapps"@,
        ),
{
}

/// Steam is looked for at the place that the environment names, if any, then at the native place, at
/// the one of the flatpak and at the old link.
pub proof fn law_places_of_steam(home: Seq<char>, named: Option<Seq<char>>)
    ensures
        ({
            let places = steam::root_candidates(home, named);
            let n: int = if named is Some { 1 } else { 0 };
            &&& places.len() == n + 3
            &&& named is Some ==> places[0] == named->0
            &&& places[n] == paths::joined(home, ".local/share/Steam"@)
            &&& places[n + 1] == paths::joined(
                home,
                ".var/app/com.valvesoftware.Steam/.local/share/Steam"@,
            )
            &&& places[n + 2] == paths::joined(home, ".steam/steam"@)
        }),
{
}

/// A line with the key `path` in quotes and a folder in quotes names the library in that folder; white
/// space around the two does not count.
pub proof fn law_path_line_names_a_library(
    folder: Seq<char>,
    blanks: (Seq<char>, Seq<char>, Seq<char>),
)
    requires
        token_laws::is_blank(blanks.0),
        token_laws::is_blank(blanks.1),
        token_laws::is_blank(blanks.2),
        folder.len() > 0 ==> folder[0] != '"' && folder.last() != '"',
    ensures
        steam::library_of(
            blanks.0 + seq!['"', 'p', 'a', 't', 'h', '"'] + blanks.1 + seq!['"'] + folder + seq!['"']
                + blanks.2,
        ) == Some(paths::joined(folder, "steamapps"@)),
{
    reveal_strlit("path");
    let (a, b, c) = blanks;
    let key = seq!['"', 'p', 'a', 't', 'h', '"'];
    let quoted = seq!['"'] + folder + seq!['"'];
    let line = a + key + b + seq!['"'] + folder + seq!['"'] + c;
    let core = key + b + quoted;
    assert(line =~= a + core + c);
    assert(core[0] == '"' && core.last() == '"');
    text_laws::law_white_space('"');
    text_laws::law_framed(a, core, c, text::any_space());
    let rest = core.skip(1);
    assert(rest[0] == 'p' && rest[1] == 'a' && rest[2] == 't' && rest[3] == 'h' && rest[4] == '"');
    text::lemma_lead_is(rest, text::is_other_than('"'), 4);
    assert(rest.take(4) =~= "path"@);
    assert(rest.skip(5) =~= b + quoted + Seq::empty());
    assert(quoted[0] == '"' && quoted.last() == '"');
    text_laws::law_framed(b, quoted, Seq::empty(), text::any_space());
    assert(quoted =~= text_laws::repeated('"', 1) + folder + text_laws::repeated('"', 1));
    text_laws::law_padded(folder, '"', 1, 1);
}

/// A line whose first key is another one names no library, and neither does a line that does not begin
/// with a quote.
pub proof fn law_other_lines_name_no_library(
    blank: Seq<char>,
    key: Seq<char>,
    rest: Seq<char>,
    other: Seq<char>,
)
    requires
        token_laws::is_blank(blank),
        key != "path"@,
        forall|i: int| 0 <= i < key.len() ==> #[trigger] key[i] != '"',
        other.len() == 0 || (other[0] != '"' && token_laws::is_trim(other)),
    ensures
        steam::library_of(blank + seq!['"'] + key + seq!['"'] + rest) is None,
        steam::library_of(blank + other) is None,
{
    let space = text::any_space();
    text_laws::law_white_space('"');
    let line = blank + seq!['"'] + key + seq!['"'] + rest;
    text_laws::law_drop_trail(rest, space);
    let kept = text::drop_trail(rest, space);
    let core = seq!['"'] + key + seq!['"'] + kept;
    let tail = rest.skip(kept.len() as int);
    assert forall|i: int| 0 <= i < tail.len() implies space(#[trigger] tail[i]) by {
        assert(tail[i] == rest[kept.len() + i]);
        assert(space(rest[kept.len() + i]));
    }
    assert(rest =~= kept + tail);
    assert(line =~= blank + core + tail);
    assert(core[0] == '"');
    assert(kept.len() > 0 ==> core.last() == kept.last());
    assert(kept.len() == 0 ==> core.last() == '"');
    text_laws::law_framed(blank, core, tail, space);
    let behind = core.skip(1);
    let n = key.len() as int;
    assert(behind[n] == '"');
    assert forall|i: int| 0 <= i < n implies behind[i] != '"' by {
        assert(behind[i] == key[i]);
    }
    text::lemma_lead_is(behind, text::is_other_than('"'), n);
    assert(behind.take(n) =~= key);
    assert(blank + other =~= blank + other + Seq::empty());
    text_laws::law_framed(blank, other, Seq::empty(), space);
}

/// The libraries of an installation are the one at its root and those that the lines of the library
/// file name, in their order.
pub proof fn law_libraries_are_named_by_lines(
    root: Seq<char>,
    file: Seq<char>,
    lines: Seq<Seq<char>>,
    line: Seq<char>,
)
    ensures
        steam::all_libraries(root, None).len() == 1,
        steam::all_libraries(root, None)[0] == paths::joined(root, "steamapps"@),
        steam::all_libraries(root, Some(file))[0] == paths::joined(root, "steamapps"@),
        steam::all_libraries(root, Some(file)).skip(1) == steam::libraries_of(
            text::pieces(file, '\n'),
        ),
        steam::libraries_of(Seq::empty()).len() == 0,
        steam::library_of(line) is None ==> steam::libraries_of(lines.push(line))
            == steam::libraries_of(lines),
        steam::library_of(line) is Some ==> steam::libraries_of(lines.push(line))
            == steam::libraries_of(lines).push(steam::library_of(line)->0),
{
    assert(lines.push(line).drop_last() =~= lines);
    assert(steam::all_libraries(root, Some(file)).skip(1) =~= steam::libraries_of(
        text::pieces(file, '\n'),
    ));
}

/// Whether a text begins with another.
pub open spec fn begins_with(s: Seq<char>, front: Seq<char>) -> bool {
    s.len() >= front.len() && s.take(front.len() as int) == front
}

/// A Proton version is a folder whose name begins with `GE-Proton`, with `dwproton`, or with `Proton`
/// without a `Runtime` in it; the first two are favoured.
pub proof fn law_proton_versions(entry: DirEntryView)
    ensures
        steam::is_favoured(entry.name) <==> begins_with(entry.name, "GE-Proton"@) || begins_with(
            entry.name,
            "dwproton"@,
        ),
        !entry.is_dir ==> !steam::is_proton(entry),
        entry.is_dir && begins_with(entry.name, "GE-Proton"@) ==> steam::is_proton(entry),
        entry.is_dir && begins_with(entry.name, "dwproton"@) ==> steam::is_proton(entry),
        entry.is_dir && begins_with(entry.name, "Proton"@) && !text::has_text(
            entry.name,
            "Runtime"@,
        ) ==> steam::is_proton(entry),
        steam::is_proton(entry) && !begins_with(entry.name, "GE-Proton"@) && !begins_with(
            entry.name,
            "dwproton"@,
        ) ==> begins_with(entry.name, "Proton"@) && !text::has_text(entry.name, "Runtime"@),
{
    let name = entry.name;
    let a = "GE-Proton"@;
    let b = "dwproton"@;
    let c = "Proton"@;
    assert(a.is_prefix_of(name) <==> begins_with(name, a)) by {
        lemma_prefix(name, a);
    }
    assert(b.is_prefix_of(name) <==> begins_with(name, b)) by {
        lemma_prefix(name, b);
    }
    assert(c.is_prefix_of(name) <==> begins_with(name, c)) by {
        lemma_prefix(name, c);
    }
}

proof fn lemma_prefix(s: Seq<char>, front: Seq<char>)
    ensures
        front.is_prefix_of(s) <==> begins_with(s, front),
{
    if s.len() >= front.len() {
        assert(s.take(front.len() as int) =~= s.subrange(0, front.len() as int));
    }
}

/// A Proton version lies in the folder of the tools, or in that of the games, under its name.
pub proof fn law_proton_places(root: Seq<char>, name: Seq<char>)
    ensures
        steam::proton_path(root, ProtonView { among_games: false, name }) == paths::joined(
            paths::joined(root, "compatibilitytools.d"@),
            name,
        ),
        steam::proton_path(root, ProtonView { among_games: true, name }) == paths::joined(
            paths::joined(root, "steamapps/common"@),
            name,
        ),
{
}

/// Favoured builds go before others; of two builds of one kind, those among the tools go before those
/// among the games; of two in one folder the lesser name goes first.
pub proof fn law_proton_order(a: ProtonView, b: ProtonView)
    ensures
        steam::is_favoured(a.name) && !steam::is_favoured(b.name) ==> steam::goes_first(a, b)
            && !steam::goes_first(b, a),
        steam::is_favoured(a.name) == steam::is_favoured(b.name) && !a.among_games && b.among_games
            ==> steam::goes_first(a, b) && !steam::goes_first(b, a),
        steam::is_favoured(a.name) == steam::is_favoured(b.name) && a.among_games == b.among_games
            ==> (steam::goes_first(a, b) <==> text::text_less(a.name, b.name)),
{
}

/// No Proton version is listed behind one that it goes before.
pub proof fn law_ranking_is_sorted(all: Seq<ProtonView>, order: Seq<usize>, i: int, j: int)
    requires
        steam::is_ranking(all, order, all.len() as int),
        0 <= i < j < order.len(),
    ensures
        !steam::goes_first(all[order[j] as int], all[order[i] as int]),
        order[i] != order[j],
{
    assert(steam::ranks_before(all, order[i], order[j]));
    text::lemma_text_less_total(all[order[i] as int].name, all[order[j] as int].name);
    text::lemma_text_less_total(all[order[j] as int].name, all[order[i] as int].name);
}

/// The Proton versions of a folder are those of its entries that are such, in their order.
pub proof fn law_protons_of_a_folder(among_games: bool, entries: Seq<DirEntryView>)
    ensures
        steam::protons_in(among_games, entries) == entries.filter(
            |e: DirEntryView| steam::is_proton(e),
        ).map_values(|e: DirEntryView| ProtonView { among_games, name: e.name }),
    decreases entries.len(),
{
    reveal(Seq::filter);
    let keep = |e: DirEntryView| steam::is_proton(e);
    let to = |e: DirEntryView| ProtonView { among_games, name: e.name };
    if entries.len() == 0 {
        assert(entries.filter(keep).map_values(to) =~= Seq::empty());
    } else {
        let rest = entries.drop_last();
        law_protons_of_a_folder(among_games, rest);
        if keep(entries.last()) {
            assert(rest.filter(keep).push(entries.last()).map_values(to) =~= rest.filter(
                keep,
            ).map_values(to).push(to(entries.last())));
        }
    }
}

/// Every Proton version of the two folders is listed, and nothing else is.
pub proof fn law_every_proton_is_listed(
    root: Seq<char>,
    tools: Seq<DirEntryView>,
    games: Seq<DirEntryView>,
    list: Seq<Seq<char>>,
    i: int,
)
    requires
        steam::lists_protons(root, tools, games, list),
        tools.len() + games.len() <= usize::MAX,
    ensures
        list.len() == tools.filter(|e: DirEntryView| steam::is_proton(e)).len() + games.filter(
            |e: DirEntryView| steam::is_proton(e),
        ).len(),
        0 <= i < tools.len() && steam::is_proton(tools[i]) ==> list.contains(
            paths::joined(paths::joined(root, "compatibilitytools.d"@), tools[i].name),
        ),
        0 <= i < games.len() && steam::is_proton(games[i]) ==> list.contains(
            paths::joined(paths::joined(root, "steamapps/common"@), games[i].name),
        ),
{
    let all = steam::protons_found(tools, games);
    let order = choose|order: Seq<usize>|
        #[trigger] steam::is_ranking(all, order, all.len() as int) && list == order.map_values(
            |i: usize| steam::proton_path(root, all[i as int]),
        );
    law_protons_of_a_folder(false, tools);
    law_protons_of_a_folder(true, games);
    if 0 <= i < tools.len() && steam::is_proton(tools[i]) {
        let k = lemma_has_proton(false, tools, i);
        assert(all[k] == steam::protons_in(false, tools)[k]);
        lemma_ranked(root, all, order, k);
    }
    if 0 <= i < games.len() && steam::is_proton(games[i]) {
        let k = lemma_has_proton(true, games, i);
        let m = steam::protons_in(false, tools).len() + k;
        assert(all[m] == steam::protons_in(true, games)[k]);
        lemma_ranked(root, all, order, m);
    }
}

proof fn lemma_has_proton(among_games: bool, entries: Seq<DirEntryView>, i: int) -> (k: int)
    requires
        0 <= i < entries.len(),
        steam::is_proton(entries[i]),
    ensures
        0 <= k < steam::protons_in(among_games, entries).len(),
        steam::protons_in(among_games, entries)[k] == (ProtonView {
            among_games,
            name: entries[i].name,
        }),
    decreases entries.len(),
{
    let rest = entries.drop_last();
    if i < rest.len() {
        assert(rest[i] == entries[i]);
        lemma_has_proton(among_games, rest, i)
    } else {
        steam::protons_in(among_games, rest).len() as int
    }
}

proof fn lemma_ranked(root: Seq<char>, all: Seq<ProtonView>, order: Seq<usize>, k: int)
    requires
        steam::is_ranking(all, order, all.len() as int),
        0 <= k < all.len() <= usize::MAX,
    ensures
        order.map_values(|i: usize| steam::proton_path(root, all[i as int])).contains(
            steam::proton_path(root, all[k]),
        ),
{
    let before = |x: usize, y: usize| steam::ranks_before(all, x, y);
    assert forall|i: int, j: int| 0 <= i < j < order.len() implies #[trigger] before(
        order[i],
        order[j],
    ) by {
        assert(steam::ranks_before(all, order[i], order[j]));
    }
    assert forall|x: usize, y: usize| #[trigger] before(x, y) implies !before(y, x) by {
        text::lemma_text_less_total(all[x as int].name, all[y as int].name);
        text::lemma_text_less_total(all[y as int].name, all[x as int].name);
    }
    order::lemma_listing_is_complete(before, order, all.len() as int, k as usize);
    let i = choose|i: int| 0 <= i < all.len() && order[i] == k as usize;
    let out = order.map_values(|i: usize| steam::proton_path(root, all[i as int]));
    assert(out[i] == steam::proton_path(root, all[k]));
}

/// The installation that a probe describes has its root, the libraries of its file and the Proton
/// versions of its folders.
pub proof fn law_probe_describes(probe: SteamProbe, info: SteamInfoView)
    ensures
        steam::describes(probe, info) <==> {
            &&& info.steam_root == probe.root@
            &&& info.libraries == steam::all_libraries(
                probe.root@,
                match probe.library_file {
                    Some(file) => Some(file@),
                    None => None,
                },
            )
            &&& steam::lists_protons(
                probe.root@,
                probe.tools.deep_view(),
                probe.games.deep_view(),
                info.protons,
            )
        },
{
}

/// A game is found in the first library that holds it, and nowhere where none does.
pub proof fn law_first_library_counts(dirs: Seq<Seq<char>>, found: Seq<bool>, i: int)
    requires
        dirs.len() == found.len(),
    ensures
        0 <= i < found.len() && found[i] && (forall|j: int| 0 <= j < i ==> !#[trigger] found[j])
            ==> steam::first_found(dirs, found) == seq![dirs[i]],
        (forall|j: int| 0 <= j < found.len() ==> !#[trigger] found[j]) ==> steam::first_found(
            dirs,
            found,
        ).len() == 0,
    decreases found.len(),
{
    if found.len() > 0 && !found[0] {
        let d = dirs.drop_first();
        let f = found.drop_first();
        law_first_library_counts(d, f, i - 1);
        if 0 < i < found.len() {
            assert(f[i - 1] == found[i]);
            assert(d[i - 1] == dirs[i]);
            if forall|j: int| 0 <= j < i ==> !#[trigger] found[j] {
                assert forall|j: int| 0 <= j < i - 1 implies !#[trigger] f[j] by {
                    assert(!found[j + 1]);
                }
            }
        }
        if forall|j: int| 0 <= j < found.len() ==> !#[trigger] found[j] {
            assert forall|j: int| 0 <= j < f.len() implies !#[trigger] f[j] by {
                assert(!found[j + 1]);
            }
        }
    }
}

/// A game is looked for in each library, in the order of the libraries.
pub proof fn law_game_is_looked_for_everywhere(libraries: Seq<Seq<char>>, game: Game, i: int)
    requires
        0 <= i < libraries.len(),
    ensures
        steam::game_dirs(libraries, game).len() == libraries.len(),
        steam::game_dirs(libraries, game)[i] == steam::game_dir(libraries[i], game),
{
}

}
