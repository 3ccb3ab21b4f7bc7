//! Finding Steam, its libraries and the games in them.

use kuro::config::Game;
use kuro::steam::{
    auto_detect_games, default_game_dir, detect_steam, find_protons, install_candidates,
    parse_libraryfolders, steam_candidates, DirEntry, SteamInfo, SteamProbe,
};

fn entry(name: &str) -> DirEntry {
    DirEntry { name: name.to_string(), is_dir: true }
}

fn info(libraries: &[&str]) -> SteamInfo {
    SteamInfo {
        steam_root: "/s".to_string(),
        libraries: libraries.iter().map(|l| l.to_string()).collect(),
        protons: vec![],
    }
}

#[test]
fn candidates_are_tried_in_order() {
    assert_eq!(
        steam_candidates("/home/u", None),
        vec![
            "/home/u/.local/share/Steam",
            "/home/u/.var/app/com.valvesoftware.Steam/.local/share/Steam",
            "/home/u/.steam/steam",
        ]
    );
    assert_eq!(steam_candidates("/h", Some("/opt/steam".to_string()))[0], "/opt/steam");
    assert_eq!(steam_candidates("", None)[2], ".steam/steam");
}

#[test]
fn libraries_are_read_from_the_library_file() {
    let file = "\"libraryfolders\"\n{\n\t\"0\"\n\t{\n\t\t\"path\"\t\t\"/home/u/.local/share/Steam\"\n\t\t\"label\"\t\t\"\"\n\t}\r\n\t\"1\"\n\t{\n\t\t\"path\"\t\t\"/mnt/games\"\r\n\t}\n}\n";
    assert_eq!(
        parse_libraryfolders("/s", Some(file.to_string())),
        vec!["/s/steamapps", "/home/u/.local/share/Steam/steamapps", "/mnt/games/steamapps"]
    );
    assert_eq!(parse_libraryfolders("/s", None), vec!["/s/steamapps"]);
    assert_eq!(
        parse_libraryfolders("/s", Some("\"path\"\"/x\"\n\"paths\" \"/y\"\npath \"/z\"".to_string())),
        vec!["/s/steamapps", "/x/steamapps"]
    );
}

#[test]
fn protons_are_sorted_with_favourites_first() {
    let tools = vec![
        entry("GE-Proton9-2"),
        entry("Proton-tkg"),
        entry("dwproton-10"),
        entry("GE-Proton10-1"),
        DirEntry { name: "GE-Proton8".to_string(), is_dir: false },
        entry("luxtorpeda"),
    ];
    let games = vec![
        entry("Proton 9.0"),
        entry("Proton EasyAntiCheat Runtime"),
        entry("GE-Proton7"),
        entry("Wuthering Waves"),
    ];
    assert_eq!(
        find_protons("/s", &tools, &games),
        vec![
            "/s/compatibilitytools.d/GE-Proton10-1",
            "/s/compatibilitytools.d/GE-Proton9-2",
            "/s/compatibilitytools.d/dwproton-10",
            "/s/steamapps/common/GE-Proton7",
            "/s/compatibilitytools.d/Proton-tkg",
            "/s/steamapps/common/Proton 9.0",
        ]
    );
    let mut steam = info(&[]);
    assert_eq!(steam.proton(), None);
    steam.protons = find_protons("/s", &tools, &games);
    assert_eq!(steam.proton(), Some("/s/compatibilitytools.d/GE-Proton10-1"));
}

#[test]
fn proton_order_is_that_of_paths() {
    let mut list = vec![
        "/s/compatibilitytools.d/Proton-b",
        "/s/steamapps/common/Proton-a",
        "/s/compatibilitytools.d/Proton",
        "/s/compatibilitytools.d/Proton.x",
    ];
    let tools = vec![entry("Proton-b"), entry("Proton"), entry("Proton.x")];
    let games = vec![entry("Proton-a")];
    let ours = find_protons("/s", &tools, &games);
    list.sort_by(|a, b| std::path::Path::new(a).cmp(std::path::Path::new(b)));
    assert_eq!(ours, list);
}

#[test]
fn the_first_place_with_steamapps_is_taken() {
    let probe = |root: &str, has_steamapps: bool| SteamProbe {
        root: root.to_string(),
        has_steamapps,
        library_file: None,
        tools: vec![entry("GE-Proton1")],
        games: vec![],
    };
    let found = detect_steam(&vec![probe("/a", false), probe("/b", true), probe("/c", true)]);
    let found = found.unwrap();
    assert_eq!(found.steam_root, "/b");
    assert_eq!(found.libraries, vec!["/b/steamapps"]);
    assert_eq!(found.protons, vec!["/b/compatibilitytools.d/GE-Proton1"]);
    assert!(detect_steam(&vec![probe("/a", false)]).is_none());
}

#[test]
fn games_are_installed_in_the_primary_library() {
    assert_eq!(
        default_game_dir(&info(&["/l1", "/l2"]), Game::WuWa),
        "/l1/common/Wuthering Waves"
    );
    assert_eq!(
        default_game_dir(&info(&[]), Game::Pgr),
        "/s/steamapps/common/Punishing Gray Raven"
    );
}

#[test]
fn one_entry_per_installed_game() {
    let steam = info(&["/l1", "/l2", "/l3"]);
    let dirs = install_candidates(&steam, Game::Pgr);
    assert_eq!(dirs[1].0, "/l2/common/Punishing Gray Raven");
    assert_eq!(dirs[1].1, "/l2/common/Punishing Gray Raven/launcherDownloadConfig.json");
    assert_eq!(
        auto_detect_games(&steam, &vec![false, true, true], &vec![true, false, false]),
        vec!["/l2/common/Wuthering Waves", "/l1/common/Punishing Gray Raven"]
    );
    assert!(auto_detect_games(&steam, &vec![false; 3], &vec![false; 3]).is_empty());
}
