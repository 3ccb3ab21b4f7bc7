//! What is said of tasks, and what the command line asks for.

use kuro::apply::ApplyReport;
use kuro::checkout::CheckoutReport;
use kuro::config::{Game, Server};
use kuro::error::Error;
use kuro::game::{GameManager, GameStatus};
use kuro::install::InstallReport;
use kuro::messages::{
    apply_done, checkout_done, cli_install, install_counts, install_done, interface_paths,
    nothing_planned, other_channel, parse_args, predownload_done, predownload_started, status_with,
    status_words_of, sync_counts, sync_done, Cli,
};
use kuro::predownload::{PendingGroup, PredownloadPlan};
use kuro::progress::ProgressEvent;
use kuro::sweep::{is_protected, prune_empty_dirs, sweep_orphans, walk_files, Node};
use kuro::sync::{verify_progress, verify_started, SyncReport};
use kuro::types::{PatchIndex, ResourceItem};

fn words(args: &[&str]) -> Vec<String> {
    args.iter().map(|a| a.to_string()).collect()
}

fn report() -> SyncReport {
    SyncReport {
        checked: 5,
        ok: 2,
        repaired: 1,
        repaired_bytes: 7,
        failed: vec!["x".to_string(), "y".to_string()],
        orphans_removed: 3,
    }
}

fn plan(total_bytes: u64) -> PredownloadPlan {
    PredownloadPlan {
        from_version: "1.0".to_string(),
        to_version: "2.0".to_string(),
        patch_groups: vec![PendingGroup {
            name: "g".to_string(),
            size: total_bytes,
            local_ready: false,
        }],
        full_files: vec![],
        total_bytes,
    }
}

#[test]
fn finished_tasks_are_told() {
    let mut r = report();
    assert_eq!(sync_done(&r, "0.0"), "sync complete — 1 repaired (0.0 GiB), 2 ok, 2 failed");
    r.failed.clear();
    assert_eq!(sync_done(&r, "0.0"), "sync complete — 1 repaired (0.0 GiB), 2 ok");
    let a = ApplyReport {
        merged: 1,
        skipped: 2,
        fallback: 0,
        swapped: 4,
        deleted: vec!["d".to_string()],
    };
    assert_eq!(
        apply_done(&a),
        "apply complete — merged 1, skipped 2, fallback 0, swapped 4, deleted 1"
    );
    assert_eq!(ApplyReport::default().swapped, 0);
    let c = CheckoutReport {
        from_server: Server::Cn,
        to_server: Server::Bilibili,
        swapped_files: 2,
        new_version: "3.6.0".to_string(),
    };
    assert_eq!(checkout_done(&c), "checkout complete — cn → bilibili, 2 files swapped, now v3.6.0");
    let mut i = InstallReport {
        version: "1.0".to_string(),
        sync: report(),
        game_exe: Some("PGR.exe".to_string()),
    };
    assert_eq!(
        install_done(Game::Pgr, &i),
        "install complete — Punishing: Gray Raven v1.0 (game files) — exe: PGR.exe"
    );
    i.game_exe = None;
    assert_eq!(
        install_done(Game::WuWa, &i),
        "install complete — Wuthering Waves v1.0 (game files)"
    );
    assert_eq!(install_counts(&i), "installed v1.0: checked=5 ok=2 repaired=1 failed=2");
    assert_eq!(sync_counts(&i.sync), "checked=5 ok=2 repaired=1 failed=2");
}

#[test]
fn predownloads_are_told() {
    assert_eq!(predownload_done(&plan(0), "0.0"), "already up to date — nothing to download");
    assert_eq!(
        predownload_done(&plan(9), "1.5"),
        "predownload complete — 1.0 → 2.0 staged (1 groups, 0 files, 1.5 GiB)"
    );
    match predownload_started(&plan(9), "1.5") {
        ProgressEvent::Log(m) => assert_eq!(m, "predownload 1.0 → 2.0 (1 groups, 1.5 GiB)"),
        e => panic!("{e:?}"),
    }
    assert!(nothing_planned(&plan(0)).is_none());
    let said = nothing_planned(&GameManager::plan_nothing("1.0")).unwrap();
    assert!(matches!(&said[0], ProgressEvent::Log(m) if m == "already up to date"));
    assert!(matches!(said[1], ProgressEvent::Done));
}

#[test]
fn verification_is_told() {
    assert!(matches!(verify_started(3), ProgressEvent::Log(m) if m == "verifying 3 files…"));
    assert!(verify_progress(255, 900).is_none());
    assert!(matches!(
        verify_progress(512, 900),
        Some(ProgressEvent::FileProgress { bytes: 512, total: 900, .. })
    ));
    let mgr = GameManager {
        game_folder: "/g".to_string(),
        game: Game::WuWa,
        server: Server::Cn,
    };
    let item = |dest: &str, size: u64| ResourceItem {
        dest: dest.to_string(),
        md5: String::new(),
        size,
        from_folder: Some("own".to_string()),
        chunk_infos: vec![],
    };
    let index = |resource: Vec<ResourceItem>| PatchIndex {
        resource,
        delete_files: vec![],
        group_infos: vec![],
        apply_types: vec![],
    };
    let run = mgr.sync_inner_with_progress(index(vec![item("a", 5)]), "c", "b", &vec![true]);
    assert!(matches!(&run.verified_events("0.0")[0], ProgressEvent::Log(m) if m == "all 1 files ok"));
    let mut run = mgr.sync_inner_with_progress(
        index(vec![item("a", 5), item("/b", 6), item("c", 7)]),
        "http://c/",
        "b",
        &vec![false, true, false],
    );
    let said = run.verified_events("0.1");
    assert!(matches!(&said[0], ProgressEvent::Log(m) if m == "2 files need repair (0.1 GiB)"));
    assert!(matches!(said[1], ProgressEvent::SetTotal { bytes: 12 }));
    assert!(matches!(said[2], ProgressEvent::SetQueued { count: 2 }));
    let job = run.repair_job(1);
    assert_eq!(job.url, "http://c/own/c");
    assert_eq!(job.tmp, "/g/c.sync.tmp");
    assert!(matches!(run.on_repaired(1), ProgressEvent::GroupDone { bytes: 7, .. }));
    assert!(!run.is_settled());
    run.on_failed(0, &Error::NoCdnNode);
    assert!(run.is_settled());
    let done = run.finish(4);
    assert_eq!((done.checked, done.ok, done.repaired, done.repaired_bytes), (3, 1, 1, 7));
    assert_eq!(done.failed, vec!["no usable CDN node in cdnList"]);
    assert_eq!(done.orphans_removed, 4);
    assert!(!GameManager::sync_fits(
        &vec![item("a", u64::MAX), item("b", 1)],
        &vec![false, false]
    ));
}

#[test]
fn channels_are_toggled() {
    assert_eq!(other_channel(Server::Cn), Server::Bilibili);
    assert_eq!(other_channel(Server::Bilibili), Server::Cn);
    assert_eq!(other_channel(Server::Global), Server::Cn);
}

#[test]
fn command_line_is_understood() {
    assert!(matches!(
        parse_args(words(&["install", "pgr", "global", "/p"])),
        Cli::Install { game: Game::Pgr, server: Server::Global, folder } if folder == "/p"
    ));
    let misuse = |args: &[&str]| match cli_install(&words(args)) {
        Cli::Misused(m) => m,
        _ => "",
    };
    assert_eq!(misuse(&["install"]), "usage: kuro install <wuwa|pgr> <cn|bilibili|global> <folder>");
    assert_eq!(misuse(&["install", "wuwa", "mars"]), "bad server (cn|bilibili|global)");
    assert_eq!(misuse(&["install", "wuwa", "cn"]), "missing folder");
    assert!(matches!(parse_args(words(&["status", "/a"])), Cli::Status { folder } if folder == "/a"));
    assert!(matches!(
        parse_args(words(&["sync"])),
        Cli::Sync { folder } if folder.ends_with("/Wuthering Waves")
    ));
    assert!(matches!(parse_args(words(&["/a", "/b"])), Cli::Interface(l) if l.len() == 2));
    assert_eq!(interface_paths(words(&["/a"]), words(&["/b"])), vec!["/a"]);
    assert_eq!(interface_paths(vec![], words(&["/b"])), vec!["/b"]);
    assert_eq!(interface_paths(vec![], vec![]).len(), 1);
}

#[test]
fn status_is_told_on_the_command_line() {
    let mut s = GameStatus {
        game: Game::Pgr,
        server: Server::Global,
        local_version: Some("4.7\"0".to_string()),
        remote_version: "4.8.0".to_string(),
        update_available: true,
    };
    assert_eq!(
        status_words_of(&s),
        "game=punishing-gray-raven server=global local=Some(\"4.7\\\"0\") remote=4.8.0 update_available=true"
    );
    s.local_version = None;
    assert!(status_words_of(&s).contains(" local=None "));
    assert!(status_with(&s, "X").contains(" local=X "));
}

fn file(name: &str) -> Node {
    Node::File { name: name.to_string() }
}

fn folder(name: &str, entries: Vec<Node>) -> Node {
    Node::Folder { name: name.to_string(), entries }
}

#[test]
fn folders_are_walked_past_staging() {
    let tree = vec![
        folder("a", vec![file("x"), folder(".incremental_download", vec![file("y")])]),
        Node::Unreadable { name: ".incremental_download".to_string(), reason: "denied".to_string() },
        file("z"),
    ];
    assert_eq!(walk_files(&tree).unwrap(), vec!["a/x", "z"]);
    let tree = vec![folder(
        "a",
        vec![Node::Unreadable { name: "b".to_string(), reason: "denied".to_string() }],
    )];
    assert_eq!(walk_files(&tree).unwrap_err().to_string(), "patch error: orphan walk: denied");
}

#[test]
fn orphans_are_what_nobody_lists() {
    let item = |dest: &str| ResourceItem {
        dest: dest.to_string(),
        md5: String::new(),
        size: 0,
        from_folder: None,
        chunk_infos: vec![],
    };
    let files = words(&["a/b", "c\\d", "old", "x.TMP", "y.Bak", "launcherDownloadConfig.json", "sub/launcherDownloadConfig.json"]);
    assert_eq!(
        sweep_orphans(&vec![item("/a\\b"), item("c/d")], &files),
        vec!["old", "sub/launcherDownloadConfig.json"]
    );
    assert!(is_protected("A/B.TMP"));
    assert!(!is_protected("tmp"));
}

#[test]
fn hollow_folders_are_pruned_from_within() {
    let tree = vec![
        folder("a", vec![folder("b", vec![folder("c", vec![])]), folder("d", vec![file("f")])]),
        folder("e", vec![]),
        folder("g", vec![Node::Unreadable { name: "h".to_string(), reason: String::new() }]),
    ];
    assert_eq!(prune_empty_dirs(&tree), vec!["a/b/c", "a/b", "e"]);
}
