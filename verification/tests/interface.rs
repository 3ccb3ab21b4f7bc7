//! The interface: keys, messages and what is shown.

use kuro::area::{centered_parts, centered_rect, column_parts, columns, sections, Area, Part};
use kuro::config::{Game, Server};
use kuro::game::GameStatus;
use kuro::progress::ProgressEvent;
use kuro::screen::{
    bar_line, log_lines, shorten, size_unit, status_box_lines, ui, Bar, Screen, SizeUnit, Tint,
};
use kuro::steam::SteamInfo;
use kuro::ui::{friendly_error, Command, Focus, Key, UiState};
use kuro::ui_events::UiEvent;

fn steam() -> SteamInfo {
    SteamInfo {
        steam_root: "/s".to_string(),
        libraries: vec!["/s/steamapps".to_string()],
        protons: vec!["/s/compatibilitytools.d/GE-Proton9".to_string()],
    }
}

fn two_games() -> UiState {
    UiState::new(vec!["/g/WuWa".to_string(), "/g/PGR".to_string()], Some(steam()))
}

fn press(s: &mut UiState, keys: &str) -> Vec<String> {
    keys.chars().map(|c| format!("{:?}", s.handle_key(Key::Char(c)))).collect()
}

fn bar() -> Bar {
    Bar {
        filled: 17,
        percent: " 50.0".to_string(),
        done: "1 KiB".to_string(),
        total: "2 KiB".to_string(),
    }
}

fn show(s: &UiState) -> Screen {
    let n = match &s.task {
        Some(t) => t.files.len().min(8),
        None => 0,
    };
    ui(s, &bar(), &(0..n).map(|_| bar()).collect())
}

fn texts(lines: &[kuro::screen::TextLine]) -> Vec<&str> {
    lines.iter().map(|l| l.text.as_str()).collect()
}

#[test]
fn tab_goes_round_the_sections() {
    let mut s = two_games();
    let mut seen = vec![s.focus];
    for _ in 0..3 {
        s.handle_key(Key::Tab);
        seen.push(s.focus);
    }
    assert_eq!(seen, vec![Focus::Status, Focus::Task, Focus::Log, Focus::Status]);
}

#[test]
fn arrows_switch_games_and_ask_for_the_status() {
    let mut s = two_games();
    s.handle_event(UiEvent::Status(1, Err("x".to_string())));
    assert!(s.statuses[1].is_some());
    match s.handle_key(Key::Left) {
        Command::Status { path, idx } => assert_eq!((path.as_str(), idx), ("/g/PGR", 1)),
        c => panic!("{c:?}"),
    }
    assert_eq!(s.active, 1);
    assert!(s.statuses[1].is_none());
    assert_eq!(s.logs.last().unwrap(), "→ PGR (game 2/2)");
    s.handle_key(Key::Right);
    assert_eq!(s.active, 0);

    let mut one = UiState::new(vec!["/g".to_string()], None);
    assert!(matches!(one.handle_key(Key::Right), Command::Nothing));
    assert!(one.logs.is_empty());
}

#[test]
fn one_task_runs_at_a_time() {
    let mut s = two_games();
    assert!(matches!(s.handle_key(Key::Char('s')), Command::Sync { .. }));
    assert!(s.busy);
    assert_eq!(s.focus, Focus::Task);
    assert_eq!(s.task.as_ref().unwrap().kind, "sync");
    for key in ['s', 'd', 'a', 'c', 'r', 'i'] {
        assert!(matches!(s.handle_key(Key::Char(key)), Command::Nothing), "{key}");
    }
    assert!(s.install.is_none());
    s.handle_key(Key::Right);
    assert_eq!(s.active, 0);
    s.handle_event(UiEvent::TaskDone(Ok("done".to_string())));
    assert!(!s.busy);
    assert!(matches!(s.handle_key(Key::Char('d')), Command::Predownload { .. }));
    s.handle_event(UiEvent::Progress(ProgressEvent::Done));
    assert!(matches!(s.handle_key(Key::Char('a')), Command::Apply { .. }));
    s.handle_event(UiEvent::TaskDone(Err("checkout: x".to_string())));
    assert!(matches!(s.handle_key(Key::Char('c')), Command::Checkout { .. }));
    s.handle_event(UiEvent::TaskDone(Ok(String::new())));
    assert!(matches!(s.handle_key(Key::Char('r')), Command::Status { idx: 0, .. }));
}

#[test]
fn quitting() {
    let mut s = two_games();
    assert!(matches!(s.handle_key(Key::Char('q')), Command::Quit));
    assert!(matches!(s.handle_key(Key::Esc), Command::Quit));
    s.handle_key(Key::Char('?'));
    assert!(s.show_help);
    assert!(matches!(s.handle_key(Key::Esc), Command::Nothing));
    assert!(!s.show_help);
    s.handle_key(Key::Char('h'));
    assert!(matches!(s.handle_key(Key::Char('s')), Command::Nothing));
    assert!(!s.busy);
    assert!(matches!(s.handle_key(Key::Char('q')), Command::Quit));
}

#[test]
fn installation_dialog() {
    let mut s = two_games();
    press(&mut s, "i");
    assert_eq!(s.install.as_ref().unwrap().target, "/g/WuWa");
    press(&mut s, "pg");
    press(&mut s, "s");
    let draft = s.install.as_ref().unwrap();
    assert_eq!((draft.game, draft.server), (Game::Pgr, Server::Global));
    assert_eq!(draft.target, "/s/steamapps/common/Punishing Gray Raven");
    press(&mut s, "t");
    s.handle_key(Key::Backspace);
    press(&mut s, "qé");
    assert_eq!(
        s.install.as_ref().unwrap().target,
        "/s/steamapps/common/Punishing Gray Raveqé"
    );
    assert!(show(&s).overlay.unwrap().panel.lines[2].text.contains("EDITING"));
    s.handle_key(Key::Enter);
    assert!(!s.install.as_ref().unwrap().edit_target);
    match s.handle_key(Key::Enter) {
        Command::Install { game, server, target } => {
            assert_eq!((game, server), (Game::Pgr, Server::Global));
            assert!(target.ends_with("Raveqé"));
        }
        c => panic!("{c:?}"),
    }
    assert!(s.busy);
    assert!(s.install.is_none());
    assert_eq!(s.task.as_ref().unwrap().kind, "install");
    assert_eq!(s.focus, Focus::Status);
    assert_eq!(
        s.logs.last().unwrap(),
        "installing Punishing: Gray Raven (global) into /s/steamapps/common/Punishing Gray Raveqé"
    );
}

#[test]
fn installation_dialog_can_be_left() {
    let mut s = UiState::new(vec!["/g".to_string()], None);
    press(&mut s, "i");
    press(&mut s, "s");
    assert_eq!(s.install.as_ref().unwrap().target, "/g");
    press(&mut s, "cbw");
    assert_eq!(s.install.as_ref().unwrap().server, Server::Bilibili);
    s.handle_key(Key::Esc);
    assert!(s.install.is_none());
}

#[test]
fn log_scrolls_where_it_has_the_keys() {
    let mut s = two_games();
    s.handle_key(Key::Up);
    assert_eq!(s.log_scroll, 0);
    s.focus = Focus::Log;
    s.handle_key(Key::PageUp);
    s.handle_key(Key::Up);
    assert_eq!(s.log_scroll, 11);
    s.handle_key(Key::PageDown);
    s.handle_key(Key::Down);
    s.handle_key(Key::Down);
    assert_eq!(s.log_scroll, 0);
    s.log_scroll = usize::MAX;
    s.handle_key(Key::Up);
    assert_eq!(s.log_scroll, usize::MAX);
}

#[test]
fn log_keeps_the_newest_lines() {
    let mut s = two_games();
    for i in 0..250 {
        s.handle_event(UiEvent::Progress(ProgressEvent::Log(format!("line {i}"))));
    }
    assert_eq!(s.logs.len(), 200);
    assert_eq!(s.logs[0], "line 50");
    let lines = log_lines(&s.logs, 0);
    assert_eq!(lines.len(), 60);
    assert_eq!(lines[0].text, "line 249");
    assert_eq!(log_lines(&s.logs, 5)[0].text, "line 244");
    let end = log_lines(&s.logs, 10_000);
    assert_eq!(texts(&end), vec!["line 50"]);
    assert!(log_lines(&vec![], 3).is_empty());
}

fn ok_status(local: Option<&str>) -> GameStatus {
    GameStatus {
        game: Game::WuWa,
        server: Server::Cn,
        local_version: local.map(|v| v.to_string()),
        remote_version: "3.6.0".to_string(),
        update_available: local != Some("3.6.0"),
    }
}

#[test]
fn statuses_are_logged_and_shown() {
    let mut s = two_games();
    s.handle_event(UiEvent::Status(0, Ok(ok_status(Some("3.6.0")))));
    assert_eq!(
        s.logs[0],
        "status: Wuthering Waves (cn) — local 3.6.0, remote 3.6.0 · up to date"
    );
    s.handle_event(UiEvent::Status(1, Ok(ok_status(None))));
    assert_eq!(
        s.logs[1],
        "status: Wuthering Waves (cn) — local not installed, remote 3.6.0 · update available"
    );
    s.handle_event(UiEvent::Status(9, Err("launcher config not found".to_string())));
    assert_eq!(
        s.logs[2],
        "status error: no game found in this folder (launcherDownloadConfig.json missing)"
    );
    let screen = show(&s);
    assert_eq!(screen.statuses[0].title, "▶ WuWa");
    assert_eq!(screen.statuses[0].border, Tint::Yellow);
    assert_eq!(screen.statuses[1].title, "PGR");
    assert_eq!(screen.statuses[1].border, Tint::Unset);
    assert_eq!(
        texts(&screen.statuses[0].lines),
        vec!["game:    wuthering-waves", "server:  cn", "local:   3.6.0", "remote:  3.6.0", "up to date"]
    );
    assert_eq!(texts(&screen.statuses[1].lines)[4], "UPDATE AVAILABLE");
    assert_eq!(
        screen.footer,
        "Tab: focus  ←/→: game (1/2) | r: refresh  s: sync  h: help  q: quit"
    );
    s.handle_key(Key::Char('s'));
    let screen = show(&s);
    assert_eq!(texts(&screen.statuses[0].lines)[4], "updating…");
    assert_eq!(texts(&screen.statuses[1].lines)[4], "UPDATE AVAILABLE");
    assert_eq!(screen.statuses[0].border, Tint::Cyan);
    assert!(screen.footer.ends_with("   [busy]"));
    assert_eq!(status_box_lines(&None, false)[0].text, "loading...");
    assert_eq!(status_box_lines(&Some(Err("boom".to_string())), true)[0].text, "error: boom");
}

#[test]
fn progress_moves_the_task() {
    let mut s = two_games();
    assert_eq!(texts(&show(&s).task.lines), vec!["idle"]);
    s.handle_event(UiEvent::Progress(ProgressEvent::SetQueued { count: 9 }));
    assert!(s.task.is_none());
    s.handle_key(Key::Char('s'));
    let send = |s: &mut UiState, p: ProgressEvent| s.handle_event(UiEvent::Progress(p));
    let file = |n: &str, b: u64| ProgressEvent::FileProgress { name: n.to_string(), bytes: b, total: 10 };
    send(&mut s, file("verify", 256));
    send(&mut s, ProgressEvent::SetTotal { bytes: 100 });
    assert!(s.task.as_ref().unwrap().files.is_empty());
    send(&mut s, ProgressEvent::SetQueued { count: 2 });
    send(&mut s, ProgressEvent::GroupStart { name: "a".to_string() });
    send(&mut s, file("a", 1));
    send(&mut s, file("b", 2));
    send(&mut s, file("a", 3));
    {
        let t = s.task.as_ref().unwrap();
        let rows: Vec<(String, u64)> = t.files.iter().map(|f| (f.name.clone(), f.done)).collect();
        assert_eq!(rows, vec![("a".to_string(), 3), ("b".to_string(), 2)]);
        assert_eq!(t.queued, 3);
    }
    let screen = show(&s);
    assert_eq!(texts(&screen.task.lines)[1], "files done: 0   queued: 3");
    assert!(screen.task.lines[2].text.starts_with("[█████████████████░░░░░░░░░░░░░░░░░]  50.0%  1 KiB/2 KiB  overall"));
    assert!(screen.task.lines[3].text.starts_with("  [█████████████████░░░░░░░]  50.0%"));
    send(&mut s, ProgressEvent::GroupDone { name: "a".to_string(), bytes: 10 });
    let t = s.task.as_ref().unwrap();
    assert_eq!((t.done, t.done_bytes, t.queued, t.files.len()), (1, 10, 2, 1));
    send(&mut s, ProgressEvent::Done);
    assert!(!s.busy);
    let screen = show(&s);
    let last = screen.task.lines.last().unwrap();
    assert_eq!(last.text, "✔ download complete — press 'a' to apply");
    assert_eq!(last.tint, Tint::Green);
    s.handle_event(UiEvent::TaskDone(Err("missing required field `patchConfig entry for local version`".to_string())));
    let screen = show(&s);
    let last = screen.task.lines.last().unwrap();
    assert_eq!(last.text, "✘ already on the latest version — nothing to do");
    assert_eq!(last.tint, Tint::Red);
    assert_eq!(s.logs.last().unwrap(), "failed: already on the latest version — nothing to do");
}

#[test]
fn at_most_eight_files_are_shown() {
    let mut s = two_games();
    s.handle_key(Key::Char('s'));
    for i in 0..12 {
        s.handle_event(UiEvent::Progress(ProgressEvent::FileProgress {
            name: format!("f{i}"),
            bytes: 0,
            total: 0,
        }));
    }
    let screen = show(&s);
    assert_eq!(screen.task.lines.len(), 2 + 8);
    assert_eq!(screen.task.lines[9].text, "  f7: ?");
}

#[test]
fn overlays() {
    let mut s = UiState::new(vec!["/g".to_string()], Some(steam()));
    let screen = show(&s);
    assert_eq!(screen.statuses.len(), 1);
    assert_eq!(screen.statuses[0].title, "status");
    assert!(screen.footer.starts_with("Tab: focus | r: refresh"));
    press(&mut s, "i");
    let o = show(&s).overlay.unwrap();
    assert_eq!((o.panel.title.as_str(), o.percent_x, o.percent_y, o.wrap), ("install", 75, 55, true));
    assert_eq!(o.panel.lines[8].text, "  Steam: /s  Proton: GE-Proton9");
    assert_eq!(o.panel.lines[10].tint, Tint::Cyan);
    s.steam = None;
    let o = show(&s).overlay.unwrap();
    assert_eq!(o.panel.lines[7].text, "  Steam: not detected — type the target with [t]");
    s.show_help = true;
    let o = show(&s).overlay.unwrap();
    assert_eq!((o.panel.title.as_str(), o.percent_x, o.percent_y, o.wrap), ("help", 70, 60, false));
    assert_eq!(o.panel.lines.len(), 22);
}

#[test]
fn errors_are_put_kindly() {
    let friendly = vec![
        ("patch error: checkout: no channel files could be swapped", "checkout isn't possible for this server — its channel files aren't in the manifest; your install is unchanged"),
        ("missing required field `.incremental_download — run predownload first`", "no downloaded update found — press 'd' first to download it"),
        ("unimplemented: global fast-switch is not supported", "the global server can't be fast-switched — use 's' to sync instead"),
        ("already up to date", "already up to date"),
        ("other", "other"),
    ];
    for (raw, said) in friendly {
        assert_eq!(friendly_error(raw), said);
        assert_eq!(friendly_error(said), said);
    }
}

#[test]
fn bars_and_names() {
    assert_eq!(bar_line("x", 0, 5, &bar()), "x: ?");
    let mut b = bar();
    b.filled = 2;
    assert_eq!(bar_line("x", 9, 5, &b), "[██░░░]  50.0%  1 KiB/2 KiB  x");
    b.filled = 9;
    assert_eq!(bar_line("x", 9, 5, &b), "[█████]  50.0%  1 KiB/2 KiB  x");
    assert_eq!(shorten("abcdef", 6), "abcdef");
    assert_eq!(shorten("abcdef", 4), "…def");
    assert_eq!(shorten("äöüß", 1), "…");
    assert_eq!(size_unit((1 << 20) - 1), SizeUnit::KiB);
    assert_eq!(size_unit(1 << 20), SizeUnit::MiB);
    assert_eq!(size_unit(1 << 30), SizeUnit::GiB);
}

#[test]
fn areas_of_the_screen() {
    let screen = Area { x: 0, y: 0, width: 100, height: 50 };
    let rows = sections(screen);
    assert_eq!(rows.len(), 5);
    assert!(rows.iter().all(|r| r.x == 0 && r.width == 100));
    assert_eq!((rows[0].y, rows[0].height), (0, 3));
    assert_eq!((rows[1].y, rows[1].height), (3, 9));
    let cols = columns(rows[1], 2);
    assert_eq!(cols.len(), 2);
    assert_eq!((cols[0].x, cols[0].width, cols[0].height), (0, 50, 9));
    assert_eq!((cols[1].x, cols[1].width), (50, 50));
    assert_eq!(column_parts(3), vec![Part::Ratio(1, 3); 3]);
    assert_eq!(
        centered_parts(55),
        vec![Part::Percentage(22), Part::Percentage(55), Part::Percentage(22)]
    );
    let middle = centered_rect(70, 60, screen);
    assert_eq!(middle, Area { x: 15, y: 10, width: 70, height: 30 });
}

#[test]
fn sections_lie_one_under_the_other() {
    for y in [0u16, 7] {
        for height in 0..140u16 {
            let screen = Area { x: 2, y, width: 80, height };
            let rows = sections(screen);
            assert_eq!(rows.len(), 5);
            let mut at = y;
            for row in &rows {
                assert_eq!(row.y, at, "height {height}");
                assert_eq!((row.x, row.width), (2, 80));
                at += row.height;
            }
            assert!(at <= y + height);
            if height >= 31 {
                let task = (45 * height as u32 + 50) / 100;
                let heights: Vec<u32> = rows.iter().map(|r| r.height as u32).collect();
                assert_eq!(heights, vec![3, 9, task, height as u32 - 13 - task, 1]);
            }
        }
    }
}

#[test]
fn games_share_the_width() {
    for n in 1..13u32 {
        for width in 0..160u16 {
            let section = Area { x: 5, y: 1, width, height: 9 };
            let cols = columns(section, n);
            assert_eq!(cols.len(), n as usize);
            let mut at = 5;
            for col in &cols {
                assert_eq!((col.x, col.y, col.height), (at, 1, 9));
                let scaled = n as i64 * col.width as i64;
                assert!((scaled - width as i64).abs() < n as i64, "{n} of {width}");
                at += col.width;
            }
            assert_eq!(at, 5 + width);
        }
    }
    let cols = columns(Area { x: 0, y: 0, width: 80, height: 9 }, 3);
    let widths: Vec<u16> = cols.iter().map(|c| c.width).collect();
    assert_eq!(widths, vec![27, 26, 27]);
}

#[test]
fn what_is_centred_has_its_percentage() {
    for percent in 0..=100u16 {
        for size in [0u16, 1, 2, 9, 24, 37, 50, 80, 119, 250] {
            let whole = Area { x: 3, y: 4, width: size, height: size };
            let side = (100 - percent as u32) / 2;
            let from = (side * size as u32 + 50) / 100;
            let to = ((side + percent as u32) * size as u32 + 50) / 100;
            let r = centered_rect(percent, percent, whole);
            assert_eq!((r.x as u32, r.width as u32), (3 + from, to - from), "{percent} of {size}");
            assert_eq!((r.y as u32, r.height as u32), (4 + from, to - from));
        }
    }
}
