//! What each key does.

use vstd::prelude::*;

use crate::config::{Game, Server};
use crate::paths;
use crate::steam::SteamInfoView;
use crate::text;
use crate::ui;
use crate::ui::{CommandView, DraftView, Focus, Key, TaskView, UiView};

verus! {

/// Whether nothing lies over the sections.
pub open spec fn is_open(s: UiView) -> bool {
    !s.show_help && s.install is None
}

/// Whether a task is of a kind and has only just started.
pub open spec fn is_fresh(task: Option<TaskView>, kind: Seq<char>) -> bool {
    &&& task is Some
    &&& task->0.kind == kind
    &&& task->0.done == 0
    &&& task->0.queued == 0
    &&& task->0.finished is None
    &&& task->0.total_bytes == 0
    &&& task->0.done_bytes == 0
    &&& task->0.files.len() == 0
}

/// Whether a key started a task: it is marked as running, it is shown, and nothing else changed.
pub open spec fn has_started(s: UiView, after: UiView, kind: Seq<char>) -> bool {
    &&& is_fresh(after.task, kind)
    &&& after == (UiView { busy: true, task: after.task, focus: Focus::Task, ..s })
}

/// The keys `d`, `a`, `s` and `c` start a predownload, an update, a repair and a switch of the channel
/// for the active game; while a task is running they do nothing.
pub proof fn law_task_keys(s: UiView)
    requires
        is_open(s),
    ensures
        s.busy ==> ui::on_key(s, Key::Char('d')) == (s, CommandView::Nothing) && ui::on_key(
            s,
            Key::Char('a'),
        ) == (s, CommandView::Nothing) && ui::on_key(s, Key::Char('s')) == (
            s,
            CommandView::Nothing,
        ) && ui::on_key(s, Key::Char('c')) == (s, CommandView::Nothing),
        !s.busy ==> has_started(s, ui::on_key(s, Key::Char('d')).0, "predownload"@) && ui::on_key(
            s,
            Key::Char('d'),
        ).1 == (CommandView::Predownload { path: s.paths[s.active as int] }),
        !s.busy ==> has_started(s, ui::on_key(s, Key::Char('a')).0, "apply"@) && ui::on_key(
            s,
            Key::Char('a'),
        ).1 == (CommandView::Apply { path: s.paths[s.active as int] }),
        !s.busy ==> has_started(s, ui::on_key(s, Key::Char('s')).0, "sync"@) && ui::on_key(
            s,
            Key::Char('s'),
        ).1 == (CommandView::Sync { path: s.paths[s.active as int] }),
        !s.busy ==> has_started(s, ui::on_key(s, Key::Char('c')).0, "checkout"@) && ui::on_key(
            s,
            Key::Char('c'),
        ).1 == (CommandView::Checkout { path: s.paths[s.active as int] }),
{
}

/// The keys that leave, open the help, open the installation dialog, go to the next section and look up
/// the status of the active game.
pub proof fn law_other_keys(s: UiView)
    requires
        is_open(s),
    ensures
        ui::on_key(s, Key::Char('q')) == (s, CommandView::Quit),
        ui::on_key(s, Key::Esc) == (s, CommandView::Quit),
        ui::on_key(s, Key::Char('h')) == (UiView { show_help: true, ..s }, CommandView::Nothing),
        ui::on_key(s, Key::Char('?')) == (UiView { show_help: true, ..s }, CommandView::Nothing),
        s.busy ==> ui::on_key(s, Key::Char('i')) == (s, CommandView::Nothing),
        !s.busy ==> ui::on_key(s, Key::Char('i')) == (
            UiView {
                install: Some(
                    DraftView {
                        game: Game::WuWa,
                        server: Server::Cn,
                        target: s.paths[s.active as int],
                        edit_target: false,
                    },
                ),
                ..s
            },
            CommandView::Nothing,
        ),
        s.busy ==> ui::on_key(s, Key::Char('r')) == (s, CommandView::Nothing),
        !s.busy ==> ui::on_key(s, Key::Char('r')) == (
            s,
            CommandView::Status { path: s.paths[s.active as int], idx: s.active },
        ),
        s.focus == Focus::Status ==> ui::on_key(s, Key::Tab) == (
            UiView { focus: Focus::Task, ..s },
            CommandView::Nothing,
        ),
        s.focus == Focus::Task ==> ui::on_key(s, Key::Tab) == (
            UiView { focus: Focus::Log, ..s },
            CommandView::Nothing,
        ),
        s.focus == Focus::Log ==> ui::on_key(s, Key::Tab) == (
            UiView { focus: Focus::Status, ..s },
            CommandView::Nothing,
        ),
        ui::on_key(s, Key::Other) == (s, CommandView::Nothing),
        ui::on_key(s, Key::Enter) == (s, CommandView::Nothing),
        ui::on_key(s, Key::Backspace) == (s, CommandView::Nothing),
{
}

/// A character without a meaning does nothing.
pub proof fn law_unknown_characters(s: UiView, c: char)
    requires
        is_open(s),
        c != 'q',
        c != 'h',
        c != '?',
        c != 'i',
        c != 'r',
        c != 'd',
        c != 'a',
        c != 's',
        c != 'c',
    ensures
        ui::on_key(s, Key::Char(c)) == (s, CommandView::Nothing),
{
}

/// The arrows lead to the next and to the previous game, round and round; its status is forgotten and
/// looked up again, and the log says so.
pub proof fn law_arrow_keys(s: UiView)
    requires
        is_open(s),
        s.wf(),
    ensures
        s.busy || s.paths.len() < 2 ==> ui::on_key(s, Key::Left) == (s, CommandView::Nothing)
            && ui::on_key(s, Key::Right) == (s, CommandView::Nothing),
        !s.busy && s.paths.len() >= 2 ==> {
            let to: int = if s.active + 1 == s.paths.len() { 0 } else { s.active + 1 };
            let (after, command) = ui::on_key(s, Key::Right);
            &&& after.active == to
            &&& command == (CommandView::Status { path: s.paths[to], idx: to as usize })
            &&& after.statuses == s.statuses.update(to, None)
            &&& after.logs == ui::logged(
                s.logs,
                "→ "@ + text::last_segment(s.paths[to]) + " (game "@ + text::decimal(
                    (to + 1) as nat,
                ) + "/"@ + text::decimal(s.paths.len()) + ")"@,
            )
        },
        !s.busy && s.paths.len() >= 2 ==> {
            let to: int = if s.active == 0 { s.paths.len() - 1 } else { s.active - 1 };
            let (after, command) = ui::on_key(s, Key::Left);
            &&& after.active == to
            &&& command == (CommandView::Status { path: s.paths[to], idx: to as usize })
            &&& after.statuses == s.statuses.update(to, None)
        },
{
    ui::lemma_neighbour(s.active as int, s.paths.len() as int, true);
    ui::lemma_neighbour(s.active as int, s.paths.len() as int, false);
}

/// Where the keys go to the log, the arrows scroll it by one line and the page keys by ten, not below
/// its end; elsewhere they do nothing.
pub proof fn law_scroll_keys(s: UiView)
    requires
        is_open(s),
        s.log_scroll <= usize::MAX - 10,
    ensures
        s.focus != Focus::Log ==> ui::on_key(s, Key::Up) == (s, CommandView::Nothing) && ui::on_key(
            s,
            Key::Down,
        ) == (s, CommandView::Nothing) && ui::on_key(s, Key::PageUp) == (s, CommandView::Nothing)
            && ui::on_key(s, Key::PageDown) == (s, CommandView::Nothing),
        s.focus == Focus::Log ==> ui::on_key(s, Key::Up) == (
            UiView { log_scroll: (s.log_scroll + 1) as usize, ..s },
            CommandView::Nothing,
        ),
        s.focus == Focus::Log ==> ui::on_key(s, Key::PageUp) == (
            UiView { log_scroll: (s.log_scroll + 10) as usize, ..s },
            CommandView::Nothing,
        ),
        s.focus == Focus::Log && s.log_scroll >= 1 ==> ui::on_key(s, Key::Down).0.log_scroll
            == s.log_scroll - 1,
        s.focus == Focus::Log && s.log_scroll == 0 ==> ui::on_key(s, Key::Down).0.log_scroll == 0,
        s.focus == Focus::Log && s.log_scroll >= 10 ==> ui::on_key(s, Key::PageDown).0.log_scroll
            == s.log_scroll - 10,
        s.focus == Focus::Log && s.log_scroll < 10 ==> ui::on_key(s, Key::PageDown).0.log_scroll == 0,
{
}

/// In the installation dialog a key chooses the game, the server, the folder of Steam, or to type the
/// folder.
pub proof fn law_dialog_keys(s: UiView, d: DraftView)
    requires
        !s.show_help,
        s.install == Some(d),
        !d.edit_target,
    ensures
        ui::on_key(s, Key::Char('w')).0.install == Some(DraftView { game: Game::WuWa, ..d }),
        ui::on_key(s, Key::Char('p')).0.install == Some(DraftView { game: Game::Pgr, ..d }),
        ui::on_key(s, Key::Char('c')).0.install == Some(DraftView { server: Server::Cn, ..d }),
        ui::on_key(s, Key::Char('b')).0.install == Some(DraftView { server: Server::Bilibili, ..d }),
        ui::on_key(s, Key::Char('g')).0.install == Some(DraftView { server: Server::Global, ..d }),
        ui::on_key(s, Key::Char('t')).0.install == Some(DraftView { edit_target: true, ..d }),
        ui::on_key(s, Key::Esc) == (UiView { install: None, ..s }, CommandView::Nothing),
        s.steam is None ==> ui::on_key(s, Key::Char('s')).0.install == Some(d),
        s.steam is Some && s.steam->0.libraries.len() > 0 ==> ui::on_key(
            s,
            Key::Char('s'),
        ).0.install == Some(
            DraftView {
                target: paths::joined(
                    paths::joined(s.steam->0.libraries[0], "common"@),
                    if d.game == Game::WuWa {
                        "Wuthering Waves"@
                    } else {
                        "Punishing Gray Raven"@
                    },
                ),
                ..d
            },
        ),
{
}

/// The dialog starts an installation of what was chosen, says so, and closes; while a task is running
/// it only closes.
pub proof fn law_dialog_installs(s: UiView, d: DraftView)
    requires
        !s.show_help,
        s.install == Some(d),
        !d.edit_target,
    ensures
        s.busy ==> ui::on_key(s, Key::Enter) == (
            UiView { install: None, ..s },
            CommandView::Nothing,
        ),
        !s.busy ==> {
            let (after, command) = ui::on_key(s, Key::Enter);
            &&& command == (CommandView::Install {
                game: d.game,
                server: d.server,
                target: d.target,
            })
            &&& after.busy
            &&& after.install is None
            &&& is_fresh(after.task, "install"@)
            &&& after.focus == s.focus
            &&& after.logs == ui::logged(
                s.logs,
                "installing "@ + (if d.game == Game::WuWa {
                    "Wuthering Waves"@
                } else {
                    "Punishing: Gray Raven"@
                }) + " ("@ + (match d.server {
                    Server::Cn => "cn"@,
                    Server::Bilibili => "bilibili"@,
                    Server::Global => "global"@,
                }) + ") into "@ + d.target,
            )
        },
{
}

/// While the folder is typed a character is added to it, the backspace takes the last one away, and the
/// dialog goes on after enter and escape; nothing else changes.
pub proof fn law_typing_keys(s: UiView, d: DraftView, c: char)
    requires
        !s.show_help,
        s.install == Some(d),
        d.edit_target,
    ensures
        ui::on_key(s, Key::Char(c)) == (
            UiView { install: Some(DraftView { target: d.target.push(c), ..d }), ..s },
            CommandView::Nothing,
        ),
        d.target.len() > 0 ==> ui::on_key(s, Key::Backspace) == (
            UiView { install: Some(DraftView { target: d.target.drop_last(), ..d }), ..s },
            CommandView::Nothing,
        ),
        d.target.len() == 0 ==> ui::on_key(s, Key::Backspace) == (s, CommandView::Nothing),
        ui::on_key(s, Key::Enter) == (
            UiView { install: Some(DraftView { edit_target: false, ..d }), ..s },
            CommandView::Nothing,
        ),
        ui::on_key(s, Key::Esc) == (
            UiView { install: Some(DraftView { edit_target: false, ..d }), ..s },
            CommandView::Nothing,
        ),
        ui::on_key(s, Key::Tab) == (s, CommandView::Nothing),
{
}

/// The log holds the newest two hundred lines.
pub proof fn law_log_holds_two_hundred(logs: Seq<Seq<char>>, line: Seq<char>)
    ensures
        ui::logged(logs, line).last() == line,
        logs.len() < 200 ==> ui::logged(logs, line) == logs.push(line),
        logs.len() >= 200 ==> ui::logged(logs, line).len() == 200 && ui::logged(
            logs,
            line,
        ).drop_last() == logs.skip(logs.len() - 199),
{
    if logs.len() >= 200 {
        assert(ui::logged(logs, line).drop_last() =~= logs.skip(logs.len() - 199));
    }
}

/// An interface opens on the first game, with the status section, an empty log, no task and nothing
/// known of the games.
pub proof fn law_opening(games: Seq<Seq<char>>, steam: Option<SteamInfoView>, i: int)
    requires
        0 <= i < games.len(),
    ensures
        ({
            let s = ui::opening(games, steam);
            &&& s.paths == games
            &&& s.steam == steam
            &&& s.active == 0
            &&& s.focus == Focus::Status
            &&& s.logs.len() == 0
            &&& s.task is None
            &&& !s.busy
            &&& s.log_scroll == 0
            &&& s.install is None
            &&& !s.show_help
            &&& s.statuses.len() == games.len()
            &&& s.statuses[i] is None
        }),
{
}

}
