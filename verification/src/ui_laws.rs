//! What holds of the interface, whatever keys are pressed and whatever messages come.

use vstd::prelude::*;

use crate::game::GameStatusView;
use crate::progress::ProgressEventView;
use crate::steam::SteamInfoView;
use crate::text;
use crate::ui;
use crate::ui::{CommandView, Focus, Key, UiView};
use crate::ui_events;
use crate::ui_events::UiEventView;

verus! {

/// An interface starts well formed where there is a game to manage.
pub proof fn law_opening_is_well_formed(paths: Seq<Seq<char>>, steam: Option<SteamInfoView>)
    requires
        0 < paths.len() <= usize::MAX,
    ensures
        ui::opening(paths, steam).wf(),
{
}

/// Every key keeps the interface well formed: there is an active game, there is a status for each
/// game, and the log never has more lines than its limit.
pub proof fn law_keys_keep_well_formed(s: UiView, key: Key)
    requires
        s.wf(),
    ensures
        ui::on_key(s, key).0.wf(),
        ui::on_key(s, key).0.paths == s.paths,
{
    vstd::arithmetic::div_mod::lemma_mod_bound(s.active + 1, s.paths.len() as int);
    vstd::arithmetic::div_mod::lemma_mod_bound(
        s.active + s.paths.len() - 1,
        s.paths.len() as int,
    );
}

/// Every message keeps the interface well formed.
pub proof fn law_events_keep_well_formed(s: UiView, event: UiEventView)
    requires
        s.wf(),
    ensures
        ui_events::on_event(s, event).wf(),
        ui_events::on_event(s, event).paths == s.paths,
        ui_events::on_event(s, event).active == s.active,
{
}

/// One task runs at a time: a key starts a task only while none is running, and one is running
/// then.
pub proof fn law_one_task_at_a_time(s: UiView, key: Key)
    requires
        ui::on_key(s, key).1.starts_task(),
    ensures
        !s.busy,
        ui::on_key(s, key).0.busy,
        ui::on_key(s, key).0.task is Some,
        ui::on_key(s, key).0.task->0.finished is None,
{
}

/// While a task is running no key changes which game is active, nor the task.
pub proof fn law_busy_keys_leave_task(s: UiView, key: Key)
    requires
        s.busy,
    ensures
        ui::on_key(s, key).0.busy,
        ui::on_key(s, key).0.task == s.task,
        ui::on_key(s, key).0.active == s.active,
{
}

/// The end of a task frees the interface for the next one, and is shown.
pub proof fn law_task_end_frees(s: UiView, r: Result<Seq<char>, Seq<char>>)
    ensures
        ({
            let after = ui_events::on_event(s, UiEventView::TaskDone(r));
            &&& !after.busy
            &&& s.task is Some ==> after.task is Some && after.task->0.finished == Some(r)
        }),
{
}

/// A new log line is the newest one, and of those before it as many stay as there is room for.
pub proof fn law_log_keeps_newest(logs: Seq<Seq<char>>, line: Seq<char>, k: int)
    requires
        0 <= k < logs.len(),
        k < ui::LOG_LIMIT - 1,
    ensures
        ({
            let after = ui::logged(logs, line);
            &&& after.len() <= ui::LOG_LIMIT
            &&& after.last() == line
            &&& k + 1 < after.len()
            &&& after[after.len() - 2 - k] == logs[logs.len() - 1 - k]
        }),
{
}

/// Three times `Tab` leads back to the section that it started from.
pub proof fn law_tab_cycles(focus: Focus)
    ensures
        ui::next_focus(ui::next_focus(ui::next_focus(focus))) == focus,
        ui::next_focus(focus) != focus,
        ui::next_focus(ui::next_focus(focus)) != focus,
{
}

/// To the next game and back again is the game that it started from, and the other way round.
pub proof fn law_switch_and_back(s: UiView, forward: bool)
    requires
        s.wf(),
    ensures
        ui::switched(ui::switched(s, forward).0, !forward).0.active == s.active,
{
    if s.paths.len() >= 2 && !s.busy {
        ui::lemma_neighbour(s.active as int, s.paths.len() as int, forward);
        let there = ui::neighbour(s.active as int, s.paths.len() as int, forward);
        ui::lemma_neighbour(there, s.paths.len() as int, !forward);
    }
}

/// A switch goes to another game wherever there is one and no task is running, and asks for its
/// status.
pub proof fn law_switch_moves(s: UiView, forward: bool)
    requires
        s.wf(),
        s.paths.len() >= 2,
        !s.busy,
    ensures
        ({
            let (after, command) = ui::switched(s, forward);
            &&& after.active != s.active
            &&& command == CommandView::Status {
                path: s.paths[after.active as int],
                idx: after.active,
            }
            &&& after.statuses[after.active as int] is None
        }),
{
    ui::lemma_neighbour(s.active as int, s.paths.len() as int, forward);
}

/// Scrolling up and down again shows the same lines.
pub proof fn law_scroll_and_back(s: UiView)
    requires
        s.log_scroll < usize::MAX - ui::PAGE,
        !s.show_help,
        s.install is None,
    ensures
        ui::on_key(ui::on_key(s, Key::Up).0, Key::Down).0 == s,
        ui::on_key(ui::on_key(s, Key::PageUp).0, Key::PageDown).0 == s,
{
}

/// While the help is open only the keys that close it, or leave the program, do anything.
pub proof fn law_help_takes_keys(s: UiView, key: Key)
    requires
        s.show_help,
    ensures
        ui::on_key(s, key).0 == (UiView { show_help: ui::on_key(s, key).0.show_help, ..s }),
        !ui::on_key(s, key).0.show_help <==> key == Key::Char('h') || key == Key::Char('?') || key
            == Key::Esc,
        ui::on_key(s, key).1 is Quit <==> key == Key::Char('q'),
        ui::on_key(s, key).1 is Quit || ui::on_key(s, key).1 is Nothing,
{
}

/// A status goes to the game that it is of, and to no other.
pub proof fn law_status_goes_to_its_game(
    s: UiView,
    idx: usize,
    status: Result<GameStatusView, Seq<char>>,
    i: int,
)
    requires
        s.wf(),
        0 <= i < s.statuses.len(),
    ensures
        ui_events::on_event(s, UiEventView::Status(idx, status)).statuses[i] == if i == idx {
            Some(status)
        } else {
            s.statuses[i]
        },
{
}

/// A file that is dealt with is no longer among those that are being fetched.
pub proof fn law_done_files_leave(
    files: Seq<ui::FileStateView>,
    name: Seq<char>,
    i: int,
)
    requires
        0 <= i < ui_events::without(files, name).len(),
    ensures
        ui_events::without(files, name)[i].name != name,
    decreases files.len(),
{
    if files.len() > 0 {
        let before = ui_events::without(files.drop_last(), name);
        if i < before.len() {
            law_done_files_leave(files.drop_last(), name, i);
        }
    }
}

/// Progress of a task never starts or ends it, but for the message that says that it is done.
pub proof fn law_progress_keeps_busy(s: UiView, p: ProgressEventView)
    ensures
        ui_events::on_event(s, UiEventView::Progress(p)).busy == (s.busy && !(p is Done)),
{
}

proof fn lemma_checkout_text_stays()
    ensures
        ui::friendly("checkout isn't possible for this server — its channel files aren't in the manifest; your install is unchanged"@) == "checkout isn't possible for this server — its channel files aren't in the manifest; your install is unchanged"@,
{
    let s = "checkout isn't possible for this server — its channel files aren't in the manifest; your install is unchanged"@;
    reveal_strlit("checkout isn't possible for this server — its channel files aren't in the manifest; your install is unchanged");
    assert(forall|k: int| 0 <= k < s.len() ==> #[trigger] s[k] != 'w');
    assert(forall|k: int| 0 <= k < s.len() ==> #[trigger] s[k] != ':');
    assert(forall|k: int| 0 <= k < s.len() ==> #[trigger] s[k] != 'C');
    assert(!text::has_text(s, "no channel files could be swapped"@)) by {
        reveal_strlit("no channel files could be swapped");
        text::lemma_lacks_char(s, "no channel files could be swapped"@, 27);
    }
    assert(!text::has_text(s, "checkout:"@)) by {
        reveal_strlit("checkout:");
        text::lemma_lacks_char(s, "checkout:"@, 8);
    }
    assert(!text::has_text(s, "patchConfig entry"@)) by {
        reveal_strlit("patchConfig entry");
        text::lemma_lacks_char(s, "patchConfig entry"@, 5);
    }
    assert(!text::has_text(s, "run predownload first"@)) by {
        reveal_strlit("run predownload first");
        text::lemma_lacks_char(s, "run predownload first"@, 9);
    }
    assert(!text::has_text(s, "incremental_download"@)) by {
        reveal_strlit("incremental_download");
        text::lemma_lacks_char(s, "incremental_download"@, 14);
    }
    assert(!text::has_text(s, "NoLocalConfig"@)) by {
        reveal_strlit("NoLocalConfig");
        text::lemma_lacks_char(s, "NoLocalConfig"@, 7);
    }
    assert(!text::has_text(s, "launcher config not found"@)) by {
        reveal_strlit("launcher config not found");
        text::lemma_lacks_pair(s, "launcher config not found"@, 0);
    }
    assert(!text::has_text(s, "global fast-switch"@)) by {
        reveal_strlit("global fast-switch");
        text::lemma_lacks_char(s, "global fast-switch"@, 13);
    }
    assert(!text::has_text(s, "already up to date"@)) by {
        reveal_strlit("already up to date");
        text::lemma_lacks_pair(s, "already up to date"@, 1);
    }
}

proof fn lemma_latest_text_stays()
    ensures
        ui::friendly("already on the latest version — nothing to do"@) == "already on the latest version — nothing to do"@,
{
    let s = "already on the latest version — nothing to do"@;
    reveal_strlit("already on the latest version — nothing to do");
    assert(forall|k: int| 0 <= k < s.len() ==> #[trigger] s[k] != 'c');
    assert(forall|k: int| 0 <= k < s.len() ==> #[trigger] s[k] != 'u');
    assert(!text::has_text(s, "no channel files could be swapped"@)) by {
        reveal_strlit("no channel files could be swapped");
        text::lemma_lacks_char(s, "no channel files could be swapped"@, 3);
    }
    assert(!text::has_text(s, "checkout:"@)) by {
        reveal_strlit("checkout:");
        text::lemma_lacks_char(s, "checkout:"@, 0);
    }
    assert(!text::has_text(s, "patchConfig entry"@)) by {
        reveal_strlit("patchConfig entry");
        text::lemma_lacks_char(s, "patchConfig entry"@, 3);
    }
    assert(!text::has_text(s, "run predownload first"@)) by {
        reveal_strlit("run predownload first");
        text::lemma_lacks_char(s, "run predownload first"@, 1);
    }
    assert(!text::has_text(s, "incremental_download"@)) by {
        reveal_strlit("incremental_download");
        text::lemma_lacks_char(s, "incremental_download"@, 2);
    }
    assert(!text::has_text(s, "NoLocalConfig"@)) by {
        reveal_strlit("NoLocalConfig");
        text::lemma_lacks_char(s, "NoLocalConfig"@, 4);
    }
    assert(!text::has_text(s, "launcher config not found"@)) by {
        reveal_strlit("launcher config not found");
        text::lemma_lacks_char(s, "launcher config not found"@, 2);
    }
    assert(!text::has_text(s, "global fast-switch"@)) by {
        reveal_strlit("global fast-switch");
        text::lemma_lacks_char(s, "global fast-switch"@, 16);
    }
    assert(!text::has_text(s, "already up to date"@)) by {
        reveal_strlit("already up to date");
        text::lemma_lacks_char(s, "already up to date"@, 8);
    }
}

proof fn lemma_staging_text_stays()
    ensures
        ui::friendly("no downloaded update found — press 'd' first to download it"@) == "no downloaded update found — press 'd' first to download it"@,
{
    let s = "no downloaded update found — press 'd' first to download it"@;
    reveal_strlit("no downloaded update found — press 'd' first to download it");
    assert(forall|k: int| 0 <= k < s.len() ==> #[trigger] s[k] != 'c');
    assert(forall|k: int| 0 <= k < s.len() ==> #[trigger] s[k] != 'y');
    assert(!text::has_text(s, "no channel files could be swapped"@)) by {
        reveal_strlit("no channel files could be swapped");
        text::lemma_lacks_char(s, "no channel files could be swapped"@, 3);
    }
    assert(!text::has_text(s, "checkout:"@)) by {
        reveal_strlit("checkout:");
        text::lemma_lacks_char(s, "checkout:"@, 0);
    }
    assert(!text::has_text(s, "patchConfig entry"@)) by {
        reveal_strlit("patchConfig entry");
        text::lemma_lacks_char(s, "patchConfig entry"@, 3);
    }
    assert(!text::has_text(s, "run predownload first"@)) by {
        reveal_strlit("run predownload first");
        text::lemma_lacks_pair(s, "run predownload first"@, 0);
    }
    assert(!text::has_text(s, "incremental_download"@)) by {
        reveal_strlit("incremental_download");
        text::lemma_lacks_char(s, "incremental_download"@, 2);
    }
    assert(!text::has_text(s, "NoLocalConfig"@)) by {
        reveal_strlit("NoLocalConfig");
        text::lemma_lacks_char(s, "NoLocalConfig"@, 4);
    }
    assert(!text::has_text(s, "launcher config not found"@)) by {
        reveal_strlit("launcher config not found");
        text::lemma_lacks_char(s, "launcher config not found"@, 4);
    }
    assert(!text::has_text(s, "global fast-switch"@)) by {
        reveal_strlit("global fast-switch");
        text::lemma_lacks_char(s, "global fast-switch"@, 16);
    }
    assert(!text::has_text(s, "already up to date"@)) by {
        reveal_strlit("already up to date");
        text::lemma_lacks_char(s, "already up to date"@, 6);
    }
}

proof fn lemma_folder_text_stays()
    ensures
        ui::friendly("no game found in this folder (launcherDownloadConfig.json missing)"@) == "no game found in this folder (launcherDownloadConfig.json missing)"@,
{
    let s = "no game found in this folder (launcherDownloadConfig.json missing)"@;
    reveal_strlit("no game found in this folder (launcherDownloadConfig.json missing)");
    assert(forall|k: int| 0 <= k < s.len() ==> #[trigger] s[k] != 'b');
    assert(forall|k: int| 0 <= k < s.len() ==> #[trigger] s[k] != 'k');
    assert(forall|k: int| 0 <= k < s.len() ==> #[trigger] s[k] != 'p');
    assert(forall|k: int| 0 <= k < s.len() ==> #[trigger] s[k] != '_');
    assert(forall|k: int| 0 <= k < s.len() ==> #[trigger] s[k] != 'N');
    assert(!text::has_text(s, "no channel files could be swapped"@)) by {
        reveal_strlit("no channel files could be swapped");
        text::lemma_lacks_char(s, "no channel files could be swapped"@, 23);
    }
    assert(!text::has_text(s, "checkout:"@)) by {
        reveal_strlit("checkout:");
        text::lemma_lacks_char(s, "checkout:"@, 4);
    }
    assert(!text::has_text(s, "patchConfig entry"@)) by {
        reveal_strlit("patchConfig entry");
        text::lemma_lacks_char(s, "patchConfig entry"@, 0);
    }
    assert(!text::has_text(s, "run predownload first"@)) by {
        reveal_strlit("run predownload first");
        text::lemma_lacks_char(s, "run predownload first"@, 4);
    }
    assert(!text::has_text(s, "incremental_download"@)) by {
        reveal_strlit("incremental_download");
        text::lemma_lacks_char(s, "incremental_download"@, 11);
    }
    assert(!text::has_text(s, "NoLocalConfig"@)) by {
        reveal_strlit("NoLocalConfig");
        text::lemma_lacks_char(s, "NoLocalConfig"@, 0);
    }
    assert(!text::has_text(s, "launcher config not found"@)) by {
        reveal_strlit("launcher config not found");
        text::lemma_lacks_pair(s, "launcher config not found"@, 8);
    }
    assert(!text::has_text(s, "global fast-switch"@)) by {
        reveal_strlit("global fast-switch");
        text::lemma_lacks_char(s, "global fast-switch"@, 3);
    }
    assert(!text::has_text(s, "already up to date"@)) by {
        reveal_strlit("already up to date");
        text::lemma_lacks_char(s, "already up to date"@, 9);
    }
}

proof fn lemma_global_text_stays()
    ensures
        ui::friendly("the global server can't be fast-switched — use 's' to sync instead"@) == "the global server can't be fast-switched — use 's' to sync instead"@,
{
    let s = "the global server can't be fast-switched — use 's' to sync instead"@;
    reveal_strlit("the global server can't be fast-switched — use 's' to sync instead");
    assert(forall|k: int| 0 <= k < s.len() ==> #[trigger] s[k] != 'p');
    assert(forall|k: int| 0 <= k < s.len() ==> #[trigger] s[k] != 'k');
    assert(forall|k: int| 0 <= k < s.len() ==> #[trigger] s[k] != 'm');
    assert(forall|k: int| 0 <= k < s.len() ==> #[trigger] s[k] != 'N');
    assert(!text::has_text(s, "no channel files could be swapped"@)) by {
        reveal_strlit("no channel files could be swapped");
        text::lemma_lacks_char(s, "no channel files could be swapped"@, 29);
    }
    assert(!text::has_text(s, "checkout:"@)) by {
        reveal_strlit("checkout:");
        text::lemma_lacks_char(s, "checkout:"@, 4);
    }
    assert(!text::has_text(s, "patchConfig entry"@)) by {
        reveal_strlit("patchConfig entry");
        text::lemma_lacks_char(s, "patchConfig entry"@, 0);
    }
    assert(!text::has_text(s, "run predownload first"@)) by {
        reveal_strlit("run predownload first");
        text::lemma_lacks_char(s, "run predownload first"@, 4);
    }
    assert(!text::has_text(s, "incremental_download"@)) by {
        reveal_strlit("incremental_download");
        text::lemma_lacks_char(s, "incremental_download"@, 5);
    }
    assert(!text::has_text(s, "NoLocalConfig"@)) by {
        reveal_strlit("NoLocalConfig");
        text::lemma_lacks_char(s, "NoLocalConfig"@, 0);
    }
    assert(!text::has_text(s, "launcher config not found"@)) by {
        reveal_strlit("launcher config not found");
        text::lemma_lacks_pair(s, "launcher config not found"@, 0);
    }
    assert(!text::has_text(s, "already up to date"@)) by {
        reveal_strlit("already up to date");
        text::lemma_lacks_char(s, "already up to date"@, 9);
    }
}

proof fn lemma_current_text_stays()
    ensures
        ui::friendly("already up to date"@) == "already up to date"@,
{
    let s = "already up to date"@;
    reveal_strlit("already up to date");
    assert(forall|k: int| 0 <= k < s.len() ==> #[trigger] s[k] != 'n');
    assert(forall|k: int| 0 <= k < s.len() ==> #[trigger] s[k] != 'c');
    assert(!text::has_text(s, "no channel files could be swapped"@)) by {
        reveal_strlit("no channel files could be swapped");
        text::lemma_lacks_char(s, "no channel files could be swapped"@, 0);
    }
    assert(!text::has_text(s, "checkout:"@)) by {
        reveal_strlit("checkout:");
        text::lemma_lacks_char(s, "checkout:"@, 0);
    }
    assert(!text::has_text(s, "patchConfig entry"@)) by {
        reveal_strlit("patchConfig entry");
        text::lemma_lacks_char(s, "patchConfig entry"@, 7);
    }
    assert(!text::has_text(s, "run predownload first"@)) by {
        reveal_strlit("run predownload first");
        text::lemma_lacks_char(s, "run predownload first"@, 2);
    }
    assert(!text::has_text(s, "incremental_download"@)) by {
        reveal_strlit("incremental_download");
        text::lemma_lacks_char(s, "incremental_download"@, 1);
    }
    assert(!text::has_text(s, "NoLocalConfig"@)) by {
        reveal_strlit("NoLocalConfig");
        text::lemma_lacks_char(s, "NoLocalConfig"@, 9);
    }
    assert(!text::has_text(s, "launcher config not found"@)) by {
        reveal_strlit("launcher config not found");
        text::lemma_lacks_char(s, "launcher config not found"@, 3);
    }
    assert(!text::has_text(s, "global fast-switch"@)) by {
        reveal_strlit("global fast-switch");
        text::lemma_lacks_char(s, "global fast-switch"@, 16);
    }
}

/// An error that was put for people once stays as it is: putting it so twice is the same as once.
pub proof fn law_friendly_twice_is_once(raw: Seq<char>)
    ensures
        ui::friendly(ui::friendly(raw)) == ui::friendly(raw),
{
    lemma_checkout_text_stays();
    lemma_latest_text_stays();
    lemma_staging_text_stays();
    lemma_folder_text_stays();
    lemma_global_text_stays();
    lemma_current_text_stays();
}

}
