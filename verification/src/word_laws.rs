//! What is said: of failures, of statuses and of the words of the command line.

use vstd::prelude::*;

use crate::config::{Game, Server};
use crate::error;
use crate::error::ErrorView;
use crate::game::{GameStatus, GameStatusView};
use crate::messages;
use crate::messages::CliView;
use crate::progress::ProgressEventView;
use crate::sync::SyncReport;
use crate::text;
use crate::ui;
use crate::ui::{FileStateView, TaskView, UiView};
use crate::ui_events;
use crate::ui_events::UiEventView;

verus! {

/// The name of a game on the command line.
pub open spec fn short_name(game: Game) -> Seq<char> {
    if game == Game::WuWa {
        "wuthering-waves"@
    } else {
        "punishing-gray-raven"@
    }
}

/// The name of a game for people.
pub open spec fn long_name(game: Game) -> Seq<char> {
    if game == Game::WuWa {
        "Wuthering Waves"@
    } else {
        "Punishing: Gray Raven"@
    }
}

/// The name of a channel.
pub open spec fn channel_name(server: Server) -> Seq<char> {
    if server == Server::Cn {
        "cn"@
    } else if server == Server::Bilibili {
        "bilibili"@
    } else {
        "global"@
    }
}

/// What is said of each failure.
pub proof fn law_failure_texts(s: Seq<char>, path: Seq<char>, expected: Seq<char>, actual: Seq<char>)
    ensures
        error::error_text(ErrorView::Http(s)) == "HTTP request failed: "@ + s,
        error::error_text(ErrorView::Json(s)) == "JSON parse failed: "@ + s,
        error::error_text(ErrorView::Io(s)) == "I/O error: "@ + s,
        error::error_text(ErrorView::NoCdnNode) == "no usable CDN node in cdnList"@,
        error::error_text(ErrorView::MissingField(s)) == "missing required field `"@ + s + "`"@,
        error::error_text(ErrorView::NoLocalConfig(s)) == "local launcher config not found at "@ + s
            + "; run with --path or set up the game first"@,
        error::error_text(ErrorView::UnknownAppId(s)) == "unknown appId `"@ + s
            + "` — cannot map to a known game/server"@,
        error::error_text(ErrorView::ChecksumMismatch { path, expected, actual })
            == "checksum mismatch for "@ + path + ": expected "@ + expected + ", got "@ + actual,
        error::error_text(ErrorView::Patch(s)) == "patch error: "@ + s,
        error::error_text(ErrorView::Unimplemented(s)) == "unimplemented: "@ + s,
        error::error_text(ErrorView::TokenMissing(s)) == s,
{
}

/// What people are told of a failure: for each known one its sentence, and any other as it is.
pub proof fn law_friendly_texts(raw: Seq<char>)
    ensures
        ({
            let swap = text::has_text(raw, "no channel files could be swapped"@) || text::has_text(
                raw,
                "checkout:"@,
            );
            let latest = text::has_text(raw, "patchConfig entry"@);
            let staging = text::has_text(raw, "run predownload first"@) || text::has_text(
                raw,
                "incremental_download"@,
            );
            let config = text::has_text(raw, "NoLocalConfig"@) || text::has_text(
                raw,
                "launcher config not found"@,
            );
            let global = text::has_text(raw, "global fast-switch"@);
            let current = text::has_text(raw, "already up to date"@);
            &&& swap ==> ui::friendly(raw)
                == "checkout isn't possible for this server — its channel files aren't in the manifest; your install is unchanged"@
            &&& !swap && latest ==> ui::friendly(raw)
                == "already on the latest version — nothing to do"@
            &&& !swap && !latest && staging ==> ui::friendly(raw)
                == "no downloaded update found — press 'd' first to download it"@
            &&& !swap && !latest && !staging && config ==> ui::friendly(raw)
                == "no game found in this folder (launcherDownloadConfig.json missing)"@
            &&& !swap && !latest && !staging && !config && global ==> ui::friendly(raw)
                == "the global server can't be fast-switched — use 's' to sync instead"@
            &&& !swap && !latest && !staging && !config && !global && current ==> ui::friendly(raw)
                == "already up to date"@
            &&& !swap && !latest && !staging && !config && !global && !current ==> ui::friendly(raw)
                == raw
        }),
{
}

/// The log tells of a status: the game, the channel, the installed version, the one on the server, and
/// whether there is an update.
pub proof fn law_status_is_told(g: GameStatusView, e: Seq<char>)
    ensures
        ui_events::status_line(Ok(g)) == "status: "@ + long_name(g.game) + " ("@ + channel_name(
            g.server,
        ) + ") — local "@ + (if g.local_version is Some {
            g.local_version->0
        } else {
            "not installed"@
        }) + ", remote "@ + g.remote_version + " · "@ + (if g.update_available {
            "update available"@
        } else {
            "up to date"@
        }),
        ui_events::status_line(Err(e)) == "status error: "@ + ui::friendly(e),
{
}

/// The command line tells of a status in the same terms.
pub proof fn law_status_words(status: GameStatus, local: Seq<char>)
    ensures
        messages::status_words(status, local) == "game="@ + short_name(status.game) + " server="@
            + channel_name(status.server) + " local="@ + local + " remote="@
            + status.remote_version@ + " update_available="@ + (if status.update_available {
            "true"@
        } else {
            "false"@
        }),
{
}

/// The command line tells how many files were checked, were sound, were repaired and could not be.
pub proof fn law_counts_words(report: SyncReport)
    ensures
        messages::counts_text(report) == "checked="@ + text::decimal(report.checked as nat)
            + " ok="@ + text::decimal(report.ok as nat) + " repaired="@ + text::decimal(
            report.repaired as nat,
        ) + " failed="@ + text::decimal(report.failed@.len()),
        messages::channel_after(Server::Cn) == Server::Bilibili,
        messages::channel_after(Server::Bilibili) == Server::Cn,
        messages::channel_after(Server::Global) == Server::Cn,
{
}

/// The first word of the command line decides what is asked for; without a known one it names folders.
pub proof fn law_first_word_decides(args: Seq<Seq<char>>)
    ensures
        messages::asked(args) is Status <==> args.len() > 0 && args[0] == "status"@,
        messages::asked(args) is Sync <==> args.len() > 0 && args[0] == "sync"@,
        messages::asked(args) is Interface <==> args.len() == 0 || (args[0] != "status"@ && args[0]
            != "sync"@ && args[0] != "install"@),
        messages::asked(args) is Interface ==> messages::asked(args)->Interface_0 == args,
        messages::asked(args) is Status && args.len() > 1 ==> messages::asked(args)->Status_folder
            == args[1],
        messages::asked(args) is Sync && args.len() > 1 ==> messages::asked(args)->Sync_folder
            == args[1],
        messages::asked(args) is Status && args.len() == 1 ==> messages::asked(args)->Status_folder
            == "/home/vedaru/.local/share/Steam/steamapps/common/Wuthering Waves"@,
        messages::asked(args) is Sync && args.len() == 1 ==> messages::asked(args)->Sync_folder
            == "/home/vedaru/.local/share/Steam/steamapps/common/Wuthering Waves"@,
{
    reveal_strlit("install");
    reveal_strlit("status");
    reveal_strlit("sync");
    assert("install"@.len() == 7 && "status"@.len() == 6 && "sync"@.len() == 4);
}

/// An installation is asked for by a known game, a known server and a folder, in this order; the first
/// of them that is amiss is told.
pub proof fn law_install_words(args: Seq<Seq<char>>)
    requires
        args.len() > 0,
        args[0] == "install"@,
    ensures
        ({
            let game = args.len() > 1 && (args[1] == "wuwa"@ || args[1] == "pgr"@);
            let server = args.len() > 2 && (args[2] == "cn"@ || args[2] == "bilibili"@ || args[2]
                == "global"@);
            let r = messages::asked(args);
            &&& !game ==> r == CliView::Misused(
                "usage: kuro install <wuwa|pgr> <cn|bilibili|global> <folder>"@,
            )
            &&& game && !server ==> r == CliView::Misused("bad server (cn|bilibili|global)"@)
            &&& game && server && args.len() == 3 ==> r == CliView::Misused("missing folder"@)
            &&& game && server && args.len() > 3 ==> {
                &&& r is Install
                &&& r->Install_folder == args[3]
                &&& args[1] == "wuwa"@ <==> r->Install_game == Game::WuWa
                &&& args[2] == "cn"@ <==> r->Install_server == Server::Cn
                &&& args[2] == "bilibili"@ <==> r->Install_server == Server::Bilibili
                &&& args[2] == "global"@ <==> r->Install_server == Server::Global
            }
        }),
{
    reveal_strlit("wuwa");
    reveal_strlit("pgr");
    reveal_strlit("cn");
    reveal_strlit("bilibili");
    reveal_strlit("global");
    assert("wuwa"@.len() == 4 && "pgr"@.len() == 3);
    assert("cn"@.len() == 2 && "bilibili"@.len() == 8 && "global"@.len() == 6);
}

/// The files that are being fetched without those of a name are all others, in their order.
pub proof fn law_finished_files_go(files: Seq<FileStateView>, name: Seq<char>)
    ensures
        ui_events::without(files, name) == files.filter(|f: FileStateView| f.name != name),
    decreases files.len(),
{
    reveal(Seq::filter);
    if files.len() > 0 {
        law_finished_files_go(files.drop_last(), name);
    }
}

/// The progress of a file replaces what was known of the first file of its name; of a name that is new
/// it is added at the end.
pub proof fn law_progress_of_a_file(files: Seq<FileStateView>, file: FileStateView, i: int)
    ensures
        0 <= i < files.len() && files[i].name == file.name && (forall|j: int|
            0 <= j < i ==> (#[trigger] files[j]).name != file.name) ==> ui_events::with_progress(
            files,
            file,
        ) == files.update(i, file),
        (forall|j: int| 0 <= j < files.len() ==> (#[trigger] files[j]).name != file.name)
            ==> ui_events::with_progress(files, file) == files.push(file),
{
    if 0 <= i < files.len() && files[i].name == file.name && (forall|j: int|
        0 <= j < i ==> (#[trigger] files[j]).name != file.name) {
        lemma_first(files, file.name, 0, i);
    }
    if forall|j: int| 0 <= j < files.len() ==> (#[trigger] files[j]).name != file.name {
        lemma_first(files, file.name, 0, files.len() as int);
    }
}

proof fn lemma_first(files: Seq<FileStateView>, name: Seq<char>, i: int, k: int)
    requires
        0 <= i <= k <= files.len(),
        forall|j: int| i <= j < k ==> (#[trigger] files[j]).name != name,
        k < files.len() ==> files[k].name == name,
    ensures
        ui_events::first_named(files, name, i) == k,
    decreases k - i,
{
    if i < k {
        lemma_first(files, name, i + 1, k);
    }
}

/// What each message of a running task does to its counts, as long as they fit.
pub proof fn law_task_counts(t: TaskView, name: Seq<char>, bytes: u64, total: u64, count: usize)
    requires
        t.done < usize::MAX,
        t.queued < usize::MAX,
        t.done_bytes + bytes <= u64::MAX,
    ensures
        ui_events::task_after(t, ProgressEventView::SetTotal { bytes }) == (TaskView {
            total_bytes: bytes,
            files: Seq::empty(),
            ..t
        }),
        ui_events::task_after(t, ProgressEventView::SetQueued { count }) == (TaskView {
            queued: count,
            ..t
        }),
        ui_events::task_after(t, ProgressEventView::GroupStart { name }) == (TaskView {
            queued: (t.queued + 1) as usize,
            ..t
        }),
        ui_events::task_after(t, ProgressEventView::FileProgress { name, bytes, total }) == (
        TaskView {
            files: ui_events::with_progress(t.files, FileStateView { name, done: bytes, total }),
            ..t
        }),
        ({
            let after = ui_events::task_after(t, ProgressEventView::GroupDone { name, bytes });
            &&& after.done == t.done + 1
            &&& after.done_bytes == t.done_bytes + bytes
            &&& t.queued > 0 ==> after.queued == t.queued - 1
            &&& t.queued == 0 ==> after.queued == 0
            &&& after.files == t.files.filter(|f: FileStateView| f.name != name)
            &&& after.kind == t.kind
            &&& after.total_bytes == t.total_bytes
            &&& after.finished == t.finished
        }),
        ui_events::task_after(t, ProgressEventView::Log(name)) == t,
        ui_events::task_after(t, ProgressEventView::Done) == (TaskView {
            finished: Some(Ok("download complete — press 'a' to apply"@)),
            ..t
        }),
{
    law_finished_files_go(t.files, name);
}

/// What a message does to the interface: a status is told and kept; a line of a task is told; other
/// progress goes to the task; the end of a task is told, in the words for people where it failed.
pub proof fn law_messages_are_taken_up(
    s: UiView,
    idx: usize,
    status: Result<GameStatusView, Seq<char>>,
    p: ProgressEventView,
    line: Seq<char>,
)
    ensures
        ({
            let after = ui_events::on_event(s, UiEventView::Status(idx, status));
            &&& after.logs == ui::logged(s.logs, ui_events::status_line(status))
            &&& idx < s.statuses.len() ==> after.statuses == s.statuses.update(
                idx as int,
                Some(status),
            )
            &&& idx >= s.statuses.len() ==> after.statuses == s.statuses
            &&& after.task == s.task
            &&& after.busy == s.busy
        }),
        ui_events::on_event(s, UiEventView::Progress(ProgressEventView::Log(line))) == (UiView {
            logs: ui::logged(s.logs, line),
            ..s
        }),
        !(p is Log) && s.task is Some ==> ui_events::on_event(s, UiEventView::Progress(p)).task
            == Some(ui_events::task_after(s.task->0, p)),
        !(p is Log) ==> ui_events::on_event(s, UiEventView::Progress(p)).logs == s.logs,
        s.task is None ==> ui_events::on_event(s, UiEventView::Progress(p)).task is None,
        ui_events::on_event(s, UiEventView::TaskDone(Ok(line))).logs == ui::logged(s.logs, line),
        ui_events::on_event(s, UiEventView::TaskDone(Err(line))).logs == ui::logged(
            s.logs,
            "failed: "@ + ui::friendly(line),
        ),
{
}

}
