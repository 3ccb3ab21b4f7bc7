//! What is said of finished tasks, on the screen and on the command line.

use vstd::prelude::*;

use crate::apply::ApplyReport;
use crate::checkout::CheckoutReport;
use crate::config;
use crate::config::{Game, Server};
use crate::game::GameStatus;
use crate::install::InstallReport;
use crate::predownload::PredownloadPlan;
use crate::progress::{ProgressEvent, ProgressEventView};
use crate::sync::SyncReport;
use crate::text;
use crate::ui;

verus! {

/// The channel that a game is switched to from another one.
pub open spec fn channel_after(server: Server) -> Server {
    match server {
        Server::Cn => Server::Bilibili,
        _ => Server::Cn,
    }
}

/// The channel that a game is switched to from another one.
pub fn other_channel(server: Server) -> (r: Server)
    ensures
        r == channel_after(server),
{
    match server {
        Server::Cn => Server::Bilibili,
        _ => Server::Cn,
    }
}

/// Switching between the two channels twice leads back, and never to the global one.
pub proof fn law_channel_switch_and_back(server: Server)
    ensures
        channel_after(server) != Server::Global,
        server != Server::Global ==> channel_after(channel_after(server)) == server,
{
}

/// What is said when a predownload starts. `gib` is the text of the number of bytes in GiB.
pub fn predownload_started(plan: &PredownloadPlan, gib: &str) -> (r: ProgressEvent)
    ensures
        r.deep_view() == ProgressEventView::Log(
            "predownload "@ + plan.from_version@ + " → "@ + plan.to_version@ + " ("@
                + text::decimal(plan.patch_groups@.len()) + " groups, "@ + gib@ + " GiB)"@,
        ),
{
    let groups = text::number(plan.patch_groups.len() as u64);
    ProgressEvent::Log(
        "predownload ".to_owned().concat(plan.from_version.as_str()).concat(" → ").concat(
            plan.to_version.as_str(),
        ).concat(" (").concat(groups.as_str()).concat(" groups, ").concat(gib).concat(" GiB)"),
    )
}

/// Whether a plan holds nothing to fetch; then that is said, and the predownload is done.
pub fn nothing_planned(plan: &PredownloadPlan) -> (r: Option<Vec<ProgressEvent>>)
    ensures
        match r {
            Some(said) => plan.patch_groups@.len() == 0 && plan.full_files@.len() == 0
                && said.deep_view() == seq![
                ProgressEventView::Log("already up to date"@),
                ProgressEventView::Done,
            ],
            None => plan.patch_groups@.len() > 0 || plan.full_files@.len() > 0,
        },
{
    if plan.patch_groups.len() == 0 && plan.full_files.len() == 0 {
        let said = vec![
            ProgressEvent::Log("already up to date".to_owned()),
            ProgressEvent::Done,
        ];
        assert(said.deep_view() =~= seq![
            ProgressEventView::Log("already up to date"@),
            ProgressEventView::Done,
        ]);
        Some(said)
    } else {
        None
    }
}

/// What is said when a predownload is done. `gib` is the text of the number of bytes in GiB.
pub fn predownload_done(plan: &PredownloadPlan, gib: &str) -> (r: String)
    ensures
        r@ == if plan.total_bytes == 0 {
            "already up to date — nothing to download"@
        } else {
            "predownload complete — "@ + plan.from_version@ + " → "@ + plan.to_version@
                + " staged ("@ + text::decimal(plan.patch_groups@.len()) + " groups, "@
                + text::decimal(plan.full_files@.len()) + " files, "@ + gib@ + " GiB)"@
        },
{
    if plan.total_bytes == 0 {
        return "already up to date — nothing to download".to_owned();
    }
    let groups = text::number(plan.patch_groups.len() as u64);
    let files = text::number(plan.full_files.len() as u64);
    "predownload complete — ".to_owned().concat(plan.from_version.as_str()).concat(" → ").concat(
        plan.to_version.as_str(),
    ).concat(" staged (").concat(groups.as_str()).concat(" groups, ").concat(
        files.as_str(),
    ).concat(" files, ").concat(gib).concat(" GiB)")
}

/// What is said when a game is installed.
pub fn install_done(game: Game, report: &InstallReport) -> (r: String)
    ensures
        r@ == "install complete — "@ + ui::pretty_name(game) + " v"@ + report.version@
            + " (game files)"@ + match report.game_exe {
            Some(exe) => " — exe: "@ + exe@,
            None => Seq::empty(),
        },
{
    let said = "install complete — ".to_owned().concat(ui::pretty_game(game)).concat(" v").concat(
        report.version.as_str(),
    ).concat(" (game files)");
    match &report.game_exe {
        Some(exe) => {
            let tail = " — exe: ".to_owned().concat(exe.as_str());
            said.concat(tail.as_str())
        },
        None => {
            assert(said@ + Seq::<char>::empty() =~= said@);
            said
        },
    }
}

/// What is said when an update is applied.
pub fn apply_done(report: &ApplyReport) -> (r: String)
    ensures
        r@ == "apply complete — merged "@ + text::decimal(report.merged as nat) + ", skipped "@
            + text::decimal(report.skipped as nat) + ", fallback "@ + text::decimal(
            report.fallback as nat,
        ) + ", swapped "@ + text::decimal(report.swapped as nat) + ", deleted "@ + text::decimal(
            report.deleted@.len(),
        ),
{
    let merged = text::number(report.merged as u64);
    let skipped = text::number(report.skipped as u64);
    let fallback = text::number(report.fallback as u64);
    let swapped = text::number(report.swapped as u64);
    let deleted = text::number(report.deleted.len() as u64);
    "apply complete — merged ".to_owned().concat(merged.as_str()).concat(", skipped ").concat(
        skipped.as_str(),
    ).concat(", fallback ").concat(fallback.as_str()).concat(", swapped ").concat(
        swapped.as_str(),
    ).concat(", deleted ").concat(deleted.as_str())
}

/// What is said when a game is repaired. `gib` is the text of the number of repaired bytes in GiB.
pub fn sync_done(report: &SyncReport, gib: &str) -> (r: String)
    ensures
        r@ == "sync complete — "@ + text::decimal(report.repaired as nat) + " repaired ("@ + gib@
            + " GiB), "@ + text::decimal(report.ok as nat) + " ok"@ + if report.failed@.len()
            == 0 {
            Seq::empty()
        } else {
            ", "@ + text::decimal(report.failed@.len()) + " failed"@
        },
{
    let repaired = text::number(report.repaired as u64);
    let ok = text::number(report.ok as u64);
    let said = "sync complete — ".to_owned().concat(repaired.as_str()).concat(
        " repaired (",
    ).concat(gib).concat(" GiB), ").concat(ok.as_str()).concat(" ok");
    if report.failed.len() == 0 {
        assert(said@ + Seq::<char>::empty() =~= said@);
        said
    } else {
        let failed = text::number(report.failed.len() as u64);
        let tail = ", ".to_owned().concat(failed.as_str()).concat(" failed");
        said.concat(tail.as_str())
    }
}

/// What is said when the channel is switched.
pub fn checkout_done(report: &CheckoutReport) -> (r: String)
    ensures
        r@ == "checkout complete — "@ + config::server_name(report.from_server) + " → "@
            + config::server_name(report.to_server) + ", "@ + text::decimal(
            report.swapped_files as nat,
        ) + " files swapped, now v"@ + report.new_version@,
{
    let from = report.from_server.to_string();
    let to = report.to_server.to_string();
    let swapped = text::number(report.swapped_files as u64);
    "checkout complete — ".to_owned().concat(from.as_str()).concat(" → ").concat(
        to.as_str(),
    ).concat(", ").concat(swapped.as_str()).concat(" files swapped, now v").concat(
        report.new_version.as_str(),
    )
}

/// The counts of a repair, for the command line.
pub open spec fn counts_text(report: SyncReport) -> Seq<char> {
    "checked="@ + text::decimal(report.checked as nat) + " ok="@ + text::decimal(report.ok as nat)
        + " repaired="@ + text::decimal(report.repaired as nat) + " failed="@ + text::decimal(
        report.failed@.len(),
    )
}

/// What the command line says of a repair.
pub fn sync_counts(report: &SyncReport) -> (r: String)
    ensures
        r@ == counts_text(*report),
{
    let checked = text::number(report.checked as u64);
    let ok = text::number(report.ok as u64);
    let repaired = text::number(report.repaired as u64);
    let failed = text::number(report.failed.len() as u64);
    "checked=".to_owned().concat(checked.as_str()).concat(" ok=").concat(ok.as_str()).concat(
        " repaired=",
    ).concat(repaired.as_str()).concat(" failed=").concat(failed.as_str())
}

/// What the command line says of an installation.
pub fn install_counts(report: &InstallReport) -> (r: String)
    ensures
        r@ == "installed v"@ + report.version@ + ": "@ + counts_text(report.sync),
{
    let counts = sync_counts(&report.sync);
    "installed v".to_owned().concat(report.version.as_str()).concat(": ").concat(counts.as_str())
}

/// The name for what the `Debug` format of std writes of a version that may be missing.
pub uninterp spec fn quoted(version: Option<Seq<char>>) -> Seq<char>;

/// Calls `format!` with the `Debug` format of an `Option<String>`. Claimed is only that the text
/// depends on nothing but the version; how std quotes and escapes it is left unsaid.
#[verifier::external_body]
fn quote(version: &Option<String>) -> (r: String)
    ensures
        r@ == quoted(version.deep_view()),
{
    format!("{:?}", version)
}

/// What the command line says of a status, around the quoted local version.
pub open spec fn status_words(status: GameStatus, local: Seq<char>) -> Seq<char> {
    "game="@ + config::game_name(status.game) + " server="@ + config::server_name(status.server)
        + " local="@ + local + " remote="@ + status.remote_version@ + " update_available="@ + if
    status.update_available {
        "true"@
    } else {
        "false"@
    }
}

/// What the command line says of a status, around the quoted local version.
pub fn status_with(status: &GameStatus, local: &str) -> (r: String)
    ensures
        r@ == status_words(*status, local@),
{
    let game = status.game.to_string();
    let server = status.server.to_string();
    "game=".to_owned().concat(game.as_str()).concat(" server=").concat(server.as_str()).concat(
        " local=",
    ).concat(local).concat(" remote=").concat(status.remote_version.as_str()).concat(
        " update_available=",
    ).concat(
        if status.update_available {
            "true"
        } else {
            "false"
        },
    )
}

/// What the command line says of a status.
pub fn status_words_of(status: &GameStatus) -> (r: String)
    ensures
        r@ == status_words(*status, quoted(status.local_version.deep_view())),
{
    let local = quote(&status.local_version);
    status_with(status, local.as_str())
}

/// What the command line asks for.
#[derive(Debug)]
pub enum Cli {
    Install { game: Game, server: Server, folder: String },
    /// An installation was asked for in a way that is not understood; this is said.
    Misused(&'static str),
    Status { folder: String },
    Sync { folder: String },
    /// The interface, for these folders.
    Interface(Vec<String>),
}

/// The model of [`Cli`].
pub enum CliView {
    Install { game: Game, server: Server, folder: Seq<char> },
    Misused(Seq<char>),
    Status { folder: Seq<char> },
    Sync { folder: Seq<char> },
    Interface(Seq<Seq<char>>),
}

impl DeepView for Cli {
    type V = CliView;

    open spec fn deep_view(&self) -> CliView {
        match self {
            Cli::Install { game, server, folder } => CliView::Install {
                game: *game,
                server: *server,
                folder: folder@,
            },
            Cli::Misused(s) => CliView::Misused(s@),
            Cli::Status { folder } => CliView::Status { folder: folder@ },
            Cli::Sync { folder } => CliView::Sync { folder: folder@ },
            Cli::Interface(list) => CliView::Interface(list.deep_view()),
        }
    }
}

/// The game that a word of the command line names.
pub open spec fn game_word(word: Seq<char>) -> Option<Game> {
    if word == "wuwa"@ {
        Some(Game::WuWa)
    } else if word == "pgr"@ {
        Some(Game::Pgr)
    } else {
        None
    }
}

/// The server that a word of the command line names.
pub open spec fn server_word(word: Seq<char>) -> Option<Server> {
    if word == "cn"@ {
        Some(Server::Cn)
    } else if word == "bilibili"@ {
        Some(Server::Bilibili)
    } else if word == "global"@ {
        Some(Server::Global)
    } else {
        None
    }
}

/// What an installation command asks for.
pub open spec fn install_asked(args: Seq<Seq<char>>) -> CliView {
    if args.len() < 2 || game_word(args[1]) is None {
        CliView::Misused("usage: kuro install <wuwa|pgr> <cn|bilibili|global> <folder>"@)
    } else if args.len() < 3 || server_word(args[2]) is None {
        CliView::Misused("bad server (cn|bilibili|global)"@)
    } else if args.len() < 4 {
        CliView::Misused("missing folder"@)
    } else {
        CliView::Install {
            game: game_word(args[1])->0,
            server: server_word(args[2])->0,
            folder: args[3],
        }
    }
}

/// The folder that a command names, or the default one.
pub open spec fn folder_asked(args: Seq<Seq<char>>) -> Seq<char> {
    if args.len() > 1 {
        args[1]
    } else {
        ui::DEFAULT_GAME_DIR@
    }
}

/// What the command line asks for.
pub open spec fn asked(args: Seq<Seq<char>>) -> CliView {
    if args.len() > 0 && args[0] == "install"@ {
        install_asked(args)
    } else if args.len() > 0 && args[0] == "status"@ {
        CliView::Status { folder: folder_asked(args) }
    } else if args.len() > 0 && args[0] == "sync"@ {
        CliView::Sync { folder: folder_asked(args) }
    } else {
        CliView::Interface(args)
    }
}

fn is_word(args: &Vec<String>, i: usize, word: &str) -> (r: bool)
    ensures
        r == (i < args@.len() && args.deep_view()[i as int] == word@),
{
    i < args.len() && text::same_text(args[i].as_str(), word)
}

/// What an installation command asks for: a game, a server and a folder, in this order.
pub fn cli_install(args: &Vec<String>) -> (r: Cli)
    ensures
        r.deep_view() == install_asked(args.deep_view()),
{
    let game = if is_word(args, 1, "wuwa") {
        Game::WuWa
    } else if is_word(args, 1, "pgr") {
        Game::Pgr
    } else {
        return Cli::Misused("usage: kuro install <wuwa|pgr> <cn|bilibili|global> <folder>");
    };
    let server = if is_word(args, 2, "cn") {
        Server::Cn
    } else if is_word(args, 2, "bilibili") {
        Server::Bilibili
    } else if is_word(args, 2, "global") {
        Server::Global
    } else {
        return Cli::Misused("bad server (cn|bilibili|global)");
    };
    if args.len() < 4 {
        return Cli::Misused("missing folder");
    }
    Cli::Install { game, server, folder: args[3].clone() }
}

/// What the command line asks for; `args` are its words after the program's own name.
pub fn parse_args(args: Vec<String>) -> (r: Cli)
    ensures
        r.deep_view() == asked(args.deep_view()),
{
    if is_word(&args, 0, "install") {
        return cli_install(&args);
    }
    let status = is_word(&args, 0, "status");
    let sync = is_word(&args, 0, "sync");
    if status || sync {
        let folder = if args.len() > 1 {
            args[1].clone()
        } else {
            ui::DEFAULT_GAME_DIR.to_owned()
        };
        if status {
            Cli::Status { folder }
        } else {
            Cli::Sync { folder }
        }
    } else {
        Cli::Interface(args)
    }
}

/// The folders that the interface manages: those that were named, else those that were found, else
/// the default one.
pub fn interface_paths(named: Vec<String>, found: Vec<String>) -> (r: Vec<String>)
    ensures
        r.deep_view() == if named@.len() > 0 {
            named.deep_view()
        } else if found@.len() > 0 {
            found.deep_view()
        } else {
            seq![ui::DEFAULT_GAME_DIR@]
        },
        r@.len() > 0,
{
    if named.len() > 0 {
        named
    } else if found.len() > 0 {
        found
    } else {
        let r = vec![ui::DEFAULT_GAME_DIR.to_owned()];
        assert(r.deep_view() =~= seq![ui::DEFAULT_GAME_DIR@]);
        r
    }
}

}
