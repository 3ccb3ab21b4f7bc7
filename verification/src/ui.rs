//! The state of the terminal interface: what each key and each message does to it.

use vstd::prelude::*;

use crate::config;
use crate::config::{Game, Server};
use crate::game::{GameStatus, GameStatusView};
use crate::steam;
use crate::steam::{SteamInfo, SteamInfoView};
use crate::text;

verus! {

/// The folder that is managed where none is given and none is found.
pub const DEFAULT_GAME_DIR: &'static str = "/home/vedaru/.local/share/Steam/steamapps/common/Wuthering Waves";

/// How many log lines are kept.
pub const LOG_LIMIT: usize = 200;

/// By how many lines a page key scrolls the log.
pub const PAGE: usize = 10;

/// One file that is being fetched.
#[derive(Debug)]
pub struct FileState {
    pub name: String,
    pub done: u64,
    pub total: u64,
}

/// The model of [`FileState`].
#[verifier::ext_equal]
pub struct FileStateView {
    pub name: Seq<char>,
    pub done: u64,
    pub total: u64,
}

impl DeepView for FileState {
    type V = FileStateView;

    open spec fn deep_view(&self) -> FileStateView {
        FileStateView { name: self.name@, done: self.done, total: self.total }
    }
}

/// A task and how far it has come.
#[derive(Debug)]
pub struct TaskUi {
    pub kind: String,
    /// Files dealt with.
    pub done: usize,
    /// Files announced and not dealt with.
    pub queued: usize,
    /// How the task ended, once it has.
    pub finished: Option<Result<String, String>>,
    pub total_bytes: u64,
    pub done_bytes: u64,
    /// The files that are being fetched.
    pub files: Vec<FileState>,
}

/// How a task ended, by its model.
pub open spec fn ending(r: Option<Result<String, String>>) -> Option<Result<Seq<char>, Seq<char>>> {
    match r {
        None => None,
        Some(Ok(m)) => Some(Ok(m@)),
        Some(Err(e)) => Some(Err(e@)),
    }
}

/// The model of [`TaskUi`].
#[verifier::ext_equal]
pub struct TaskView {
    pub kind: Seq<char>,
    pub done: usize,
    pub queued: usize,
    pub finished: Option<Result<Seq<char>, Seq<char>>>,
    pub total_bytes: u64,
    pub done_bytes: u64,
    pub files: Seq<FileStateView>,
}

impl DeepView for TaskUi {
    type V = TaskView;

    open spec fn deep_view(&self) -> TaskView {
        TaskView {
            kind: self.kind@,
            done: self.done,
            queued: self.queued,
            finished: ending(self.finished),
            total_bytes: self.total_bytes,
            done_bytes: self.done_bytes,
            files: self.files.deep_view(),
        }
    }
}

/// The section that the keys go to.
#[derive(Debug, Clone, Copy, PartialEq, Eq, Structural)]
pub enum Focus {
    Status,
    Task,
    Log,
}

/// What is chosen for a new installation.
#[derive(Debug)]
pub struct InstallDraft {
    pub game: Game,
    pub server: Server,
    /// The folder to install into.
    pub target: String,
    /// Whether the folder is being typed.
    pub edit_target: bool,
}

/// The model of [`InstallDraft`].
#[verifier::ext_equal]
pub struct DraftView {
    pub game: Game,
    pub server: Server,
    pub target: Seq<char>,
    pub edit_target: bool,
}

impl DeepView for InstallDraft {
    type V = DraftView;

    open spec fn deep_view(&self) -> DraftView {
        DraftView {
            game: self.game,
            server: self.server,
            target: self.target@,
            edit_target: self.edit_target,
        }
    }
}

/// What is chosen at first.
pub open spec fn first_draft(target: Seq<char>) -> DraftView {
    DraftView { game: Game::WuWa, server: Server::Cn, target, edit_target: false }
}

impl InstallDraft {
    /// What is chosen at first: the publisher's own channel of Wuthering Waves.
    pub fn new(target: String) -> (r: Self)
        ensures
            r.deep_view() == first_draft(target@),
    {
        InstallDraft { game: Game::WuWa, server: Server::Cn, target, edit_target: false }
    }
}

/// What is known of one game: nothing yet, its status, or why there is none.
pub type StatusSlot = Option<Result<GameStatus, String>>;

/// The model of [`StatusSlot`].
pub type SlotView = Option<Result<GameStatusView, Seq<char>>>;

/// What is known of one game, by its model.
pub open spec fn slot(s: StatusSlot) -> SlotView {
    match s {
        None => None,
        Some(Ok(g)) => Some(Ok(g.deep_view())),
        Some(Err(e)) => Some(Err(e@)),
    }
}

/// What is known of the games, by its model.
pub open spec fn slots(s: Seq<StatusSlot>) -> Seq<SlotView> {
    s.map_values(|x: StatusSlot| slot(x))
}

/// The state of the interface.
#[derive(Debug)]
pub struct UiState {
    /// The log, the oldest line first.
    pub logs: Vec<String>,
    pub task: Option<TaskUi>,
    /// Whether a task is running.
    pub busy: bool,
    /// The folders of the games.
    pub paths: Vec<String>,
    /// The game that the keys speak of.
    pub active: usize,
    pub focus: Focus,
    /// How many of the newest log lines are scrolled past.
    pub log_scroll: usize,
    /// The open installation dialog.
    pub install: Option<InstallDraft>,
    /// Whether the help is open.
    pub show_help: bool,
    pub steam: Option<SteamInfo>,
    /// What is known of each game.
    pub statuses: Vec<StatusSlot>,
}

/// The model of [`UiState`].
#[verifier::ext_equal]
pub struct UiView {
    pub logs: Seq<Seq<char>>,
    pub task: Option<TaskView>,
    pub busy: bool,
    pub paths: Seq<Seq<char>>,
    pub active: usize,
    pub focus: Focus,
    pub log_scroll: usize,
    pub install: Option<DraftView>,
    pub show_help: bool,
    pub steam: Option<SteamInfoView>,
    pub statuses: Seq<SlotView>,
}

impl DeepView for UiState {
    type V = UiView;

    open spec fn deep_view(&self) -> UiView {
        UiView {
            logs: self.logs.deep_view(),
            task: self.task.deep_view(),
            busy: self.busy,
            paths: self.paths.deep_view(),
            active: self.active,
            focus: self.focus,
            log_scroll: self.log_scroll,
            install: self.install.deep_view(),
            show_help: self.show_help,
            steam: self.steam.deep_view(),
            statuses: slots(self.statuses@),
        }
    }
}

impl UiView {
    /// There is a game that the keys speak of, there is a status for each game, and the log is not
    /// too long.
    pub open spec fn wf(self) -> bool {
        &&& self.active < self.paths.len() <= usize::MAX
        &&& self.statuses.len() == self.paths.len()
        &&& self.logs.len() <= LOG_LIMIT
    }
}

/// A log with one more line: only the newest lines stay.
pub open spec fn logged(logs: Seq<Seq<char>>, line: Seq<char>) -> Seq<Seq<char>> {
    let all = logs.push(line);
    if all.len() > LOG_LIMIT {
        all.skip(all.len() - LOG_LIMIT)
    } else {
        all
    }
}

/// The name of a game for people.
pub open spec fn pretty_name(game: Game) -> Seq<char> {
    match game {
        Game::WuWa => "Wuthering Waves"@,
        Game::Pgr => "Punishing: Gray Raven"@,
    }
}

/// The name of a game for people.
pub fn pretty_game(game: Game) -> (r: &'static str)
    ensures
        r@ == pretty_name(game),
{
    match game {
        Game::WuWa => "Wuthering Waves",
        Game::Pgr => "Punishing: Gray Raven",
    }
}

/// What is said to people of an error.
pub open spec fn friendly(raw: Seq<char>) -> Seq<char> {
    if text::has_text(raw, "no channel files could be swapped"@) || text::has_text(
        raw,
        "checkout:"@,
    ) {
        "checkout isn't possible for this server — its channel files aren't in the manifest; your install is unchanged"@
    } else if text::has_text(raw, "patchConfig entry"@) {
        "already on the latest version — nothing to do"@
    } else if text::has_text(raw, "run predownload first"@) || text::has_text(
        raw,
        "incremental_download"@,
    ) {
        "no downloaded update found — press 'd' first to download it"@
    } else if text::has_text(raw, "NoLocalConfig"@) || text::has_text(
        raw,
        "launcher config not found"@,
    ) {
        "no game found in this folder (launcherDownloadConfig.json missing)"@
    } else if text::has_text(raw, "global fast-switch"@) {
        "the global server can't be fast-switched — use 's' to sync instead"@
    } else if text::has_text(raw, "already up to date"@) {
        "already up to date"@
    } else {
        raw
    }
}

/// What is said to people of an error: known ones get a plain sentence, others stay as they are.
pub fn friendly_error(raw: &str) -> (r: String)
    ensures
        r@ == friendly(raw@),
{
    if text::contains(raw, "no channel files could be swapped") || text::contains(raw, "checkout:") {
        "checkout isn't possible for this server — its channel files aren't in the manifest; your install is unchanged".to_owned()
    } else if text::contains(raw, "patchConfig entry") {
        "already on the latest version — nothing to do".to_owned()
    } else if text::contains(raw, "run predownload first") || text::contains(
        raw,
        "incremental_download",
    ) {
        "no downloaded update found — press 'd' first to download it".to_owned()
    } else if text::contains(raw, "NoLocalConfig") || text::contains(
        raw,
        "launcher config not found",
    ) {
        "no game found in this folder (launcherDownloadConfig.json missing)".to_owned()
    } else if text::contains(raw, "global fast-switch") {
        "the global server can't be fast-switched — use 's' to sync instead".to_owned()
    } else if text::contains(raw, "already up to date") {
        "already up to date".to_owned()
    } else {
        raw.to_owned()
    }
}

/// A key of the keyboard.
#[derive(Debug, Clone, Copy, PartialEq, Eq, Structural)]
pub enum Key {
    Char(char),
    Backspace,
    Enter,
    Esc,
    Tab,
    Left,
    Right,
    Up,
    Down,
    PageUp,
    PageDown,
    Other,
}

/// What a key asks for beyond the state itself.
#[derive(Debug)]
pub enum Command {
    Nothing,
    Quit,
    /// Find the status of the game at this position.
    Status { path: String, idx: usize },
    Predownload { path: String },
    Apply { path: String },
    Sync { path: String },
    Checkout { path: String },
    Install { game: Game, server: Server, target: String },
}

/// The model of [`Command`].
pub enum CommandView {
    Nothing,
    Quit,
    Status { path: Seq<char>, idx: usize },
    Predownload { path: Seq<char> },
    Apply { path: Seq<char> },
    Sync { path: Seq<char> },
    Checkout { path: Seq<char> },
    Install { game: Game, server: Server, target: Seq<char> },
}

impl CommandView {
    /// Whether the command starts a task.
    pub open spec fn starts_task(self) -> bool {
        self is Predownload || self is Apply || self is Sync || self is Checkout || self is Install
    }
}

impl DeepView for Command {
    type V = CommandView;

    open spec fn deep_view(&self) -> CommandView {
        match self {
            Command::Nothing => CommandView::Nothing,
            Command::Quit => CommandView::Quit,
            Command::Status { path, idx } => CommandView::Status { path: path@, idx: *idx },
            Command::Predownload { path } => CommandView::Predownload { path: path@ },
            Command::Apply { path } => CommandView::Apply { path: path@ },
            Command::Sync { path } => CommandView::Sync { path: path@ },
            Command::Checkout { path } => CommandView::Checkout { path: path@ },
            Command::Install { game, server, target } => CommandView::Install {
                game: *game,
                server: *server,
                target: target@,
            },
        }
    }
}

/// A task that has just started.
pub open spec fn new_task(kind: Seq<char>) -> TaskView {
    TaskView {
        kind,
        done: 0,
        queued: 0,
        finished: None,
        total_bytes: 0,
        done_bytes: 0,
        files: Seq::empty(),
    }
}

/// The section after another one.
pub open spec fn next_focus(focus: Focus) -> Focus {
    match focus {
        Focus::Status => Focus::Task,
        Focus::Task => Focus::Log,
        Focus::Log => Focus::Status,
    }
}

/// A number that grew by `by`, as far as numbers go.
pub open spec fn grown(n: usize, by: int) -> usize {
    if n + by <= usize::MAX {
        (n + by) as usize
    } else {
        usize::MAX
    }
}

/// A number that shrank by `by`, but not below 0.
pub open spec fn shrunk(n: usize, by: int) -> usize {
    if n >= by {
        (n - by) as usize
    } else {
        0
    }
}

/// What is said when another game becomes the active one.
pub open spec fn switch_line(path: Seq<char>, active: int, count: int) -> Seq<char> {
    "→ "@ + text::last_segment(path) + " (game "@ + text::decimal((active + 1) as nat) + "/"@
        + text::decimal(count as nat) + ")"@
}

/// What is said when an installation starts.
pub open spec fn install_line(game: Game, server: Server, target: Seq<char>) -> Seq<char> {
    "installing "@ + pretty_name(game) + " ("@ + config::server_name(server) + ") into "@ + target
}

/// The game before or after the active one, round and round.
pub open spec fn neighbour(active: int, count: int, forward: bool) -> int {
    if forward {
        (active + 1) % count
    } else {
        (active + count - 1) % count
    }
}

/// The game before or after the active one is the one beside it, or the one at the other end.
pub proof fn lemma_neighbour(active: int, count: int, forward: bool)
    requires
        0 <= active < count,
    ensures
        neighbour(active, count, forward) == if forward {
            if active + 1 == count {
                0
            } else {
                active + 1
            }
        } else if active == 0 {
            count - 1
        } else {
            active - 1
        },
{
    if forward {
        if active + 1 == count {
            vstd::arithmetic::div_mod::lemma_mod_self_0(count);
        } else {
            vstd::arithmetic::div_mod::lemma_small_mod((active + 1) as nat, count as nat);
        }
    } else if active == 0 {
        vstd::arithmetic::div_mod::lemma_small_mod((count - 1) as nat, count as nat);
    } else {
        vstd::arithmetic::div_mod::lemma_small_mod((active - 1) as nat, count as nat);
        vstd::arithmetic::div_mod::lemma_mod_add_multiples_vanish(active - 1, count);
    }
}

/// What a key does while the help is open.
pub open spec fn key_in_help(s: UiView, key: Key) -> (UiView, CommandView) {
    match key {
        Key::Char('h') => (UiView { show_help: false, ..s }, CommandView::Nothing),
        Key::Char('?') => (UiView { show_help: false, ..s }, CommandView::Nothing),
        Key::Esc => (UiView { show_help: false, ..s }, CommandView::Nothing),
        Key::Char('q') => (s, CommandView::Quit),
        _ => (s, CommandView::Nothing),
    }
}

/// What a key does to the folder that is being typed.
pub open spec fn key_in_target(d: DraftView, key: Key) -> DraftView {
    match key {
        Key::Char(c) => DraftView { target: d.target.push(c), ..d },
        Key::Backspace => DraftView {
            target: if d.target.len() > 0 {
                d.target.drop_last()
            } else {
                d.target
            },
            ..d
        },
        Key::Enter => DraftView { edit_target: false, ..d },
        Key::Esc => DraftView { edit_target: false, ..d },
        _ => d,
    }
}

/// What a key does to the choice for a new installation, but for starting and leaving.
pub open spec fn key_in_draft(d: DraftView, steam: Option<SteamInfoView>, key: Key) -> DraftView {
    match key {
        Key::Char('w') => DraftView { game: Game::WuWa, ..d },
        Key::Char('p') => DraftView { game: Game::Pgr, ..d },
        Key::Char('c') => DraftView { server: Server::Cn, ..d },
        Key::Char('b') => DraftView { server: Server::Bilibili, ..d },
        Key::Char('g') => DraftView { server: Server::Global, ..d },
        Key::Char('s') => match steam {
            Some(info) => DraftView {
                target: steam::game_dir(steam::primary_library(info), d.game),
                ..d
            },
            None => d,
        },
        Key::Char('t') => DraftView { edit_target: true, ..d },
        _ => d,
    }
}

/// What a key does while the installation dialog is open.
pub open spec fn key_in_dialog(s: UiView, d: DraftView, key: Key) -> (UiView, CommandView) {
    if d.edit_target {
        (UiView { install: Some(key_in_target(d, key)), ..s }, CommandView::Nothing)
    } else if key == Key::Esc {
        (UiView { install: None, ..s }, CommandView::Nothing)
    } else if key == Key::Enter {
        if s.busy {
            (UiView { install: None, ..s }, CommandView::Nothing)
        } else {
            (
                UiView {
                    install: None,
                    busy: true,
                    task: Some(new_task("install"@)),
                    logs: logged(s.logs, install_line(d.game, d.server, d.target)),
                    ..s
                },
                CommandView::Install { game: d.game, server: d.server, target: d.target },
            )
        }
    } else {
        (UiView { install: Some(key_in_draft(d, s.steam, key)), ..s }, CommandView::Nothing)
    }
}

/// Another game becomes the active one, unless there is no other or a task is running.
pub open spec fn switched(s: UiView, forward: bool) -> (UiView, CommandView) {
    if s.paths.len() < 2 || s.busy {
        (s, CommandView::Nothing)
    } else {
        let count = s.paths.len() as int;
        let active = neighbour(s.active as int, count, forward);
        (
            UiView {
                active: active as usize,
                statuses: if active < s.statuses.len() {
                    s.statuses.update(active, None)
                } else {
                    s.statuses
                },
                logs: logged(s.logs, switch_line(s.paths[active], active, count)),
                ..s
            },
            CommandView::Status { path: s.paths[active], idx: active as usize },
        )
    }
}

/// A task starts, unless one is running.
pub open spec fn started(s: UiView, kind: Seq<char>, command: CommandView) -> (
    UiView,
    CommandView,
) {
    if s.busy {
        (s, CommandView::Nothing)
    } else {
        (
            UiView { busy: true, task: Some(new_task(kind)), focus: Focus::Task, ..s },
            command,
        )
    }
}

/// The log is scrolled, where the keys go to it.
pub open spec fn scrolled(s: UiView, to: usize) -> (UiView, CommandView) {
    if s.focus == Focus::Log {
        (UiView { log_scroll: to, ..s }, CommandView::Nothing)
    } else {
        (s, CommandView::Nothing)
    }
}

/// What a key does while nothing lies over the sections.
pub open spec fn key_in_sections(s: UiView, key: Key) -> (UiView, CommandView) {
    let path = s.paths[s.active as int];
    match key {
        Key::Char('q') => (s, CommandView::Quit),
        Key::Esc => (s, CommandView::Quit),
        Key::Char('h') => (UiView { show_help: true, ..s }, CommandView::Nothing),
        Key::Char('?') => (UiView { show_help: true, ..s }, CommandView::Nothing),
        Key::Char('i') => if s.busy {
            (s, CommandView::Nothing)
        } else {
            (UiView { install: Some(first_draft(path)), ..s }, CommandView::Nothing)
        },
        Key::Tab => (UiView { focus: next_focus(s.focus), ..s }, CommandView::Nothing),
        Key::Left => switched(s, false),
        Key::Right => switched(s, true),
        Key::Char('r') => if s.busy {
            (s, CommandView::Nothing)
        } else {
            (s, CommandView::Status { path, idx: s.active })
        },
        Key::Char('d') => started(s, "predownload"@, CommandView::Predownload { path }),
        Key::Char('a') => started(s, "apply"@, CommandView::Apply { path }),
        Key::Char('s') => started(s, "sync"@, CommandView::Sync { path }),
        Key::Char('c') => started(s, "checkout"@, CommandView::Checkout { path }),
        Key::Up => scrolled(s, grown(s.log_scroll, 1)),
        Key::Down => scrolled(s, shrunk(s.log_scroll, 1)),
        Key::PageUp => scrolled(s, grown(s.log_scroll, PAGE as int)),
        Key::PageDown => scrolled(s, shrunk(s.log_scroll, PAGE as int)),
        _ => (s, CommandView::Nothing),
    }
}

/// What a key does: to the help where it is open, else to the installation dialog where it is open,
/// else to the sections.
pub open spec fn on_key(s: UiView, key: Key) -> (UiView, CommandView) {
    if s.show_help {
        key_in_help(s, key)
    } else {
        match s.install {
            Some(d) => key_in_dialog(s, d, key),
            None => key_in_sections(s, key),
        }
    }
}

/// Adds a line to the log; only the newest lines stay.
pub fn push_log(state: &mut UiState, msg: String)
    ensures
        final(state).deep_view() == (UiView {
            logs: logged(old(state).deep_view().logs, msg@),
            ..old(state).deep_view()
        }),
{
    let ghost before = state.logs.deep_view();
    let ghost all = before.push(msg@);
    state.logs.push(msg);
    assert(state.logs.deep_view() =~= all);
    assert(all.skip(0) =~= all);
    let ghost mut gone: int = 0;
    while state.logs.len() > LOG_LIMIT
        invariant
            0 <= gone <= all.len(),
            gone > 0 ==> all.len() - gone >= LOG_LIMIT,
            state.logs.deep_view() == all.skip(gone),
            state.deep_view() == (UiView {
                logs: state.logs.deep_view(),
                ..old(state).deep_view()
            }),
        decreases state.logs@.len(),
    {
        let ghost now = state.logs.deep_view();
        let _ = state.logs.remove(0);
        proof {
            assert(state.logs.deep_view() =~= now.remove(0));
            gone = gone + 1;
            assert(state.logs.deep_view() =~= all.skip(gone));
        }
    }
}

/// The state that an interface starts with.
pub open spec fn opening(paths: Seq<Seq<char>>, steam: Option<SteamInfoView>) -> UiView {
    UiView {
        logs: Seq::empty(),
        task: None,
        busy: false,
        paths,
        active: 0,
        focus: Focus::Status,
        log_scroll: 0,
        install: None,
        show_help: false,
        steam,
        statuses: Seq::new(paths.len(), |i: int| None),
    }
}

fn task_of(kind: &str) -> (r: Option<TaskUi>)
    ensures
        r.deep_view() == Some(new_task(kind@)),
{
    let files: Vec<FileState> = Vec::new();
    assert(files.deep_view() =~= Seq::empty());
    Some(
        TaskUi {
            kind: kind.to_owned(),
            done: 0,
            queued: 0,
            finished: None,
            total_bytes: 0,
            done_bytes: 0,
            files,
        },
    )
}

fn grow(n: usize, by: usize) -> (r: usize)
    ensures
        r == grown(n, by as int),
{
    if n <= usize::MAX - by {
        n + by
    } else {
        usize::MAX
    }
}

fn shrink(n: usize, by: usize) -> (r: usize)
    ensures
        r == shrunk(n, by as int),
{
    if n >= by {
        n - by
    } else {
        0
    }
}

/// What a key does to the folder that is being typed.
pub fn type_target(draft: &mut InstallDraft, key: Key)
    ensures
        final(draft).deep_view() == key_in_target(old(draft).deep_view(), key),
{
    match key {
        Key::Char(c) => {
            draft.target.push(c);
        },
        Key::Backspace => {
            let v = text::to_chars(draft.target.as_str());
            if v.len() > 0 {
                draft.target = text::spell(&v, 0, v.len() - 1);
                assert(draft.target@ =~= old(draft).target@.drop_last());
            }
        },
        Key::Enter | Key::Esc => {
            draft.edit_target = false;
        },
        _ => {},
    }
}

/// What a key does to the choice for a new installation, but for starting and leaving.
pub fn choose_in_draft(draft: &mut InstallDraft, steam: &Option<SteamInfo>, key: Key)
    ensures
        final(draft).deep_view() == key_in_draft(
            old(draft).deep_view(),
            steam.deep_view(),
            key,
        ),
{
    match key {
        Key::Char('w') => {
            draft.game = Game::WuWa;
        },
        Key::Char('p') => {
            draft.game = Game::Pgr;
        },
        Key::Char('c') => {
            draft.server = Server::Cn;
        },
        Key::Char('b') => {
            draft.server = Server::Bilibili;
        },
        Key::Char('g') => {
            draft.server = Server::Global;
        },
        Key::Char('s') => {
            if let Some(info) = steam {
                draft.target = steam::default_game_dir(info, draft.game);
            }
        },
        Key::Char('t') => {
            draft.edit_target = true;
        },
        _ => {},
    }
}

impl UiState {
    /// The state that an interface starts with.
    pub fn new(paths: Vec<String>, steam: Option<SteamInfo>) -> (r: Self)
        ensures
            r.deep_view() == opening(paths.deep_view(), steam.deep_view()),
            paths@.len() > 0 ==> r.deep_view().wf(),
    {
        let mut statuses: Vec<StatusSlot> = Vec::new();
        let mut i: usize = 0;
        while i < paths.len()
            invariant
                i <= paths@.len(),
                statuses@.len() == i,
                forall|k: int| 0 <= k < i ==> #[trigger] statuses@[k] is None,
            decreases paths@.len() - i,
        {
            statuses.push(None);
            i = i + 1;
        }
        let r = UiState {
            logs: Vec::new(),
            task: None,
            busy: false,
            paths,
            active: 0,
            focus: Focus::Status,
            log_scroll: 0,
            install: None,
            show_help: false,
            steam,
            statuses,
        };
        proof {
            assert(paths.len() <= usize::MAX);
            assert(r.logs.deep_view() =~= Seq::empty());
            assert(slots(r.statuses@) =~= Seq::new(paths@.len(), |i: int| None));
        }
        r
    }

    fn help_key(&mut self, key: Key) -> (r: Command)
        ensures
            (final(self).deep_view(), r.deep_view()) == key_in_help(old(self).deep_view(), key),
    {
        match key {
            Key::Char('h') | Key::Char('?') | Key::Esc => {
                self.show_help = false;
                Command::Nothing
            },
            Key::Char('q') => Command::Quit,
            _ => Command::Nothing,
        }
    }

    fn dialog_key(&mut self, draft: InstallDraft, key: Key) -> (r: Command)
        requires
            old(self).install is None,
        ensures
            (final(self).deep_view(), r.deep_view()) == key_in_dialog(
                UiView { install: Some(draft.deep_view()), ..old(self).deep_view() },
                draft.deep_view(),
                key,
            ),
    {
        let mut draft = draft;
        if draft.edit_target {
            type_target(&mut draft, key);
            self.install = Some(draft);
            return Command::Nothing;
        }
        match key {
            Key::Esc => Command::Nothing,
            Key::Enter => {
                if self.busy {
                    return Command::Nothing;
                }
                self.busy = true;
                self.task = task_of("install");
                let server = draft.server.to_string();
                let line = "installing ".to_owned().concat(pretty_game(draft.game)).concat(
                    " (",
                ).concat(server.as_str()).concat(") into ").concat(draft.target.as_str());
                push_log(self, line);
                Command::Install { game: draft.game, server: draft.server, target: draft.target }
            },
            _ => {
                choose_in_draft(&mut draft, &self.steam, key);
                self.install = Some(draft);
                Command::Nothing
            },
        }
    }

    /// Makes another game the active one, unless there is no other or a task is running; its
    /// status is then to be found again.
    pub fn switch_game(&mut self, forward: bool) -> (r: Command)
        requires
            old(self).active < old(self).paths@.len(),
        ensures
            (final(self).deep_view(), r.deep_view()) == switched(old(self).deep_view(), forward),
    {
        let count: usize = self.paths.len();
        if count < 2 || self.busy {
            return Command::Nothing;
        }
        let ghost n = count as int;
        let active: usize = if forward {
            if self.active + 1 == count {
                0
            } else {
                self.active + 1
            }
        } else if self.active == 0 {
            count - 1
        } else {
            self.active - 1
        };
        proof {
            let a = self.active as int;
            lemma_neighbour(a, n, forward);
            assert(active == neighbour(a, n, forward));
        }
        let ghost before = self.statuses@;
        self.active = active;
        if active < self.statuses.len() {
            self.statuses.set(active, None);
            assert(slots(self.statuses@) =~= slots(before).update(active as int, None));
        }
        assert(self.deep_view().paths[active as int] == self.paths@[active as int]@);
        let path = self.paths[active].clone();
        let name = text::basename(path.as_str());
        let at = text::number((active + 1) as u64);
        let of = text::number(count as u64);
        let line = "→ ".to_owned().concat(name.as_str()).concat(" (game ").concat(
            at.as_str(),
        ).concat("/").concat(of.as_str()).concat(")");
        push_log(self, line);
        Command::Status { path, idx: active }
    }

    fn start(&mut self, kind: &str, command: Command) -> (r: Command)
        ensures
            (final(self).deep_view(), r.deep_view()) == started(
                old(self).deep_view(),
                kind@,
                command.deep_view(),
            ),
    {
        if self.busy {
            return Command::Nothing;
        }
        self.busy = true;
        self.task = task_of(kind);
        self.focus = Focus::Task;
        command
    }

    fn scroll(&mut self, to: usize) -> (r: Command)
        ensures
            (final(self).deep_view(), r.deep_view()) == scrolled(old(self).deep_view(), to),
    {
        if self.focus == Focus::Log {
            self.log_scroll = to;
        }
        Command::Nothing
    }

    fn section_key(&mut self, key: Key) -> (r: Command)
        requires
            old(self).active < old(self).paths@.len(),
        ensures
            (final(self).deep_view(), r.deep_view()) == key_in_sections(
                old(self).deep_view(),
                key,
            ),
    {
        assert(self.deep_view().paths[self.active as int] == self.paths@[self.active as int]@);
        let path = self.paths[self.active].clone();
        match key {
            Key::Char('q') | Key::Esc => Command::Quit,
            Key::Char('h') | Key::Char('?') => {
                self.show_help = true;
                Command::Nothing
            },
            Key::Char('i') => {
                if !self.busy {
                    self.install = Some(InstallDraft::new(path));
                }
                Command::Nothing
            },
            Key::Tab => {
                self.focus = match self.focus {
                    Focus::Status => Focus::Task,
                    Focus::Task => Focus::Log,
                    Focus::Log => Focus::Status,
                };
                Command::Nothing
            },
            Key::Left => self.switch_game(false),
            Key::Right => self.switch_game(true),
            Key::Char('r') => {
                if self.busy {
                    Command::Nothing
                } else {
                    Command::Status { path, idx: self.active }
                }
            },
            Key::Char('d') => self.start("predownload", Command::Predownload { path }),
            Key::Char('a') => self.start("apply", Command::Apply { path }),
            Key::Char('s') => self.start("sync", Command::Sync { path }),
            Key::Char('c') => self.start("checkout", Command::Checkout { path }),
            Key::Up => {
                let to = grow(self.log_scroll, 1);
                self.scroll(to)
            },
            Key::Down => {
                let to = shrink(self.log_scroll, 1);
                self.scroll(to)
            },
            Key::PageUp => {
                let to = grow(self.log_scroll, PAGE);
                self.scroll(to)
            },
            Key::PageDown => {
                let to = shrink(self.log_scroll, PAGE);
                self.scroll(to)
            },
            _ => Command::Nothing,
        }
    }

    /// What a key does, and what is to be done for it.
    pub fn handle_key(&mut self, key: Key) -> (r: Command)
        requires
            old(self).active < old(self).paths@.len(),
        ensures
            (final(self).deep_view(), r.deep_view()) == on_key(old(self).deep_view(), key),
    {
        if self.show_help {
            return self.help_key(key);
        }
        match self.install.take() {
            Some(draft) => self.dialog_key(draft, key),
            None => self.section_key(key),
        }
    }
}

}
