//! What the interface shows: the texts of its sections and of what lies over them.

use vstd::prelude::*;

use crate::config;
use crate::config::Game;
use crate::game::GameStatusView;
use crate::paths;
use crate::steam::{SteamInfo, SteamInfoView};
use crate::text;
use crate::ui;
use crate::ui::{
    DraftView, FileStateView, Focus, InstallDraft, SlotView, StatusSlot, TaskUi, TaskView, UiState,
    UiView,
};

verus! {

/// The colour of a line or a border.
#[derive(Debug, Clone, Copy, PartialEq, Eq, Structural)]
pub enum Tint {
    /// No colour is set.
    Unset,
    /// The colour of the terminal is set.
    Reset,
    Cyan,
    Yellow,
    Green,
    Red,
}

/// One line of a section.
#[derive(Debug)]
pub struct TextLine {
    pub text: String,
    pub tint: Tint,
}

/// The model of [`TextLine`].
#[verifier::ext_equal]
pub struct LineView {
    pub text: Seq<char>,
    pub tint: Tint,
}

impl DeepView for TextLine {
    type V = LineView;

    open spec fn deep_view(&self) -> LineView {
        LineView { text: self.text@, tint: self.tint }
    }
}

/// A line without a colour.
pub open spec fn plain(text: Seq<char>) -> LineView {
    LineView { text, tint: Tint::Unset }
}

fn raw(text: String) -> (r: TextLine)
    ensures
        r.deep_view() == plain(text@),
{
    TextLine { text, tint: Tint::Unset }
}

/// A section with its border.
#[derive(Debug)]
pub struct Panel {
    pub title: String,
    pub border: Tint,
    pub lines: Vec<TextLine>,
}

/// The model of [`Panel`].
#[verifier::ext_equal]
pub struct PanelView {
    pub title: Seq<char>,
    pub border: Tint,
    pub lines: Seq<LineView>,
}

impl DeepView for Panel {
    type V = PanelView;

    open spec fn deep_view(&self) -> PanelView {
        PanelView { title: self.title@, border: self.border, lines: self.lines.deep_view() }
    }
}

/// What the status of one game shows; `busy` says that a task is running on it.
pub open spec fn status_lines(s: SlotView, busy: bool) -> Seq<LineView> {
    match s {
        Some(Ok(g)) => seq![
            plain("game:    "@ + config::game_name(g.game)),
            plain("server:  "@ + config::server_name(g.server)),
            plain(
                "local:   "@ + match g.local_version {
                    Some(v) => v,
                    None => "none"@,
                },
            ),
            plain("remote:  "@ + g.remote_version),
            if busy {
                LineView { text: "updating…"@, tint: Tint::Yellow }
            } else if g.update_available {
                LineView { text: "UPDATE AVAILABLE"@, tint: Tint::Yellow }
            } else {
                LineView { text: "up to date"@, tint: Tint::Green }
            },
        ],
        Some(Err(e)) => seq![LineView { text: "error: "@ + e, tint: Tint::Red }],
        None => seq![plain("loading..."@)],
    }
}

/// What the status of one game shows; `busy` says that a task is running on it, so that it is never
/// called up to date meanwhile.
pub fn status_box_lines(s: &StatusSlot, busy: bool) -> (r: Vec<TextLine>)
    ensures
        r.deep_view() == status_lines(ui::slot(*s), busy),
{
    let ghost want = status_lines(ui::slot(*s), busy);
    match s {
        Some(Ok(g)) => {
            let game = g.game.to_string();
            let server = g.server.to_string();
            let local = match &g.local_version {
                Some(v) => v.as_str(),
                None => "none",
            };
            let last = if busy {
                TextLine { text: "updating…".to_owned(), tint: Tint::Yellow }
            } else if g.update_available {
                TextLine { text: "UPDATE AVAILABLE".to_owned(), tint: Tint::Yellow }
            } else {
                TextLine { text: "up to date".to_owned(), tint: Tint::Green }
            };
            let r = vec![
                raw("game:    ".to_owned().concat(game.as_str())),
                raw("server:  ".to_owned().concat(server.as_str())),
                raw("local:   ".to_owned().concat(local)),
                raw("remote:  ".to_owned().concat(g.remote_version.as_str())),
                last,
            ];
            assert(r.deep_view() =~= want);
            r
        },
        Some(Err(e)) => {
            let r = vec![
                TextLine { text: "error: ".to_owned().concat(e.as_str()), tint: Tint::Red },
            ];
            assert(r.deep_view() =~= want);
            r
        },
        None => {
            let r = vec![raw("loading...".to_owned())];
            assert(r.deep_view() =~= want);
            r
        },
    }
}

/// The border of a section: yellow where the keys go to it.
pub open spec fn focus_tint(focused: bool, otherwise: Tint) -> Tint {
    if focused {
        Tint::Yellow
    } else {
        otherwise
    }
}

/// The box of the game at `i`, where there is more than one.
pub open spec fn status_panel(s: UiView, i: int) -> PanelView {
    let active = i == s.active;
    let name = text::last_segment(s.paths[i]);
    let known = if i < s.statuses.len() {
        s.statuses[i]
    } else {
        None
    };
    PanelView {
        title: if active {
            "▶ "@ + name
        } else {
            name
        },
        border: if active {
            focus_tint(s.focus == Focus::Status, Tint::Cyan)
        } else {
            Tint::Unset
        },
        lines: status_lines(known, active && s.busy),
    }
}

/// The boxes of the games: one for each where there is more than one, else a single one.
pub open spec fn status_boxes(s: UiView) -> Seq<PanelView> {
    if s.paths.len() > 1 {
        Seq::new(s.paths.len(), |i: int| status_panel(s, i))
    } else {
        seq![
            PanelView {
                title: "status"@,
                border: focus_tint(s.focus == Focus::Status, Tint::Reset),
                lines: status_lines(
                    if s.statuses.len() > 0 {
                        s.statuses[0]
                    } else {
                        None
                    },
                    s.busy,
                ),
            },
        ]
    }
}

/// A progress bar: what of it is filled, and the numbers beside it.
#[derive(Debug)]
pub struct Bar {
    /// How many cells are filled.
    pub filled: usize,
    /// The percentage, as text.
    pub percent: String,
    /// The bytes that have come, as text.
    pub done: String,
    /// All bytes, as text.
    pub total: String,
}

/// The model of [`Bar`].
pub struct BarView {
    pub filled: nat,
    pub percent: Seq<char>,
    pub done: Seq<char>,
    pub total: Seq<char>,
}

impl DeepView for Bar {
    type V = BarView;

    open spec fn deep_view(&self) -> BarView {
        BarView {
            filled: self.filled as nat,
            percent: self.percent@,
            done: self.done@,
            total: self.total@,
        }
    }
}

/// `n` times the same character.
pub open spec fn repeated(c: char, n: nat) -> Seq<char> {
    Seq::new(n, |i: int| c)
}

/// The cells of a bar: the filled ones, then the empty ones.
pub open spec fn cells(filled: nat, width: nat) -> Seq<char> {
    if filled <= width {
        repeated('█', filled) + repeated('░', (width - filled) as nat)
    } else {
        repeated('█', width)
    }
}

/// The line of a progress bar: of a file whose size is not known, only the label.
pub open spec fn bar_text(label: Seq<char>, total_bytes: u64, width: nat, bar: BarView) -> Seq<char> {
    if total_bytes == 0 {
        label + ": ?"@
    } else {
        "["@ + cells(bar.filled, width) + "] "@ + bar.percent + "%  "@ + bar.done + "/"@ + bar.total
            + "  "@ + label
    }
}

fn cells_text(filled: usize, width: usize) -> (r: String)
    ensures
        r@ == cells(filled as nat, width as nat),
{
    let mut r = String::new();
    let mut i: usize = 0;
    proof {
        assert(r@ =~= cells(filled as nat, width as nat).take(0));
    }
    while i < width
        invariant
            i <= width,
            r@ == cells(filled as nat, width as nat).take(i as int),
        decreases width - i,
    {
        let ghost all = cells(filled as nat, width as nat);
        let ghost before = r@;
        if i < filled {
            r.push('█');
        } else {
            r.push('░');
        }
        assert(all.take(i + 1) =~= before.push(all[i as int]));
        i = i + 1;
    }
    proof {
        let all = cells(filled as nat, width as nat);
        assert(all.take(width as int) =~= all);
    }
    r
}

/// The line of a progress bar.
pub fn bar_line(label: &str, total_bytes: u64, width: usize, bar: &Bar) -> (r: String)
    ensures
        r@ == bar_text(label@, total_bytes, width as nat, bar.deep_view()),
{
    if total_bytes == 0 {
        return label.to_owned().concat(": ?");
    }
    let inner = cells_text(bar.filled, width);
    "[".to_owned().concat(inner.as_str()).concat("] ").concat(bar.percent.as_str()).concat(
        "%  ",
    ).concat(bar.done.as_str()).concat("/").concat(bar.total.as_str()).concat("  ").concat(label)
}

/// The unit that a number of bytes is shown in.
#[derive(Debug, Clone, Copy, PartialEq, Eq, Structural)]
pub enum SizeUnit {
    KiB,
    MiB,
    GiB,
}

/// The unit that a number of bytes is shown in: the largest of which there is at least one.
pub fn size_unit(bytes: u64) -> (r: SizeUnit)
    ensures
        r == if bytes >= 1024 * 1024 * 1024 {
            SizeUnit::GiB
        } else if bytes >= 1024 * 1024 {
            SizeUnit::MiB
        } else {
            SizeUnit::KiB
        },
{
    if bytes >= 0x4000_0000 {
        SizeUnit::GiB
    } else if bytes >= 0x10_0000 {
        SizeUnit::MiB
    } else {
        SizeUnit::KiB
    }
}

/// A text that fits: where it is too long, its tail behind an ellipsis.
pub open spec fn tail_text(s: Seq<char>, max: int) -> Seq<char> {
    if s.len() <= max {
        s
    } else {
        "…"@ + s.skip(s.len() - max + 1)
    }
}

/// A text that has at most `max` characters: where it is too long, its tail behind an ellipsis.
pub fn shorten(s: &str, max: usize) -> (r: String)
    requires
        max > 0 || s@.len() == 0,
    ensures
        r@ == tail_text(s@, max as int),
{
    let v = text::to_chars(s);
    if v.len() <= max {
        s.to_owned()
    } else {
        let tail = text::spell(&v, v.len() - max + 1, v.len());
        assert(tail@ =~= s@.skip(s@.len() - max + 1));
        "…".to_owned().concat(tail.as_str())
    }
}

/// A shortened text has at most as many characters as were asked for, and ends as the whole does.
pub proof fn law_shortened_fits(s: Seq<char>, max: int)
    requires
        max > 0,
    ensures
        tail_text(s, max).len() <= max,
        s.len() > max ==> tail_text(s, max).len() == max && tail_text(s, max).skip(1) == s.skip(
            s.len() - max + 1,
        ),
{
    reveal_strlit("…");
    if s.len() > max {
        assert(tail_text(s, max).skip(1) =~= s.skip(s.len() - max + 1));
    }
}

/// How many files that are being fetched are shown.
pub const SHOWN_FILES: usize = 8;

/// The line of a file that is being fetched.
pub open spec fn file_line(f: FileStateView, bar: BarView) -> LineView {
    plain("  "@ + bar_text(tail_text(f.name, 42), f.total, 24, bar))
}

/// The lines of the first `n` files that are being fetched.
pub open spec fn file_lines(files: Seq<FileStateView>, bars: Seq<BarView>, n: nat) -> Seq<LineView> {
    Seq::new(n, |i: int| file_line(files[i], bars[i]))
}

/// How many files of a task are shown.
pub open spec fn shown(t: TaskView) -> nat {
    if t.files.len() < SHOWN_FILES {
        t.files.len()
    } else {
        SHOWN_FILES as nat
    }
}

/// What the task section shows; `overall` and `bars` are the bars of the whole and of the files.
pub open spec fn task_text(task: Option<TaskView>, overall: BarView, bars: Seq<BarView>) -> Seq<
    LineView,
> {
    match task {
        None => seq![plain("idle"@)],
        Some(t) => {
            let head = seq![
                plain("task: "@ + t.kind),
                plain(
                    "files done: "@ + text::decimal(t.done as nat) + "   queued: "@
                        + text::decimal(t.queued as nat),
                ),
            ];
            let whole = if t.total_bytes > 0 {
                seq![plain(bar_text("overall"@, t.total_bytes, 34, overall))]
            } else {
                Seq::empty()
            };
            let end = match t.finished {
                None => Seq::empty(),
                Some(Ok(m)) => seq![LineView { text: "✔ "@ + m, tint: Tint::Green }],
                Some(Err(e)) => seq![
                    LineView { text: "✘ "@ + ui::friendly(e), tint: Tint::Red },
                ],
            };
            head + whole + file_lines(t.files, bars, shown(t)) + end
        },
    }
}

fn push_file_lines(t: &TaskUi, bars: &Vec<Bar>, out: &mut Vec<TextLine>)
    requires
        bars@.len() >= shown(t.deep_view()),
    ensures
        final(out).deep_view() == old(out).deep_view() + file_lines(
            t.deep_view().files,
            bars.deep_view(),
            shown(t.deep_view()),
        ),
{
    let ghost start = out.deep_view();
    let ghost files = t.deep_view().files;
    let mut i: usize = 0;
    assert(start + file_lines(files, bars.deep_view(), 0) =~= start);
    while i < t.files.len() && i < SHOWN_FILES
        invariant
            i <= shown(t.deep_view()),
            bars@.len() >= shown(t.deep_view()),
            files == t.deep_view().files,
            out.deep_view() == start + file_lines(files, bars.deep_view(), i as nat),
        decreases t.files@.len() - i,
    {
        let ghost before = out.deep_view();
        let f = &t.files[i];
        assert(files[i as int] == f.deep_view());
        assert(bars.deep_view()[i as int] == bars@[i as int].deep_view());
        let name = shorten(f.name.as_str(), 42);
        let bar = bar_line(name.as_str(), f.total, 24, &bars[i]);
        out.push(raw("  ".to_owned().concat(bar.as_str())));
        proof {
            let line = file_line(f.deep_view(), bars@[i as int].deep_view());
            assert(out.deep_view() =~= before.push(line));
            assert(file_lines(files, bars.deep_view(), (i + 1) as nat) =~= file_lines(
                files,
                bars.deep_view(),
                i as nat,
            ).push(line));
            assert(out.deep_view() =~= start + file_lines(
                files,
                bars.deep_view(),
                (i + 1) as nat,
            ));
        }
        i = i + 1;
    }
}

/// What the task section shows; `overall` and `bars` are the bars of the whole and of the files.
pub fn task_lines(task: &Option<TaskUi>, overall: &Bar, bars: &Vec<Bar>) -> (r: Vec<TextLine>)
    requires
        task is Some ==> bars@.len() >= shown(task->0.deep_view()),
    ensures
        r.deep_view() == task_text(task.deep_view(), overall.deep_view(), bars.deep_view()),
{
    match task {
        None => {
            let r = vec![raw("idle".to_owned())];
            assert(r.deep_view() =~= seq![plain("idle"@)]);
            r
        },
        Some(t) => {
            let done = text::number(t.done as u64);
            let queued = text::number(t.queued as u64);
            let mut r = vec![
                raw("task: ".to_owned().concat(t.kind.as_str())),
                raw(
                    "files done: ".to_owned().concat(done.as_str()).concat("   queued: ").concat(
                        queued.as_str(),
                    ),
                ),
            ];
            let ghost v = t.deep_view();
            let ghost head = seq![
                plain("task: "@ + v.kind),
                plain(
                    "files done: "@ + text::decimal(v.done as nat) + "   queued: "@
                        + text::decimal(v.queued as nat),
                ),
            ];
            assert(r.deep_view() =~= head);
            let ghost whole = if v.total_bytes > 0 {
                seq![plain(bar_text("overall"@, v.total_bytes, 34, overall.deep_view()))]
            } else {
                Seq::empty()
            };
            if t.total_bytes > 0 {
                r.push(raw(bar_line("overall", t.total_bytes, 34, overall)));
            }
            assert(r.deep_view() =~= head + whole);
            push_file_lines(t, bars, &mut r);
            let ghost before = r.deep_view();
            match &t.finished {
                None => {
                    assert(before + Seq::<LineView>::empty() =~= before);
                },
                Some(Ok(m)) => {
                    let line = TextLine {
                        text: "✔ ".to_owned().concat(m.as_str()),
                        tint: Tint::Green,
                    };
                    let ghost said = line.deep_view();
                    r.push(line);
                    assert(r.deep_view() =~= before + seq![said]);
                },
                Some(Err(e)) => {
                    let text = ui::friendly_error(e.as_str());
                    let line = TextLine {
                        text: "✘ ".to_owned().concat(text.as_str()),
                        tint: Tint::Red,
                    };
                    let ghost said = line.deep_view();
                    r.push(line);
                    assert(r.deep_view() =~= before + seq![said]);
                },
            }
            r
        },
    }
}

/// How many log lines are shown.
pub const SHOWN_LOGS: usize = 60;

/// The smaller of two numbers.
pub open spec fn least(a: int, b: int) -> int {
    if a <= b {
        a
    } else {
        b
    }
}

/// How many of the newest log lines can be scrolled to.
pub open spec fn log_reach(logs: Seq<Seq<char>>) -> int {
    least(logs.len() as int, ui::LOG_LIMIT as int)
}

/// How many of the newest log lines are passed over: never all of them.
pub open spec fn log_start(logs: Seq<Seq<char>>, scroll: int) -> int {
    least(
        scroll,
        if log_reach(logs) > 0 {
            log_reach(logs) - 1
        } else {
            0
        },
    )
}

/// What the log section shows: the newest line first, from where it is scrolled to.
pub open spec fn log_text(logs: Seq<Seq<char>>, scroll: int) -> Seq<LineView> {
    let from = log_start(logs, scroll);
    Seq::new(
        least(log_reach(logs) - from, SHOWN_LOGS as int) as nat,
        |i: int| plain(logs[logs.len() - 1 - from - i]),
    )
}

/// What the log section shows: the newest line first, from where it is scrolled to.
pub fn log_lines(logs: &Vec<String>, scroll: usize) -> (r: Vec<TextLine>)
    ensures
        r.deep_view() == log_text(logs.deep_view(), scroll as int),
{
    let n: usize = logs.len();
    let reach: usize = if n < ui::LOG_LIMIT {
        n
    } else {
        ui::LOG_LIMIT
    };
    let last: usize = if reach > 0 {
        reach - 1
    } else {
        0
    };
    let from: usize = if scroll < last {
        scroll
    } else {
        last
    };
    let ghost want = log_text(logs.deep_view(), scroll as int);
    let mut r: Vec<TextLine> = Vec::new();
    let mut i: usize = 0;
    assert(r.deep_view() =~= want.take(0));
    while i < SHOWN_LOGS && i < reach - from
        invariant
            n == logs@.len(),
            reach == log_reach(logs.deep_view()),
            from == log_start(logs.deep_view(), scroll as int),
            from <= reach <= n,
            want == log_text(logs.deep_view(), scroll as int),
            i <= want.len(),
            r.deep_view() == want.take(i as int),
        decreases want.len() - i,
    {
        let ghost before = r.deep_view();
        let at: usize = n - 1 - from - i;
        assert(logs.deep_view()[at as int] == logs@[at as int]@);
        r.push(raw(logs[at].clone()));
        assert(r.deep_view() =~= before.push(want[i as int]));
        assert(want.take(i + 1) =~= before.push(want[i as int]));
        i = i + 1;
    }
    assert(want.take(i as int) =~= want);
    r
}

/// What the last line of the screen shows.
pub open spec fn footer_text(s: UiView) -> Seq<char> {
    let keys = if s.paths.len() > 1 {
        "Tab: focus  ←/→: game ("@ + text::decimal((s.active + 1) as nat) + "/"@ + text::decimal(
            s.paths.len(),
        ) + ")"@
    } else {
        "Tab: focus"@
    };
    keys + " | r: refresh  s: sync  h: help  q: quit"@ + if s.busy {
        "   [busy]"@
    } else {
        ""@
    }
}

/// What the last line of the screen shows.
pub fn footer(state: &UiState) -> (r: String)
    requires
        state.active < state.paths@.len(),
    ensures
        r@ == footer_text(state.deep_view()),
{
    let keys = if state.paths.len() > 1 {
        let at = text::number((state.active + 1) as u64);
        let of = text::number(state.paths.len() as u64);
        "Tab: focus  ←/→: game (".to_owned().concat(at.as_str()).concat("/").concat(
            of.as_str(),
        ).concat(")")
    } else {
        "Tab: focus".to_owned()
    };
    keys.concat(" | r: refresh  s: sync  h: help  q: quit").concat(
        if state.busy {
            "   [busy]"
        } else {
            ""
        },
    )
}

/// What the help shows.
pub open spec fn help_text() -> Seq<LineView> {
    seq![
        plain("kuro — Kuro Games launcher (native, no wine)"@),
        plain(""@),
        plain("  keys:"@),
        plain("    r        refresh status            d   predownload update"@),
        plain("    a        apply update              s   sync / repair files"@),
        plain("    c        checkout server (CN<->B)  i   install a new game"@),
        plain("    s        (in install) Steam default target"@),
        plain("    t        (in install) edit target path"@),
        plain("    Tab      cycle focus (status/task/log)"@),
        plain("    ←/→      switch game (multi-folder)"@),
        plain("    ↑/↓ PgUp/PgDn scroll log (log focused) h/?  this help"@),
        plain("    q        quit"@),
        plain(""@),
        plain("  install a new game (also available via 'i'):"@),
        plain("    kuro install wuwa cn ~/Games/WutheringWaves"@),
        plain("    kuro install pgr global ~/PGR"@),
        plain("  installs the GAME files only (no launcher — on Linux you"@),
        plain("  launch the game .exe via Steam + GE-Proton afterwards)"@),
        plain("  installed games are auto-detected in Steam libraries;"@),
        plain("  or pass folders: kuro <folder1> <folder2> ...  (Tab switches)"@),
        plain(""@),
        plain("  press h / ? / Esc to close"@),
    ]
}

/// What the help shows.
pub fn help_lines() -> (r: Vec<TextLine>)
    ensures
        r.deep_view() == help_text(),
{
    let r = vec![
        raw("kuro — Kuro Games launcher (native, no wine)".to_owned()),
        raw("".to_owned()),
        raw("  keys:".to_owned()),
        raw("    r        refresh status            d   predownload update".to_owned()),
        raw("    a        apply update              s   sync / repair files".to_owned()),
        raw("    c        checkout server (CN<->B)  i   install a new game".to_owned()),
        raw("    s        (in install) Steam default target".to_owned()),
        raw("    t        (in install) edit target path".to_owned()),
        raw("    Tab      cycle focus (status/task/log)".to_owned()),
        raw("    ←/→      switch game (multi-folder)".to_owned()),
        raw("    ↑/↓ PgUp/PgDn scroll log (log focused) h/?  this help".to_owned()),
        raw("    q        quit".to_owned()),
        raw("".to_owned()),
        raw("  install a new game (also available via 'i'):".to_owned()),
        raw("    kuro install wuwa cn ~/Games/WutheringWaves".to_owned()),
        raw("    kuro install pgr global ~/PGR".to_owned()),
        raw("  installs the GAME files only (no launcher — on Linux you".to_owned()),
        raw("  launch the game .exe via Steam + GE-Proton afterwards)".to_owned()),
        raw("  installed games are auto-detected in Steam libraries;".to_owned()),
        raw("  or pass folders: kuro <folder1> <folder2> ...  (Tab switches)".to_owned()),
        raw("".to_owned()),
        raw("  press h / ? / Esc to close".to_owned()),
    ];
    assert(r.deep_view() =~= help_text());
    r
}

/// The lines of the installation dialog that speak of what is chosen.
pub open spec fn draft_text(d: DraftView) -> Seq<LineView> {
    seq![
        plain("Install a new game"@),
        plain(""@),
        plain(
            if d.edit_target {
                "  target:  [EDITING — type, Backspace, Enter/Esc when done]"@
            } else {
                "  target:"@
            },
        ),
        plain("           "@ + d.target),
        plain(
            "  game:    [w]uwa / [p]gr            -> "@ + if d.game == Game::WuWa {
                "wuwa"@
            } else {
                "pgr"@
            },
        ),
        plain(
            "  server:  [c]n / [b]ilibili / [g]lobal  -> "@ + config::server_name(d.server),
        ),
        plain(""@),
    ]
}

/// The lines of the installation dialog that speak of Steam.
pub open spec fn steam_text(steam: Option<SteamInfoView>) -> Seq<LineView> {
    match steam {
        Some(info) => {
            let proton = if info.protons.len() > 0 {
                match paths::name_of(info.protons[0]) {
                    Some(name) => name,
                    None => "none"@,
                }
            } else {
                "none"@
            };
            seq![
                plain("  [s]: Steam default ("@ + info.steam_root + ")"@),
                plain("  Steam: "@ + info.steam_root + "  Proton: "@ + proton),
            ]
        },
        None => seq![plain("  Steam: not detected — type the target with [t]"@)],
    }
}

/// The last lines of the installation dialog.
pub open spec fn dialog_end() -> Seq<LineView> {
    seq![
        plain("  [t]: edit target    Esc: cancel"@),
        LineView { text: "  Enter: start install"@, tint: Tint::Cyan },
        plain(""@),
        plain("  installs the GAME files (launcher NOT included)"@),
        plain("  wuwa ~85 GB / pgr ~64 GB; resumable, md5-verified"@),
        plain("  afterwards: launch the game .exe via Steam + GE-Proton"@),
    ]
}

fn push_steam_lines(steam: &Option<SteamInfo>, out: &mut Vec<TextLine>)
    ensures
        final(out).deep_view() == old(out).deep_view() + steam_text(steam.deep_view()),
{
    let ghost start = out.deep_view();
    match steam {
        Some(info) => {
            let proton = match info.proton() {
                Some(p) => match paths::file_name(p) {
                    Some(name) => name,
                    None => "none".to_owned(),
                },
                None => "none".to_owned(),
            };
            assert(info.protons@.len() > 0 ==> info.deep_view().protons[0] == info.protons@[0]@);
            let root = info.steam_root.as_str();
            out.push(raw("  [s]: Steam default (".to_owned().concat(root).concat(")")));
            out.push(
                raw(
                    "  Steam: ".to_owned().concat(root).concat("  Proton: ").concat(
                        proton.as_str(),
                    ),
                ),
            );
        },
        None => {
            out.push(raw("  Steam: not detected — type the target with [t]".to_owned()));
        },
    }
    assert(out.deep_view() =~= start + steam_text(steam.deep_view()));
}

/// What the installation dialog shows.
pub fn dialog_lines(draft: &InstallDraft, steam: &Option<SteamInfo>) -> (r: Vec<TextLine>)
    ensures
        r.deep_view() == draft_text(draft.deep_view()) + steam_text(steam.deep_view())
            + dialog_end(),
{
    let server = draft.server.to_string();
    let game = match draft.game {
        Game::WuWa => "wuwa",
        Game::Pgr => "pgr",
    };
    let target = if draft.edit_target {
        "  target:  [EDITING — type, Backspace, Enter/Esc when done]"
    } else {
        "  target:"
    };
    let mut r = vec![
        raw("Install a new game".to_owned()),
        raw("".to_owned()),
        raw(target.to_owned()),
        raw("           ".to_owned().concat(draft.target.as_str())),
        raw("  game:    [w]uwa / [p]gr            -> ".to_owned().concat(game)),
        raw("  server:  [c]n / [b]ilibili / [g]lobal  -> ".to_owned().concat(server.as_str())),
        raw("".to_owned()),
    ];
    assert(r.deep_view() =~= draft_text(draft.deep_view()));
    push_steam_lines(steam, &mut r);
    let ghost before = r.deep_view();
    r.push(raw("  [t]: edit target    Esc: cancel".to_owned()));
    r.push(TextLine { text: "  Enter: start install".to_owned(), tint: Tint::Cyan });
    r.push(raw("".to_owned()));
    r.push(raw("  installs the GAME files (launcher NOT included)".to_owned()));
    r.push(raw("  wuwa ~85 GB / pgr ~64 GB; resumable, md5-verified".to_owned()));
    r.push(raw("  afterwards: launch the game .exe via Steam + GE-Proton".to_owned()));
    assert(r.deep_view() =~= before + dialog_end());
    r
}

/// What lies over the sections.
#[derive(Debug)]
pub struct Overlay {
    pub panel: Panel,
    /// How much of the screen it covers, in percent of its width and its height.
    pub percent_x: u16,
    pub percent_y: u16,
    /// Whether long lines are wrapped.
    pub wrap: bool,
}

/// The model of [`Overlay`].
#[verifier::ext_equal]
pub struct OverlayView {
    pub panel: PanelView,
    pub percent_x: u16,
    pub percent_y: u16,
    pub wrap: bool,
}

impl DeepView for Overlay {
    type V = OverlayView;

    open spec fn deep_view(&self) -> OverlayView {
        OverlayView {
            panel: self.panel.deep_view(),
            percent_x: self.percent_x,
            percent_y: self.percent_y,
            wrap: self.wrap,
        }
    }
}

/// What lies over the sections: the help where it is open, else the installation dialog where it is
/// open.
pub open spec fn overlay_of(s: UiView) -> Option<OverlayView> {
    if s.show_help {
        Some(
            OverlayView {
                panel: PanelView { title: "help"@, border: Tint::Unset, lines: help_text() },
                percent_x: 70,
                percent_y: 60,
                wrap: false,
            },
        )
    } else {
        match s.install {
            Some(d) => Some(
                OverlayView {
                    panel: PanelView {
                        title: "install"@,
                        border: Tint::Unset,
                        lines: draft_text(d) + steam_text(s.steam) + dialog_end(),
                    },
                    percent_x: 75,
                    percent_y: 55,
                    wrap: true,
                },
            ),
            None => None,
        }
    }
}

/// Everything that the interface shows.
#[derive(Debug)]
pub struct Screen {
    pub statuses: Vec<Panel>,
    pub task: Panel,
    pub log: Panel,
    pub footer: String,
    pub overlay: Option<Overlay>,
}

/// The model of [`Screen`].
#[verifier::ext_equal]
pub struct ScreenView {
    pub statuses: Seq<PanelView>,
    pub task: PanelView,
    pub log: PanelView,
    pub footer: Seq<char>,
    pub overlay: Option<OverlayView>,
}

impl DeepView for Screen {
    type V = ScreenView;

    open spec fn deep_view(&self) -> ScreenView {
        ScreenView {
            statuses: self.statuses.deep_view(),
            task: self.task.deep_view(),
            log: self.log.deep_view(),
            footer: self.footer@,
            overlay: self.overlay.deep_view(),
        }
    }
}

/// Everything that the interface shows; `overall` and `bars` are the bars of the running task.
pub open spec fn screen_of(s: UiView, overall: BarView, bars: Seq<BarView>) -> ScreenView {
    ScreenView {
        statuses: status_boxes(s),
        task: PanelView {
            title: "task"@,
            border: focus_tint(s.focus == Focus::Task, Tint::Reset),
            lines: task_text(s.task, overall, bars),
        },
        log: PanelView {
            title: "log (↑/↓ PgUp/PgDn)"@,
            border: focus_tint(s.focus == Focus::Log, Tint::Reset),
            lines: log_text(s.logs, s.log_scroll as int),
        },
        footer: footer_text(s),
        overlay: overlay_of(s),
    }
}

fn tint_of(focused: bool, otherwise: Tint) -> (r: Tint)
    ensures
        r == focus_tint(focused, otherwise),
{
    if focused {
        Tint::Yellow
    } else {
        otherwise
    }
}

fn box_lines(state: &UiState, i: usize, busy: bool) -> (r: Vec<TextLine>)
    ensures
        r.deep_view() == status_lines(
            if i < state.deep_view().statuses.len() {
                state.deep_view().statuses[i as int]
            } else {
                None
            },
            busy,
        ),
{
    if i < state.statuses.len() {
        assert(state.deep_view().statuses[i as int] == ui::slot(state.statuses@[i as int]));
        status_box_lines(&state.statuses[i], busy)
    } else {
        status_box_lines(&None, busy)
    }
}

fn status_panels(state: &UiState) -> (r: Vec<Panel>)
    ensures
        r.deep_view() == status_boxes(state.deep_view()),
{
    let ghost s = state.deep_view();
    let ghost want = status_boxes(s);
    let focused = state.focus == Focus::Status;
    let mut r: Vec<Panel> = Vec::new();
    let n: usize = state.paths.len();
    if n > 1 {
        let mut i: usize = 0;
        assert(r.deep_view() =~= want.take(0));
        while i < n
            invariant
                n == state.paths@.len(),
                n > 1,
                i <= n,
                s == state.deep_view(),
                want == status_boxes(s),
                focused == (s.focus == Focus::Status),
                r.deep_view() == want.take(i as int),
            decreases n - i,
        {
            let ghost before = r.deep_view();
            assert(s.paths[i as int] == state.paths@[i as int]@);
            let name = text::basename(state.paths[i].as_str());
            let active = i == state.active;
            let lines = box_lines(state, i, active && state.busy);
            let panel = if active {
                Panel {
                    title: "▶ ".to_owned().concat(name.as_str()),
                    border: tint_of(focused, Tint::Cyan),
                    lines,
                }
            } else {
                Panel { title: name, border: Tint::Unset, lines }
            };
            let ghost said = panel.deep_view();
            r.push(panel);
            assert(r.deep_view() =~= before.push(said));
            assert(said == want[i as int]);
            assert(want.take(i + 1) =~= before.push(want[i as int]));
            i = i + 1;
        }
        assert(want.take(n as int) =~= want);
    } else {
        let lines = box_lines(state, 0, state.busy);
        r.push(
            Panel { title: "status".to_owned(), border: tint_of(focused, Tint::Reset), lines },
        );
        assert(r.deep_view() =~= want);
    }
    r
}

fn overlay(state: &UiState) -> (r: Option<Overlay>)
    ensures
        r.deep_view() == overlay_of(state.deep_view()),
{
    if state.show_help {
        return Some(
            Overlay {
                panel: Panel {
                    title: "help".to_owned(),
                    border: Tint::Unset,
                    lines: help_lines(),
                },
                percent_x: 70,
                percent_y: 60,
                wrap: false,
            },
        );
    }
    match &state.install {
        Some(draft) => Some(
            Overlay {
                panel: Panel {
                    title: "install".to_owned(),
                    border: Tint::Unset,
                    lines: dialog_lines(draft, &state.steam),
                },
                percent_x: 75,
                percent_y: 55,
                wrap: true,
            },
        ),
        None => None,
    }
}

/// Everything that the interface shows; `overall` and `bars` are the bars of the running task and
/// of the files that it fetches.
pub fn ui(state: &UiState, overall: &Bar, bars: &Vec<Bar>) -> (r: Screen)
    requires
        state.active < state.paths@.len(),
        state.task is Some ==> bars@.len() >= shown(state.task->0.deep_view()),
    ensures
        r.deep_view() == screen_of(state.deep_view(), overall.deep_view(), bars.deep_view()),
{
    Screen {
        statuses: status_panels(state),
        task: Panel {
            title: "task".to_owned(),
            border: tint_of(state.focus == Focus::Task, Tint::Reset),
            lines: task_lines(&state.task, overall, bars),
        },
        log: Panel {
            title: "log (↑/↓ PgUp/PgDn)".to_owned(),
            border: tint_of(state.focus == Focus::Log, Tint::Reset),
            lines: log_lines(&state.logs, state.log_scroll),
        },
        footer: footer(state),
        overlay: overlay(state),
    }
}

/// The newest log line is shown at the top while the log is not scrolled, and however far it is
/// scrolled a line is shown, where there is one.
pub proof fn law_log_always_shows(logs: Seq<Seq<char>>, scroll: int)
    requires
        logs.len() > 0,
        scroll >= 0,
    ensures
        log_text(logs, scroll).len() > 0,
        log_text(logs, 0)[0].text == logs.last(),
{
}

/// A game on which a task is running is never called up to date.
pub proof fn law_busy_is_not_up_to_date(g: GameStatusView, i: int)
    requires
        0 <= i < status_lines(Some(Ok(g)), true).len(),
    ensures
        status_lines(Some(Ok(g)), true)[i].tint != Tint::Green,
        status_lines(Some(Ok(g)), true).last().text == "updating…"@,
{
}

}
