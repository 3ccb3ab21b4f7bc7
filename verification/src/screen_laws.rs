//! What the screen shows.

use vstd::prelude::*;

use crate::area;
use crate::area::{Area, Way};
use crate::config::Game;
use crate::game::GameStatusView;
use crate::paths;
use crate::screen;
use crate::screen::{BarView, LineView, Tint};
use crate::steam::SteamInfoView;
use crate::text;
use crate::ui;
use crate::ui::{DraftView, Focus, TaskView, UiView};
use crate::word_laws;

verus! {

/// The box of a game shows its names, the installed version, the one on the server, and whether it is
/// being updated, can be updated or is up to date; or why nothing is known of it.
pub proof fn law_status_box(g: GameStatusView, e: Seq<char>, busy: bool)
    ensures
        ({
            let lines = screen::status_lines(Some(Ok(g)), busy);
            &&& lines.len() == 5
            &&& lines[0].text == "game:    "@ + word_laws::short_name(g.game)
            &&& lines[1].text == "server:  "@ + word_laws::channel_name(g.server)
            &&& lines[2].text == "local:   "@ + (if g.local_version is Some {
                g.local_version->0
            } else {
                "none"@
            })
            &&& lines[3].text == "remote:  "@ + g.remote_version
            &&& busy ==> lines[4] == (LineView { text: "updating…"@, tint: Tint::Yellow })
            &&& !busy && g.update_available ==> lines[4] == (LineView {
                text: "UPDATE AVAILABLE"@,
                tint: Tint::Yellow,
            })
            &&& !busy && !g.update_available ==> lines[4] == (LineView {
                text: "up to date"@,
                tint: Tint::Green,
            })
        }),
        screen::status_lines(Some(Err(e)), busy).len() == 1,
        screen::status_lines(Some(Err(e)), busy)[0] == (LineView {
            text: "error: "@ + e,
            tint: Tint::Red,
        }),
        screen::status_lines(None, busy).len() == 1,
        screen::status_lines(None, busy)[0].text == "loading..."@,
{
}

/// With several games there is a box for each, named by its folder; the active one is marked, and only
/// it shows the running task. A single game has a box without a name.
pub proof fn law_status_boxes(s: UiView, i: int)
    requires
        s.wf(),
        0 <= i < s.paths.len(),
    ensures
        ({
            let boxes = screen::status_boxes(s);
            let name = text::last_segment(s.paths[i]);
            &&& s.paths.len() > 1 ==> {
                &&& boxes.len() == s.paths.len()
                &&& i == s.active ==> boxes[i].title == "▶ "@ + name && boxes[i].lines
                    == screen::status_lines(s.statuses[i], s.busy) && boxes[i].border == (if s.focus
                    == Focus::Status {
                    Tint::Yellow
                } else {
                    Tint::Cyan
                })
                &&& i != s.active ==> boxes[i].title == name && boxes[i].lines
                    == screen::status_lines(s.statuses[i], false) && boxes[i].border == Tint::Unset
            }
            &&& s.paths.len() == 1 ==> boxes.len() == 1 && boxes[0].title == "status"@
                && boxes[0].lines == screen::status_lines(s.statuses[0], s.busy)
        }),
{
}

/// A bar has as many cells as it is wide: first the filled ones, then the empty ones.
pub proof fn law_bar_cells(filled: nat, width: nat, i: int)
    requires
        0 <= i < width,
    ensures
        screen::cells(filled, width).len() == width,
        screen::cells(filled, width)[i] == if i < filled {
            '█'
        } else {
            '░'
        },
{
}

/// The line of a bar holds its cells, the percentage, the bytes and the label; of a file whose size is
/// not known only the label.
pub proof fn law_bar_line(label: Seq<char>, total: u64, width: nat, bar: BarView)
    ensures
        total == 0 ==> screen::bar_text(label, total, width, bar) == label + ": ?"@,
        total > 0 ==> screen::bar_text(label, total, width, bar) == "["@ + screen::cells(
            bar.filled,
            width,
        ) + "] "@ + bar.percent + "%  "@ + bar.done + "/"@ + bar.total + "  "@ + label,
{
}

/// A text that is too long loses characters at its front, for which an ellipsis stands.
pub proof fn law_long_names_keep_their_end(s: Seq<char>, max: int)
    requires
        max > 0,
    ensures
        s.len() <= max ==> screen::tail_text(s, max) == s,
        s.len() > max ==> screen::tail_text(s, max).len() == max && screen::tail_text(s, max)[0]
            == '…' && forall|i: int|
            1 <= i < max ==> #[trigger] screen::tail_text(s, max)[i] == s[s.len() - max + i],
{
    reveal_strlit("…");
}

/// The log section shows the newest line first, from where it is scrolled to; at most sixty lines, and
/// only those that the log reaches.
pub proof fn law_log_section(logs: Seq<Seq<char>>, scroll: int, i: int)
    requires
        0 < logs.len() <= 200,
        0 <= scroll,
    ensures
        ({
            let from: int = if scroll < logs.len() { scroll } else { logs.len() - 1 };
            let lines = screen::log_text(logs, scroll);
            &&& logs.len() - from <= 60 ==> lines.len() == logs.len() - from
            &&& logs.len() - from > 60 ==> lines.len() == 60
            &&& 0 <= i < lines.len() ==> lines[i].text == logs[logs.len() - 1 - from - i]
                && lines[i].tint == Tint::Unset
        }),
        screen::log_text(Seq::empty(), scroll).len() == 0,
{
}

/// The last line tells the keys, the place of the active game where there are several, and whether a
/// task is running.
pub proof fn law_footer(s: UiView)
    ensures
        ({
            let keys = " | r: refresh  s: sync  h: help  q: quit"@;
            let busy = if s.busy { "   [busy]"@ } else { ""@ };
            &&& s.paths.len() > 1 ==> screen::footer_text(s) == "Tab: focus  ←/→: game ("@
                + text::decimal((s.active + 1) as nat) + "/"@ + text::decimal(s.paths.len()) + ")"@
                + keys + busy
            &&& s.paths.len() <= 1 ==> screen::footer_text(s) == "Tab: focus"@ + keys + busy
        }),
{
}

/// The help lies over everything while it is open, else the installation dialog while that is open,
/// else nothing.
pub proof fn law_overlay(s: UiView)
    ensures
        s.show_help ==> {
            let o = screen::overlay_of(s);
            &&& o is Some
            &&& o->0.panel.title == "help"@
            &&& o->0.panel.lines == screen::help_text()
            &&& o->0.percent_x == 70
            &&& o->0.percent_y == 60
            &&& !o->0.wrap
        },
        !s.show_help && s.install is Some ==> {
            let o = screen::overlay_of(s);
            &&& o is Some
            &&& o->0.panel.title == "install"@
            &&& o->0.panel.lines == screen::draft_text(s.install->0) + screen::steam_text(s.steam)
                + screen::dialog_end()
            &&& o->0.percent_x == 75
            &&& o->0.percent_y == 55
            &&& o->0.wrap
        },
        !s.show_help && s.install is None ==> screen::overlay_of(s) is None,
{
}

/// The dialog shows what is chosen.
pub proof fn law_dialog_shows_the_choice(d: DraftView)
    ensures
        ({
            let lines = screen::draft_text(d);
            &&& lines.len() == 7
            &&& lines[2].text == (if d.edit_target {
                "  target:  [EDITING — type, Backspace, Enter/Esc when done]"@
            } else {
                "  target:"@
            })
            &&& lines[3].text == "           "@ + d.target
            &&& d.game == Game::WuWa ==> lines[4].text
                == "  game:    [w]uwa / [p]gr            -> "@ + "wuwa"@
            &&& d.game == Game::Pgr ==> lines[4].text
                == "  game:    [w]uwa / [p]gr            -> "@ + "pgr"@
            &&& lines[5].text == "  server:  [c]n / [b]ilibili / [g]lobal  -> "@
                + word_laws::channel_name(d.server)
        }),
{
}

/// The dialog tells where Steam is and which Proton version would be used, or that there is none.
pub proof fn law_dialog_shows_steam(info: SteamInfoView)
    ensures
        ({
            let lines = screen::steam_text(Some(info));
            &&& lines.len() == 2
            &&& lines[0].text == "  [s]: Steam default ("@ + info.steam_root + ")"@
            &&& info.protons.len() == 0 ==> lines[1].text == "  Steam: "@ + info.steam_root
                + "  Proton: "@ + "none"@
            &&& info.protons.len() > 0 && paths::name_of(info.protons[0]) is Some ==> lines[1].text
                == "  Steam: "@ + info.steam_root + "  Proton: "@ + paths::name_of(
                info.protons[0],
            )->0
        }),
        screen::steam_text(None).len() == 1,
        screen::steam_text(None)[0].text == "  Steam: not detected — type the target with [t]"@,
{
}

/// What is centred begins where half of the rest ends, to within half a cell.
pub proof fn law_centered_in_the_middle(size: int, percent: int)
    requires
        0 <= size,
        0 <= percent <= 100,
    ensures
        ({
            let side = (100 - percent) / 2;
            side * size - 50 <= 100 * area::centered(size, percent).0 <= side * size + 50
        }),
{
    let side = (100 - percent) / 2;
    assert(0 <= side * size) by (nonlinear_arith)
        requires
            0 <= side,
            0 <= size,
    ;
}

/// The sections have their titles, and the one that the keys go to has a yellow border.
pub proof fn law_sections(s: UiView, overall: BarView, bars: Seq<BarView>)
    ensures
        ({
            let shown = screen::screen_of(s, overall, bars);
            &&& shown.task.title == "task"@
            &&& shown.log.title == "log (↑/↓ PgUp/PgDn)"@
            &&& shown.task.border == Tint::Yellow <==> s.focus == Focus::Task
            &&& shown.log.border == Tint::Yellow <==> s.focus == Focus::Log
            &&& shown.statuses == screen::status_boxes(s)
            &&& shown.task.lines == screen::task_text(s.task, overall, bars)
            &&& shown.log.lines == screen::log_text(s.logs, s.log_scroll as int)
            &&& shown.footer == screen::footer_text(s)
            &&& shown.overlay == screen::overlay_of(s)
        }),
{
}

/// The task section shows the kind of the task, its counts, the bar of the whole where its size is
/// known, the bars of at most eight files, and how the task ended.
pub proof fn law_task_section(t: TaskView, overall: BarView, bars: Seq<BarView>, i: int)
    ensures
        ({
            let lines = screen::task_text(Some(t), overall, bars);
            let k: int = if t.total_bytes > 0 { 3 } else { 2 };
            let m: int = if t.files.len() < 8 { t.files.len() as int } else { 8 };
            let e: int = if t.finished is Some { 1 } else { 0 };
            &&& lines.len() == k + m + e
            &&& lines[0].text == "task: "@ + t.kind
            &&& lines[1].text == "files done: "@ + text::decimal(t.done as nat) + "   queued: "@
                + text::decimal(t.queued as nat)
            &&& t.total_bytes > 0 ==> lines[2].text == screen::bar_text(
                "overall"@,
                t.total_bytes,
                34,
                overall,
            )
            &&& 0 <= i < m ==> lines[k + i].text == "  "@ + screen::bar_text(
                screen::tail_text(t.files[i].name, 42),
                t.files[i].total,
                24,
                bars[i],
            )
            &&& t.finished is Some && t.finished->0 is Ok ==> lines.last() == (LineView {
                text: "✔ "@ + t.finished->0->Ok_0,
                tint: Tint::Green,
            })
            &&& t.finished is Some && t.finished->0 is Err ==> lines.last() == (LineView {
                text: "✘ "@ + ui::friendly(t.finished->0->Err_0),
                tint: Tint::Red,
            })
        }),
        screen::task_text(None, overall, bars).len() == 1,
        screen::task_text(None, overall, bars)[0].text == "idle"@,
{
}

/// What is said of areas: which reach as far as another, which lie on a terminal, and which lie one
/// behind the other.
pub proof fn law_terms_of_areas(a: Area, whole: Area, parts: Seq<Area>, i: int)
    ensures
        area::spans(a, whole, Way::Down) <==> a.x == whole.x && a.width == whole.width,
        area::spans(a, whole, Way::Across) <==> a.y == whole.y && a.height == whole.height,
        area::is_on_terminal(a, Way::Down) <==> a.y + a.height <= 65535,
        area::is_on_terminal(a, Way::Across) <==> a.x + a.width <= 65535,
        area::tiles(parts, whole, Way::Down) && 0 <= i < parts.len() - 1 ==> parts[i].y
            + parts[i].height == parts[i + 1].y && parts[0].y == whole.y,
        area::tiles(parts, whole, Way::Across) && 0 <= i < parts.len() - 1 ==> parts[i].x
            + parts[i].width == parts[i + 1].x && parts[0].x == whole.x,
        area::tiles(parts, whole, Way::Down) && 0 <= i < parts.len() ==> parts[i].y
            + parts[i].height <= whole.y + whole.height,
        area::tiles(parts, whole, Way::Across) && 0 <= i < parts.len() ==> parts[i].x
            + parts[i].width <= whole.x + whole.width,
{
}

}
