//! Where on the terminal the sections, and what lies over them, are drawn.

use ratatui::layout::{Constraint, Layout, Rect};
use vstd::prelude::*;

verus! {

/// A rectangle of the terminal.
#[derive(Debug, Clone, Copy, PartialEq, Eq, Structural)]
pub struct Area {
    pub x: u16,
    pub y: u16,
    pub width: u16,
    pub height: u16,
}

/// How an area is divided.
#[derive(Debug, Clone, Copy, PartialEq, Eq, Structural)]
pub enum Way {
    /// Into areas one under the other.
    Down,
    /// Into areas side by side.
    Across,
}

/// How large a part of an area is wanted.
#[derive(Debug, Clone, Copy, PartialEq, Eq, Structural)]
pub enum Part {
    /// So many cells.
    Length(u16),
    /// At least so many cells.
    Min(u16),
    /// So many percent of the area.
    Percentage(u16),
    /// The first number of shares, where the area has as many as the second number.
    Ratio(u32, u32),
}

/// Whether one area reaches as far as another one in the direction in which that is not divided.
pub open spec fn spans(a: Area, whole: Area, way: Way) -> bool {
    match way {
        Way::Down => a.x == whole.x && a.width == whole.width,
        Way::Across => a.y == whole.y && a.height == whole.height,
    }
}

/// Where an area begins in the direction in which it is divided.
pub open spec fn start(a: Area, way: Way) -> int {
    match way {
        Way::Down => a.y as int,
        Way::Across => a.x as int,
    }
}

/// How many cells an area has in the direction in which it is divided.
pub open spec fn extent(a: Area, way: Way) -> int {
    match way {
        Way::Down => a.height as int,
        Way::Across => a.width as int,
    }
}

/// Whether the cells of an area can be counted from the corner of the terminal.
pub open spec fn is_on_terminal(a: Area, way: Way) -> bool {
    start(a, way) + extent(a, way) <= u16::MAX
}

/// Whether areas lie one behind the other, from where the whole begins and never behind its end.
pub open spec fn tiles(areas: Seq<Area>, whole: Area, way: Way) -> bool {
    &&& areas.len() > 0 ==> start(areas[0], way) == start(whole, way)
    &&& forall|i: int|
        0 <= i < areas.len() - 1 ==> start(#[trigger] areas[i], way) + extent(areas[i], way)
            == start(areas[i + 1], way)
    &&& forall|i: int|
        0 <= i < areas.len() ==> start(#[trigger] areas[i], way) + extent(areas[i], way) <= start(
            whole,
            way,
        ) + extent(whole, way)
}

/// How much a part asks for, in hundredths of a cell; a part that takes the rest asks for nothing.
pub open spec fn share(part: Part, size: int) -> int {
    match part {
        Part::Length(n) => 100 * n,
        Part::Percentage(n) => n * size,
        Part::Min(_) => 0,
        Part::Ratio(_, _) => 0,
    }
}

/// How much the first `n` parts ask for, in hundredths of a cell.
pub open spec fn shares(parts: Seq<Part>, size: int, n: int) -> int
    decreases n,
{
    if n <= 0 {
        0
    } else {
        shares(parts, size, n - 1) + share(parts[n - 1], size)
    }
}

/// Whether the part at `k` takes the rest.
pub open spec fn takes_rest(parts: Seq<Part>, k: int) -> bool {
    0 <= k < parts.len() && parts[k] is Min
}

/// Whether the parts are lengths and percentages, and at most one that takes the rest.
pub open spec fn are_plain(parts: Seq<Part>) -> bool {
    &&& forall|i: int| 0 <= i < parts.len() ==> !(#[trigger] parts[i] is Ratio)
    &&& forall|i: int, j: int|
        #[trigger] takes_rest(parts, i) && #[trigger] takes_rest(parts, j) ==> i == j
}

/// Whether the percentages among the parts go in steps of five.
pub open spec fn are_round(parts: Seq<Part>) -> bool {
    forall|i: int|
        0 <= i < parts.len() && (#[trigger] parts[i]) is Percentage ==> parts[i]->Percentage_0 % 5
            == 0
}

/// Whether an area of this size has room for what the parts ask for.
pub open spec fn fit_together(parts: Seq<Part>, size: int) -> bool {
    &&& are_plain(parts)
    &&& shares(parts, size, parts.len() as int) <= 100 * size
    &&& forall|k: int|
        #[trigger] takes_rest(parts, k) ==> shares(parts, size, parts.len() as int) + 100
            * parts[k]->Min_0 <= 100 * size
}

/// Where the first `n` parts end, in hundredths of a cell: behind what they ask for, and behind the
/// rest where it is among them.
pub open spec fn reach(parts: Seq<Part>, size: int, n: int) -> int {
    shares(parts, size, n) + if exists|k: int| #[trigger] takes_rest(parts, k) && k < n {
        100 * size - shares(parts, size, parts.len() as int)
    } else {
        0
    }
}

/// The cell nearest to where the first `n` parts end.
pub open spec fn edge(parts: Seq<Part>, size: int, n: int) -> int {
    (reach(parts, size, n) + 50) / 100
}

/// Whether the parts are shares of one size, as many as make the whole.
pub open spec fn are_equal_shares(parts: Seq<Part>) -> bool {
    forall|i: int| 0 <= i < parts.len() ==> #[trigger] parts[i] == Part::Ratio(1, parts.len() as u32)
}

/// The cell nearest to where the first `n` of `of` equal shares end; up to five thousandths below a
/// half count as a half.
pub open spec fn share_edge(size: int, of: int, n: int) -> int {
    (200 * n * size + 101 * of) / (200 * of)
}

/// Calls `ratatui::layout::Layout::split`. Claimed is that there is one area for each part that is
/// wanted, and that each reaches as far as the whole in the direction that is not divided. In the
/// other direction:
/// - Where lengths, percentages and at most one minimum fit together, each length and each
///   percentage gets what it asks for, the minimum gets the rest, and each border lies at the
///   nearest cell, from a half on at the next.
/// - Equal shares end at the nearest cell too.
/// - Up to five lengths, percentages in steps of five and at most one minimum lie one behind the
///   other even where they do not fit together. Which of them then has less than it asks for is left
///   unsaid: the solver behind the call walks hash maps that each process seeds anew, and ratatui
///   calls its result indeterminate.
///
/// Nothing is claimed of an area that reaches beyond the last cell that a terminal can have, nor of
/// 200 equal shares and more: there a border can lie exactly where the rounding turns.
#[verifier::external_body]
fn split(area: Area, way: Way, parts: &Vec<Part>) -> (r: Vec<Area>)
    ensures
        r@.len() == parts@.len(),
        forall|i: int| 0 <= i < r@.len() ==> spans(#[trigger] r@[i], area, way),
        is_on_terminal(area, way) && fit_together(parts@, extent(area, way)) ==> forall|i: int|
            0 <= i < r@.len() ==> {
                let size = extent(area, way);
                &&& start(#[trigger] r@[i], way) == start(area, way) + edge(parts@, size, i)
                &&& extent(r@[i], way) == edge(parts@, size, i + 1) - edge(parts@, size, i)
            },
        is_on_terminal(area, way) && are_equal_shares(parts@) && r@.len() < 200 ==> forall|i: int|
            0 <= i < r@.len() ==> {
                let size = extent(area, way);
                let of = r@.len() as int;
                &&& start(#[trigger] r@[i], way) == start(area, way) + share_edge(size, of, i)
                &&& extent(r@[i], way) == share_edge(size, of, i + 1) - share_edge(size, of, i)
            },
        is_on_terminal(area, way) && are_plain(parts@) && are_round(parts@) && r@.len() <= 5
            ==> tiles(r@, area, way),
{
    let wanted: Vec<Constraint> = parts.iter().map(|p| match *p {
        Part::Length(n) => Constraint::Length(n),
        Part::Min(n) => Constraint::Min(n),
        Part::Percentage(n) => Constraint::Percentage(n),
        Part::Ratio(n, of) => Constraint::Ratio(n, of),
    }).collect();
    let rect = Rect { x: area.x, y: area.y, width: area.width, height: area.height };
    let layout = match way {
        Way::Down => Layout::vertical(wanted),
        Way::Across => Layout::horizontal(wanted),
    };
    layout.split(rect).iter().map(|r| Area { x: r.x, y: r.y, width: r.width, height: r.height }).collect()
}

/// The parts of the screen from top to bottom: header, statuses, task, log, footer.
pub fn section_parts() -> (r: Vec<Part>)
    ensures
        r@ == seq![
            Part::Length(3),
            Part::Length(9),
            Part::Percentage(45),
            Part::Min(4),
            Part::Length(1),
        ],
{
    vec![
        Part::Length(3),
        Part::Length(9),
        Part::Percentage(45),
        Part::Min(4),
        Part::Length(1),
    ]
}

/// The areas of the sections from top to bottom: header, statuses, task, log, footer. They lie one
/// under the other; from 31 rows on header, statuses and footer have their rows, the task has 45
/// percent, and the log has the rest.
pub fn sections(screen: Area) -> (r: Vec<Area>)
    ensures
        r@.len() == 5,
        forall|i: int| 0 <= i < r@.len() ==> spans(#[trigger] r@[i], screen, Way::Down),
        is_on_terminal(screen, Way::Down) ==> tiles(r@, screen, Way::Down),
        is_on_terminal(screen, Way::Down) && screen.height >= 31 ==> {
            &&& r@[0].height == 3
            &&& r@[1].height == 9
            &&& r@[2].height == (45 * screen.height + 50) / 100
            &&& r@[3].height == screen.height - 13 - r@[2].height
            &&& r@[4].height == 1
        },
{
    let parts = section_parts();
    let r = split(screen, Way::Down, &parts);
    proof {
        let size = screen.height as int;
        reveal_with_fuel(shares, 6);
        assert(takes_rest(parts@, 3));
        assert(forall|k: int| #[trigger] takes_rest(parts@, k) ==> k == 3);
        if is_on_terminal(screen, Way::Down) && size >= 31 {
            assert(fit_together(parts@, size));
            assert(reach(parts@, size, 4) == 100 * size - 100);
            assert(reach(parts@, size, 5) == 100 * size);
            assert(extent(r@[0], Way::Down) == edge(parts@, size, 1) - edge(parts@, size, 0));
            assert(extent(r@[1], Way::Down) == edge(parts@, size, 2) - edge(parts@, size, 1));
            assert(extent(r@[2], Way::Down) == edge(parts@, size, 3) - edge(parts@, size, 2));
            assert(extent(r@[3], Way::Down) == edge(parts@, size, 4) - edge(parts@, size, 3));
            assert(extent(r@[4], Way::Down) == edge(parts@, size, 5) - edge(parts@, size, 4));
        }
    }
    r
}

/// The parts of the status section: an equal share for each game.
pub fn column_parts(n: u32) -> (r: Vec<Part>)
    ensures
        r@ == Seq::new(n as nat, |i: int| Part::Ratio(1, n)),
{
    let mut r: Vec<Part> = Vec::new();
    let mut i: u32 = 0;
    while i < n
        invariant
            i <= n,
            r@ == Seq::new(i as nat, |k: int| Part::Ratio(1, n)),
        decreases n - i,
    {
        r.push(Part::Ratio(1, n));
        i = i + 1;
        assert(r@ =~= Seq::new(i as nat, |k: int| Part::Ratio(1, n)));
    }
    r
}

/// An edge of a share lies inside the whole.
proof fn lemma_share_edge(size: int, of: int, n: int)
    requires
        0 <= size,
        0 < of,
        0 <= n <= of,
    ensures
        share_edge(size, of, n) <= size,
        n == 0 ==> share_edge(size, of, n) == 0,
{
    let top = 200 * n * size + 101 * of;
    let r = share_edge(size, of, n);
    vstd::arithmetic::div_mod::lemma_fundamental_div_mod(top, 200 * of);
    vstd::arithmetic::div_mod::lemma_mod_bound(top, 200 * of);
    assert(r <= size) by (nonlinear_arith)
        requires
            (200 * of) * r <= 200 * n * size + 101 * of,
            0 <= n <= of,
            0 <= size,
            of > 0,
    ;
    if n == 0 {
        assert(200 * 0 * size == 0) by (nonlinear_arith);
        assert((101 * of) / (200 * of) == 0) by (nonlinear_arith)
            requires
                of > 0,
        ;
    }
}

/// A share is less than one cell wider or narrower than it should be.
proof fn lemma_share_width(size: int, of: int, i: int)
    requires
        0 <= size,
        0 <= i < of,
    ensures
        size - of < of * (share_edge(size, of, i + 1) - share_edge(size, of, i)) < size + of,
{
    let a = 200 * i * size + 101 * of;
    let b = 200 * (i + 1) * size + 101 * of;
    let p = share_edge(size, of, i);
    let q = share_edge(size, of, i + 1);
    vstd::arithmetic::div_mod::lemma_fundamental_div_mod(a, 200 * of);
    vstd::arithmetic::div_mod::lemma_mod_bound(a, 200 * of);
    vstd::arithmetic::div_mod::lemma_fundamental_div_mod(b, 200 * of);
    vstd::arithmetic::div_mod::lemma_mod_bound(b, 200 * of);
    assert(b - a == 200 * size) by (nonlinear_arith)
        requires
            a == 200 * i * size + 101 * of,
            b == 200 * (i + 1) * size + 101 * of,
    ;
    assert((200 * of) * q - (200 * of) * p == 200 * (of * (q - p))) by (nonlinear_arith);
}

/// The areas of the games in the status section: one beside the other, each less than one cell
/// wider or narrower than its share.
pub fn columns(section: Area, n: u32) -> (r: Vec<Area>)
    ensures
        r@.len() == n,
        forall|i: int| 0 <= i < r@.len() ==> spans(#[trigger] r@[i], section, Way::Across),
        is_on_terminal(section, Way::Across) && n < 200 ==> tiles(r@, section, Way::Across),
        is_on_terminal(section, Way::Across) && n < 200 ==> forall|i: int|
            0 <= i < r@.len() ==> section.width - n < n * (#[trigger] r@[i]).width < section.width
                + n,
{
    let parts = column_parts(n);
    let r = split(section, Way::Across, &parts);
    proof {
        let size = section.width as int;
        let of = n as int;
        if is_on_terminal(section, Way::Across) && n < 200 {
            assert(are_equal_shares(parts@));
            assert forall|i: int| 0 <= i < r@.len() implies size - of < of * (#[trigger] r@[i]).width
                < size + of && start(r@[i], Way::Across) + extent(r@[i], Way::Across) <= section.x
                + size by {
                lemma_share_width(size, of, i);
                lemma_share_edge(size, of, i + 1);
            }
            assert forall|i: int| 0 <= i < r@.len() - 1 implies start(
                #[trigger] r@[i],
                Way::Across,
            ) + extent(r@[i], Way::Across) == start(r@[i + 1], Way::Across) by {
                assert(start(r@[i + 1], Way::Across) == section.x + share_edge(size, of, i + 1));
            }
            if n > 0 {
                lemma_share_edge(size, of, 0);
            }
        }
    }
    r
}

/// The parts of an area of which the middle one is wanted: so many percent, and half of the rest on
/// each side.
pub fn centered_parts(percent: u16) -> (r: Vec<Part>)
    requires
        percent <= 100,
    ensures
        r@ == seq![
            Part::Percentage(((100 - percent) / 2) as u16),
            Part::Percentage(percent),
            Part::Percentage(((100 - percent) / 2) as u16),
        ],
{
    let side: u16 = (100 - percent) / 2;
    vec![Part::Percentage(side), Part::Percentage(percent), Part::Percentage(side)]
}

/// The cell at which the area in the middle begins, and how many cells it has, where it is wanted
/// so many percent of a size.
pub open spec fn centered(size: int, percent: int) -> (int, int) {
    let side = (100 - percent) / 2;
    let from = (side * size + 50) / 100;
    let to = ((side + percent) * size + 50) / 100;
    (from, to - from)
}

proof fn lemma_centered(parts: Seq<Part>, size: int, percent: u16)
    requires
        percent <= 100,
        0 <= size,
        parts == seq![
            Part::Percentage(((100 - percent) / 2) as u16),
            Part::Percentage(percent),
            Part::Percentage(((100 - percent) / 2) as u16),
        ],
    ensures
        fit_together(parts, size),
        centered(size, percent as int) == (
            edge(parts, size, 1),
            edge(parts, size, 2) - edge(parts, size, 1),
        ),
{
    let side = (100 - percent as int) / 2;
    reveal_with_fuel(shares, 4);
    assert(forall|k: int| !(#[trigger] takes_rest(parts, k)));
    assert(side * size + percent * size == (side + percent) * size) by (nonlinear_arith);
    assert(side * size + percent * size + side * size <= 100 * size) by (nonlinear_arith)
        requires
            2 * side + percent <= 100,
            0 <= size,
    ;
}

/// The area in the middle of another one that has so many percent of its width and its height, each
/// border at the nearest cell.
pub fn centered_rect(percent_x: u16, percent_y: u16, area: Area) -> (r: Area)
    requires
        percent_x <= 100,
        percent_y <= 100,
    ensures
        is_on_terminal(area, Way::Down) ==> (r.y - area.y, r.height as int) == centered(
            area.height as int,
            percent_y as int,
        ),
        is_on_terminal(area, Way::Across) ==> (r.x - area.x, r.width as int) == centered(
            area.width as int,
            percent_x as int,
        ),
{
    let down = centered_parts(percent_y);
    let across = centered_parts(percent_x);
    let rows = split(area, Way::Down, &down);
    let cols = split(rows[1], Way::Across, &across);
    proof {
        lemma_centered(down@, area.height as int, percent_y);
        lemma_centered(across@, area.width as int, percent_x);
        assert(spans(rows@[1], area, Way::Down) && spans(cols@[1], rows@[1], Way::Across));
    }
    cols[1]
}

/// What is centred lies inside the whole, and has the percentage that is wanted of it to within one
/// cell.
pub proof fn law_centered_lies_inside(size: int, percent: int)
    requires
        0 <= size,
        0 <= percent <= 100,
    ensures
        0 <= centered(size, percent).0,
        centered(size, percent).1 >= 0,
        centered(size, percent).0 + centered(size, percent).1 <= size,
        percent * size - 100 < 100 * centered(size, percent).1 < percent * size + 100,
{
    let side = (100 - percent) / 2;
    assert(side * size + percent * size == (side + percent) * size) by (nonlinear_arith);
    assert(0 <= side * size) by (nonlinear_arith)
        requires
            0 <= side,
            0 <= size,
    ;
    assert(0 <= percent * size) by (nonlinear_arith)
        requires
            0 <= percent,
            0 <= size,
    ;
    assert((side + percent) * size <= 100 * size) by (nonlinear_arith)
        requires
            side + percent <= 100,
            0 <= size,
    ;
}

/// The sides of what is centred are equal, and together with the middle they fill the area but for
/// at most one percent.
pub proof fn law_centered_parts_fill(percent: int)
    requires
        0 <= percent <= 100,
    ensures
        99 <= percent + 2 * ((100 - percent) / 2) <= 100,
{
}

}
