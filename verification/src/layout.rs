//! Where the panes of the screen stand, and which part of a list its pane shows.

use ratatui::layout::{Constraint, Direction, Layout, Rect};
use ratatui::widgets::{Block, Borders};
use vstd::prelude::*;

verus! {

/// A rectangle of terminal cells.
#[derive(Clone, Copy, Debug, PartialEq, Eq, Structural)]
pub struct Area {
    pub x: u16,
    pub y: u16,
    pub width: u16,
    pub height: u16,
}

/// The lesser of two numbers.
pub open spec fn least(a: int, b: int) -> int {
    if a <= b {
        a
    } else {
        b
    }
}

/// The greater of two numbers.
pub open spec fn greatest(a: int, b: int) -> int {
    if a <= b {
        b
    } else {
        a
    }
}

impl Area {
    /// The first column right of the area. Columns end at the greatest `u16`.
    pub open spec fn right(self) -> int {
        least(self.x + self.width, u16::MAX as int)
    }

    /// The first row below the area. Rows end at the greatest `u16`.
    pub open spec fn bottom(self) -> int {
        least(self.y + self.height, u16::MAX as int)
    }

    /// Whether every cell of the area is a cell of the other one.
    pub open spec fn within(self, outer: Area) -> bool {
        &&& outer.x <= self.x
        &&& outer.y <= self.y
        &&& self.x + self.width <= outer.x + outer.width
        &&& self.y + self.height <= outer.y + outer.height
    }
}

/// The direction in which an area is cut in two.
#[derive(Clone, Copy)]
pub enum Axis {
    /// The parts stand below one another.
    Vertical,
    /// The parts stand side by side.
    Horizontal,
}

/// The size that a part of an area asks for.
#[derive(Clone, Copy)]
pub enum Track {
    /// At least so many cells, and all that is left over.
    Min(u16),
    /// So many cells.
    Length(u16),
    /// So many hundredths of the whole.
    Percentage(u16),
}

/// The pairs of sizes that `split` is specified for: a fixed part and one that takes the rest, or
/// two percentages of a whole. ratatui reads a minimum as a signed number of sixteen bits.
pub open spec fn splittable(first: Track, second: Track) -> bool {
    match (first, second) {
        (Track::Min(n), Track::Length(_)) => n <= i16::MAX,
        (Track::Length(_), Track::Min(n)) => n <= i16::MAX,
        (Track::Percentage(p), Track::Percentage(q)) => p + q == 100,
        _ => false,
    }
}

/// How much of `length` goes to a part that asks for at least `min` where the other part asks for
/// `fixed`: all but `fixed`, but not below `min` as long as there is that much.
pub open spec fn growing_share(min: int, fixed: int, length: int) -> int {
    greatest(length - fixed, least(min, length))
}

/// How much of `length` goes to the first of two parts. The second one gets the rest.
pub open spec fn first_share(first: Track, second: Track, length: int) -> int {
    match (first, second) {
        (Track::Min(min), Track::Length(fixed)) => growing_share(min as int, fixed as int, length),
        (Track::Length(fixed), Track::Min(min)) => length - growing_share(
            min as int,
            fixed as int,
            length,
        ),
        // Rounded to the nearest cell, and up from the middle.
        (Track::Percentage(p), _) => (p * length + 50) / 100,
        _ => 0,
    }
}

/// The two parts of an area.
pub open spec fn split_of(area: Area, axis: Axis, first: Track, second: Track) -> (Area, Area) {
    match axis {
        Axis::Vertical => {
            let length = area.bottom() - area.y;
            let share = first_share(first, second, length);
            (
                Area { height: share as u16, ..area },
                Area { y: (area.y + share) as u16, height: (length - share) as u16, ..area },
            )
        },
        Axis::Horizontal => {
            let length = area.right() - area.x;
            let share = first_share(first, second, length);
            (
                Area { width: share as u16, ..area },
                Area { x: (area.x + share) as u16, width: (length - share) as u16, ..area },
            )
        },
    }
}

/// Cuts an area in two.
///
/// Calls `ratatui::layout::Layout::split` with two constraints and no spacing. The contract claims
/// that both parts keep the area's extent across the axis, that they lie along it without a gap,
/// and that the constraints are met in ratatui's order of strength: a minimum comes before a
/// length, a length before what a minimum can still grow by, and a percentage of the whole is
/// rounded to the nearest cell.
#[verifier::external_body]
fn split(area: Area, axis: Axis, first: Track, second: Track) -> (parts: (Area, Area))
    requires
        splittable(first, second),
    ensures
        parts == split_of(area, axis, first, second),
{
    let rect = Rect { x: area.x, y: area.y, width: area.width, height: area.height };
    let direction = match axis {
        Axis::Vertical => Direction::Vertical,
        Axis::Horizontal => Direction::Horizontal,
    };
    let constraints = [first, second].map(|track| match track {
        Track::Min(n) => Constraint::Min(n),
        Track::Length(n) => Constraint::Length(n),
        Track::Percentage(n) => Constraint::Percentage(n),
    });
    let parts = Layout::default().direction(direction).constraints(constraints).split(rect);
    let part = |r: Rect| Area { x: r.x, y: r.y, width: r.width, height: r.height };
    (part(parts[0]), part(parts[1]))
}

/// What a border of one cell on every side leaves of an area.
pub open spec fn inner_of(area: Area) -> Area {
    Area {
        x: least(least(area.x + 1, u16::MAX as int), area.right()) as u16,
        y: least(least(area.y + 1, u16::MAX as int), area.bottom()) as u16,
        width: greatest(area.width - 2, 0) as u16,
        height: greatest(area.height - 2, 0) as u16,
    }
}

/// Gives what a border leaves of an area.
///
/// Calls `ratatui::widgets::Block::inner` on a block with all four borders, without title and
/// padding. The contract claims that it takes one cell off each side, down to an empty area.
#[verifier::external_body]
fn inner(area: Area) -> (r: Area)
    ensures
        r == inner_of(area),
{
    let rect = Rect { x: area.x, y: area.y, width: area.width, height: area.height };
    let r = Block::default().borders(Borders::ALL).inner(rect);
    Area { x: r.x, y: r.y, width: r.width, height: r.height }
}

/// The panes of the screen.
#[derive(Clone, Copy, Debug)]
pub struct IssueLayout {
    /// The frame around the search line and the list.
    pub left: Area,
    /// The search line.
    pub search: Area,
    /// The list of issues.
    pub results: Area,
    /// The description of the selected issue, with its frame.
    pub detail: Area,
    /// The list of keys, with its frame.
    pub help: Area,
}

/// The panes of a screen of the given size: the keys at the bottom, in three rows; above them the
/// list in 45 of 100 columns and the description in the rest; within the list's frame the search
/// line in one row and the list below it.
pub open spec fn layout_of(size: Area) -> IssueLayout {
    let (body, help) = split_of(size, Axis::Vertical, Track::Min(8), Track::Length(3));
    let (left, detail) = split_of(
        body,
        Axis::Horizontal,
        Track::Percentage(45),
        Track::Percentage(55),
    );
    let (search, results) = split_of(
        inner_of(left),
        Axis::Vertical,
        Track::Length(1),
        Track::Min(1),
    );
    IssueLayout { left, search, results, detail, help }
}

/// Lays out the panes on a screen of the given size.
pub fn issue_layout(size: Area) -> (r: IssueLayout)
    ensures
        r == layout_of(size),
{
    let (body, help) = split(size, Axis::Vertical, Track::Min(8), Track::Length(3));
    let (left, detail) = split(
        body,
        Axis::Horizontal,
        Track::Percentage(45),
        Track::Percentage(55),
    );
    let (search, results) = split(inner(left), Axis::Vertical, Track::Length(1), Track::Min(1));
    IssueLayout { left, search, results, detail, help }
}

/// Whether a cell belongs to an area.
pub open spec fn has_cell(area: Area, col: u16, row: u16) -> bool {
    &&& area.x <= col < area.right()
    &&& area.y <= row < area.bottom()
}

/// Tells whether a cell belongs to an area.
pub fn rect_contains(rect: Area, col: u16, row: u16) -> (yes: bool)
    ensures
        yes == has_cell(rect, col, row),
{
    col >= rect.x && col < rect.x.saturating_add(rect.width) && row >= rect.y && row
        < rect.y.saturating_add(rect.height)
}

/// The first entry that a list pane shows: the one it showed before, moved no further than needed
/// to have the selected entry among the `height` entries shown, and to leave no row empty as long
/// as there are entries for it.
pub open spec fn window_offset(selected: int, current: int, height: int, total: int) -> int {
    if total == 0 || height == 0 {
        0
    } else {
        let kept = least(current, total - 1);
        let moved = if selected < kept {
            selected
        } else if selected >= kept + height {
            selected + 1 - height
        } else {
            kept
        };
        least(moved, greatest(total - height, 0))
    }
}

/// Gives the first entry that a list pane shows.
pub fn list_window_offset(
    selected: usize,
    current_offset: usize,
    height: usize,
    total: usize,
) -> (offset: usize)
    ensures
        offset == window_offset(
            selected as int,
            current_offset as int,
            height as int,
            total as int,
        ),
{
    if total == 0 || height == 0 {
        return 0;
    }
    let mut offset: usize = if current_offset <= total - 1 {
        current_offset
    } else {
        total - 1
    };
    if selected < offset {
        offset = selected;
    } else if selected - offset >= height {
        offset = selected - (height - 1);
    }
    let most: usize = if total >= height {
        total - height
    } else {
        0
    };
    if offset <= most {
        offset
    } else {
        most
    }
}

/// A selected entry of the list is shown, whatever the pane showed before.
pub proof fn law_selected_entry_is_shown(selected: int, current: int, height: int, total: int)
    requires
        0 <= selected < total,
        0 <= current,
        0 < height,
    ensures
        window_offset(selected, current, height, total) <= selected,
        selected < window_offset(selected, current, height, total) + height,
{
}

/// The pane shows as many entries as it can: no row stays empty while the list has entries for it.
pub proof fn law_window_is_full(selected: int, current: int, height: int, total: int)
    requires
        0 <= selected < total,
        0 <= current,
        0 < height,
    ensures
        0 <= window_offset(selected, current, height, total) < total,
        height <= total ==> window_offset(selected, current, height, total) + height <= total,
        total <= height ==> window_offset(selected, current, height, total) == 0,
{
}

/// The pane moves only when it has to: an offset that shows the selected entry and leaves no row
/// empty stays, so laying out twice is the same as laying out once.
pub proof fn law_window_rests(selected: int, current: int, height: int, total: int)
    requires
        0 <= selected < total,
        0 <= current,
        0 < height,
    ensures
        current <= selected < current + height && current + height <= total ==> window_offset(
            selected,
            current,
            height,
            total,
        ) == current,
        window_offset(
            selected,
            window_offset(selected, current, height, total),
            height,
            total,
        ) == window_offset(selected, current, height, total),
{
}

/// The pane moves no further than it has to: no other offset that shows the selected entry, and
/// leaves no row empty for which the list has an entry, is nearer to where the pane stood.
pub proof fn law_window_moves_least(
    selected: int,
    current: int,
    height: int,
    total: int,
    offset: int,
)
    requires
        0 <= selected < total,
        0 <= current,
        0 < height,
        0 <= offset <= selected < offset + height,
        offset <= greatest(total - height, 0),
    ensures
        distance(window_offset(selected, current, height, total), current) <= distance(
            offset,
            current,
        ),
{
}

/// How far two entries of a list are apart.
pub open spec fn distance(a: int, b: int) -> int {
    greatest(a - b, b - a)
}

/// Every pane lies on the screen.
pub proof fn law_panes_are_on_screen(size: Area)
    ensures
        layout_of(size).left.within(size),
        layout_of(size).search.within(size),
        layout_of(size).results.within(size),
        layout_of(size).detail.within(size),
        layout_of(size).help.within(size),
{
    let (body, help) = split_of(size, Axis::Vertical, Track::Min(8), Track::Length(3));
    let (left, detail) = split_of(
        body,
        Axis::Horizontal,
        Track::Percentage(45),
        Track::Percentage(55),
    );
    assert(body.within(size));
    assert(left.within(body));
}

/// No cell belongs to two of the list pane, the description and the keys, and none to both the
/// search line and the list.
pub proof fn law_panes_are_disjoint(size: Area, col: u16, row: u16)
    ensures
        !(has_cell(layout_of(size).left, col, row) && has_cell(layout_of(size).detail, col, row)),
        !(has_cell(layout_of(size).left, col, row) && has_cell(layout_of(size).help, col, row)),
        !(has_cell(layout_of(size).detail, col, row) && has_cell(layout_of(size).help, col, row)),
        !(has_cell(layout_of(size).search, col, row) && has_cell(
            layout_of(size).results,
            col,
            row,
        )),
        has_cell(layout_of(size).search, col, row) ==> has_cell(layout_of(size).left, col, row),
        has_cell(layout_of(size).results, col, row) ==> has_cell(layout_of(size).left, col, row),
{
}

/// The lesser and the greater of two numbers are these two numbers, in their order.
pub proof fn law_least_and_greatest(a: int, b: int)
    ensures
        least(a, b) <= greatest(a, b),
        least(a, b) == a && greatest(a, b) == b || least(a, b) == b && greatest(a, b) == a,
{
}

/// A cell belongs to an area that lies within the screen where it is neither left of it, right of it,
/// above it nor below it.
pub proof fn law_cells_of_area(area: Area, col: u16, row: u16)
    requires
        area.x + area.width <= u16::MAX,
        area.y + area.height <= u16::MAX,
    ensures
        has_cell(area, col, row) <==> area.x <= col && col - area.x < area.width && area.y <= row
            && row - area.y < area.height,
{
}

/// The keys stand at the bottom, below both other panes and across the screen; the list stands at
/// the left and the description at its right, down to the keys.
pub proof fn law_panes_fill_the_screen(size: Area)
    requires
        size.x + size.width <= u16::MAX,
        size.y + size.height <= u16::MAX,
    ensures
        ({
            let ui = layout_of(size);
            &&& ui.left.x == size.x && ui.left.y == size.y
            &&& ui.detail.x == ui.left.x + ui.left.width && ui.detail.y == size.y
            &&& ui.left.width + ui.detail.width == size.width
            &&& ui.left.height == ui.detail.height
            &&& ui.help.x == size.x && ui.help.width == size.width
            &&& ui.help.y == size.y + ui.left.height
            &&& ui.left.height + ui.help.height == size.height
            &&& size.height >= 11 ==> ui.help.height == 3
            &&& 8 <= size.height <= 11 ==> ui.left.height == 8
            &&& size.height <= 8 ==> ui.help.height == 0
            &&& -50 <= 100 * ui.left.width - 45 * size.width <= 50
        }),
{
}

/// The search line is the first row within the frame of the list, and the list is below it. A frame
/// with one row within it has it for the list.
pub proof fn law_search_line_is_on_top(size: Area)
    requires
        size.x + size.width <= u16::MAX,
        size.y + size.height <= u16::MAX,
    ensures
        ({
            let ui = layout_of(size);
            &&& ui.left.height >= 4 && ui.left.width >= 2 ==> {
                &&& ui.search.x == ui.left.x + 1 && ui.search.y == ui.left.y + 1
                &&& ui.search.width == ui.left.width - 2 && ui.search.height == 1
                &&& ui.results.x == ui.search.x && ui.results.width == ui.search.width
                &&& ui.results.y == ui.search.y + 1
                &&& ui.results.height == ui.left.height - 3
            }
            &&& ui.left.height == 3 ==> ui.search.height == 0 && ui.results.height == 1
        }),
{
}

} // verus!
