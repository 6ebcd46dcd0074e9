//! Areas of the screen.

use ratatui::layout::{Constraint as C, Direction as D, Layout, Rect as R};
use ratatui::widgets::{Block, Borders};
use vstd::prelude::*;

verus! {

/// A rectangle of cells.
#[derive(Clone, Copy, Debug, PartialEq, Eq, Structural)]
pub struct Rect {
    pub x: u16,
    pub y: u16,
    pub width: u16,
    pub height: u16,
}

/// `a + b`, or the largest coordinate there is.
pub open spec fn capped(a: u16, b: u16) -> u16 {
    if a + b > u16::MAX {
        u16::MAX
    } else {
        (a + b) as u16
    }
}

/// `a - b`, or zero.
pub open spec fn floored(a: u16, b: u16) -> u16 {
    if a < b {
        0
    } else {
        (a - b) as u16
    }
}

/// The smaller of two coordinates.
pub open spec fn lesser(a: u16, b: u16) -> u16 {
    if a <= b {
        a
    } else {
        b
    }
}

fn min(a: u16, b: u16) -> (r: u16)
    ensures
        r == lesser(a, b),
{
    if a <= b {
        a
    } else {
        b
    }
}

impl Rect {
    /// The rectangle at a place and of a size, cut off where the coordinates end.
    pub open spec fn at(x: u16, y: u16, width: u16, height: u16) -> Rect {
        Rect {
            x,
            y,
            width: (capped(x, width) - x) as u16,
            height: (capped(y, height) - y) as u16,
        }
    }

    /// The cell lies in the rectangle.
    pub open spec fn covers(self, column: u16, row: u16) -> bool {
        &&& self.x <= column < capped(self.x, self.width)
        &&& self.y <= row < capped(self.y, self.height)
    }

    /// Every cell of `other` lies in the rectangle, and so does the place of `other`.
    pub open spec fn encloses(self, other: Rect) -> bool {
        &&& self.x <= other.x
        &&& self.y <= other.y
        &&& other.x + other.width <= self.x + self.width
        &&& other.y + other.height <= self.y + self.height
    }

    /// What is left of the rectangle inside a border of one cell.
    pub open spec fn inside(self) -> Rect {
        Rect {
            x: lesser(capped(self.x, 1), capped(self.x, self.width)),
            y: lesser(capped(self.y, 1), capped(self.y, self.height)),
            width: floored(self.width, 2),
            height: floored(self.height, 2),
        }
    }

    /// Makes a rectangle, cut off where the coordinates end.
    pub fn new(x: u16, y: u16, width: u16, height: u16) -> (r: Rect)
        ensures
            r == Rect::at(x, y, width, height),
    {
        Rect {
            x,
            y,
            width: x.saturating_add(width) - x,
            height: y.saturating_add(height) - y,
        }
    }
}

/// Does the cell lie in the rectangle?
pub fn rect_contains(rect: Rect, column: u16, row: u16) -> (r: bool)
    ensures
        r == rect.covers(column, row),
{
    column >= rect.x && column < rect.x.saturating_add(rect.width) && row >= rect.y && row
        < rect.y.saturating_add(rect.height)
}

/// Calls `inner` of a `ratatui::widgets::Block` with borders on all four sides: one cell is taken
/// off on each side, as far as there are any.
#[verifier::external_body]
pub(crate) fn inner_area(area: Rect) -> (r: Rect)
    ensures
        r == area.inside(),
{
    let area = R { x: area.x, y: area.y, width: area.width, height: area.height };
    let inner = Block::default().borders(Borders::ALL).inner(area);
    Rect { x: inner.x, y: inner.y, width: inner.width, height: inner.height }
}

/// A rectangle in the middle of the screen, of a width and a number of lines as far as they fit.
pub open spec fn centered(width: u16, lines: u16, viewport: Rect) -> Rect {
    let w = lesser(width, viewport.width);
    let h = lesser(lines, viewport.height);
    Rect::at(
        (viewport.x + (viewport.width - w) / 2) as u16,
        (viewport.y + (viewport.height - h) / 2) as u16,
        w,
        h,
    )
}

/// The coordinates of the screen do not run over.
pub open spec fn fits(viewport: Rect) -> bool {
    viewport.x + viewport.width <= u16::MAX && viewport.y + viewport.height <= u16::MAX
}

/// The place of a rectangle in the middle of the screen is among the coordinates there are.
pub open spec fn has_middle(width: u16, lines: u16, viewport: Rect) -> bool {
    &&& viewport.x + (viewport.width - lesser(width, viewport.width)) / 2 <= u16::MAX
    &&& viewport.y + (viewport.height - lesser(lines, viewport.height)) / 2 <= u16::MAX
}

/// Finds the place of a dialog in the middle of the screen.
pub fn centered_dialog_area(width: u16, lines: u16, viewport: Rect) -> (r: Rect)
    requires
        has_middle(width, lines, viewport),
    ensures
        r == centered(width, lines, viewport),
{
    let dialog_width: u16 = min(width, viewport.width);
    let dialog_height: u16 = min(lines, viewport.height);
    let dialog_x: u16 = viewport.x + viewport.width.saturating_sub(dialog_width) / 2;
    let dialog_y: u16 = viewport.y + viewport.height.saturating_sub(dialog_height) / 2;
    Rect::new(dialog_x, dialog_y, dialog_width, dialog_height)
}

/// A dialog lies on the screen, has the size asked for as far as that fits, and has as much room
/// on its left as on its right, and above as below, up to one cell.
pub proof fn law_dialog_is_centered(width: u16, lines: u16, viewport: Rect)
    requires
        fits(viewport),
    ensures
        has_middle(width, lines, viewport),
        viewport.encloses(centered(width, lines, viewport)),
        centered(width, lines, viewport).width == lesser(width, viewport.width),
        centered(width, lines, viewport).height == lesser(lines, viewport.height),
        ({
            let d = centered(width, lines, viewport);
            let left = d.x - viewport.x;
            let right = viewport.x + viewport.width - (d.x + d.width);
            let above = d.y - viewport.y;
            let below = viewport.y + viewport.height - (d.y + d.height);
            0 <= right - left <= 1 && 0 <= below - above <= 1
        }),
{
}

// ---------------------------------------------------------------------------------------------
// The layout of the screen
// ---------------------------------------------------------------------------------------------
/// The way an area is cut: into parts beside each other, or above each other.
#[derive(Clone, Copy, Debug, PartialEq, Eq, Structural)]
pub enum Direction {
    Horizontal,
    Vertical,
}

/// How large a part is to be.
#[derive(Clone, Copy, Debug, PartialEq, Eq, Structural)]
pub enum Constraint {
    Min(u16),
    Length(u16),
    Percentage(u16),
}

/// `part` reaches across `area` in the direction that is not cut.
pub open spec fn spans(part: Rect, area: Rect, direction: Direction) -> bool {
    match direction {
        Direction::Horizontal => part.y == area.y && part.height == area.height,
        Direction::Vertical => part.x == area.x && part.width == area.width,
    }
}

/// Where a part begins in the direction that is cut.
pub open spec fn begins(part: Rect, direction: Direction) -> u16 {
    match direction {
        Direction::Horizontal => part.x,
        Direction::Vertical => part.y,
    }
}

/// How large a part is in the direction that is cut.
pub open spec fn extent(part: Rect, direction: Direction) -> u16 {
    match direction {
        Direction::Horizontal => part.width,
        Direction::Vertical => part.height,
    }
}

/// Two parts of an area lie in it, reach across it, and the second begins where the first ends.
/// The first begins where the area does.
pub open spec fn divides(first: Rect, second: Rect, area: Rect, direction: Direction) -> bool {
    &&& spans(first, area, direction) && area.encloses(first)
    &&& spans(second, area, direction) && area.encloses(second)
    &&& begins(first, direction) == begins(area, direction)
    &&& begins(first, direction) + extent(first, direction) == begins(second, direction)
}

/// Two parts are as large as is wanted of them. A part that is to have a least size gets that
/// much first, as far as there is room, and takes what the other leaves. A length is met where
/// that leaves room for it, and a percentage up to half a cell.
pub open spec fn sizes_met(
    first: Constraint,
    second: Constraint,
    whole: u16,
    a: u16,
    b: u16,
) -> bool {
    match (first, second) {
        (Constraint::Length(n), Constraint::Min(m)) => {
            &&& a + b == whole
            &&& n + m <= whole ==> a == n
            &&& n + m > whole && m <= i16::MAX ==> b == lesser(m, whole)
        },
        (Constraint::Min(m), Constraint::Length(n)) => {
            &&& a + b == whole
            &&& n + m <= whole ==> b == n
            &&& n + m > whole && m <= i16::MAX ==> a == lesser(m, whole)
        },
        (Constraint::Min(m), Constraint::Percentage(p)) => {
            &&& a + b == whole
            &&& p <= 100 && m <= i16::MAX ==> if 100 * m + p * whole <= 100 * whole {
                -50 <= 100 * b - p * whole <= 50
            } else {
                a == lesser(m, whole)
            }
        },
        _ => true,
    }
}

/// The cuts that lay out the screen.
#[derive(Clone, Copy, Debug, PartialEq, Eq, Structural)]
pub enum Cut {
    /// The screen, into the panels and the line at the bottom.
    Bottom,
    /// The panels, into those on the left and those on the right.
    Middle,
    /// The left, into the tabs and the list.
    Left,
    /// The right, into the details and the log.
    Right,
}

impl Cut {
    /// The way the area is cut, and how large the two parts are to be.
    pub open spec fn wanted(self) -> (Direction, Constraint, Constraint) {
        match self {
            Cut::Bottom => (Direction::Vertical, Constraint::Min(3), Constraint::Length(1)),
            Cut::Middle => (
                Direction::Horizontal,
                Constraint::Min(50),
                Constraint::Percentage(70),
            ),
            Cut::Left => (Direction::Vertical, Constraint::Length(3), Constraint::Min(1)),
            Cut::Right => (Direction::Vertical, Constraint::Length(8), Constraint::Min(3)),
        }
    }

    /// The way the area is cut, and how large the two parts are to be.
    pub fn plan(self) -> (r: (Direction, Constraint, Constraint))
        ensures
            r == self.wanted(),
    {
        match self {
            Cut::Bottom => (Direction::Vertical, Constraint::Min(3), Constraint::Length(1)),
            Cut::Middle => (
                Direction::Horizontal,
                Constraint::Min(50),
                Constraint::Percentage(70),
            ),
            Cut::Left => (Direction::Vertical, Constraint::Length(3), Constraint::Min(1)),
            Cut::Right => (Direction::Vertical, Constraint::Length(8), Constraint::Min(3)),
        }
    }
}

/// Calls `ratatui::layout::Layout::split` with two constraints. It gives one part for each
/// constraint. That the parts lie in the area is asked of the solver without exception. A gap
/// before or between the parts, or an overlap, weighs more in the solver than any size that is
/// wanted, a least size more than a length, a length more than a percentage, and each of these
/// more than filling the area; so the parts follow each other, and the sizes are met as
/// `sizes_met` says. The solver works on floating-point numbers in an order that depends on a
/// hash seed: of other pairs of constraints no sizes are stated.
#[verifier::external_body]
fn split_area(area: Rect, plan: (Direction, Constraint, Constraint)) -> (parts: [Rect; 2])
    ensures
        divides(parts@[0], parts@[1], area, plan.0),
        fits(area) ==> sizes_met(
            plan.1,
            plan.2,
            extent(area, plan.0),
            extent(parts@[0], plan.0),
            extent(parts@[1], plan.0),
        ),
{
    let direction = match plan.0 {
        Direction::Horizontal => D::Horizontal,
        Direction::Vertical => D::Vertical,
    };
    let constraints = [plan.1, plan.2].map(|c| match c {
        Constraint::Min(n) => C::Min(n),
        Constraint::Length(n) => C::Length(n),
        Constraint::Percentage(n) => C::Percentage(n),
    });
    let area = R { x: area.x, y: area.y, width: area.width, height: area.height };
    let parts = Layout::default().direction(direction).constraints(constraints).split(area);
    [parts[0], parts[1]].map(|p| Rect { x: p.x, y: p.y, width: p.width, height: p.height })
}

/// Cuts an area in two.
pub fn cut_area(area: Rect, cut: Cut) -> (parts: (Rect, Rect))
    ensures
        divides(parts.0, parts.1, area, cut.wanted().0),
        fits(area) ==> sizes_met(
            cut.wanted().1,
            cut.wanted().2,
            extent(area, cut.wanted().0),
            extent(parts.0, cut.wanted().0),
            extent(parts.1, cut.wanted().0),
        ),
{
    let parts = split_area(area, cut.plan());
    (parts[0], parts[1])
}

/// The areas of the screen.
pub struct Screen {
    /// The line at the bottom with the help or the search.
    pub help: Rect,
    pub tabs: Rect,
    pub list: Rect,
    pub details: Rect,
    pub log: Rect,
}

/// Puts together the parts that the screen was cut into.
pub fn screen_of(bottom: (Rect, Rect), left: (Rect, Rect), right: (Rect, Rect)) -> (s: Screen)
    ensures
        s.help == bottom.1,
        s.tabs == left.0,
        s.list == left.1,
        s.details == right.0,
        s.log == right.1,
{
    Screen { help: bottom.1, tabs: left.0, list: left.1, details: right.0, log: right.1 }
}

impl Screen {
    /// The areas lie as they should: on the left the tabs over the list, on the right the details
    /// over the log, and the help below all of them.
    pub open spec fn lies_in(self, area: Rect) -> bool {
        &&& area.encloses(self.help) && area.encloses(self.tabs) && area.encloses(self.list)
        &&& area.encloses(self.details) && area.encloses(self.log)
        &&& self.tabs.x == area.x && self.tabs.y == area.y
        &&& self.list.x == area.x && self.list.width == self.tabs.width
        &&& self.list.y == self.tabs.y + self.tabs.height
        &&& self.details.x == self.tabs.x + self.tabs.width && self.details.y == area.y
        &&& self.log.x == self.details.x && self.log.width == self.details.width
        &&& self.log.y == self.details.y + self.details.height
        &&& self.help.x == area.x && self.help.width == area.width
        &&& self.list.y + self.list.height <= self.help.y
        &&& self.log.y + self.log.height <= self.help.y
    }

    /// The areas fill the screen.
    pub open spec fn fills(self, area: Rect) -> bool {
        &&& self.tabs.width + self.details.width == area.width
        &&& self.tabs.height + self.list.height + self.help.height == area.height
        &&& self.details.height + self.log.height + self.help.height == area.height
    }

    /// The areas are as large as they should be: one line of help, three lines of tabs, eight of
    /// details, and on the right seven tenths of the width unless that leaves the left less than
    /// fifty cells. Where there is no room, the help gives way to three lines above it, the tabs to
    /// one line of the list, the details to three lines of the log, and the right to the left.
    pub open spec fn has_usual_sizes(self, area: Rect) -> bool {
        let above = area.height - self.help.height;
        &&& self.help.height == if area.height >= 4 {
            1int
        } else {
            0
        }
        &&& self.tabs.height == if above >= 4 {
            3
        } else if above >= 1 {
            above - 1
        } else {
            0
        }
        &&& self.details.height == if above >= 11 {
            8
        } else if above >= 3 {
            above - 3
        } else {
            0
        }
        &&& area.width <= 166 ==> self.list.width == lesser(50, area.width)
        &&& area.width >= 167 ==> -50 <= 100 * self.log.width - 70 * area.width <= 50
    }
}

/// Lays out the screen: a line of help at the bottom, and above it on the left the tabs over the
/// list of jobs, on the right the details of a job over its output.
pub fn screen_layout(area: Rect) -> (s: Screen)
    ensures
        s.lies_in(area),
        fits(area) ==> s.fills(area) && s.has_usual_sizes(area),
{
    let bottom = cut_area(area, Cut::Bottom);
    let middle = cut_area(bottom.0, Cut::Middle);
    let left = cut_area(middle.0, Cut::Left);
    let right = cut_area(middle.1, Cut::Right);
    screen_of(bottom, left, right)
}

/// No cell of the screen belongs to two of its areas.
pub proof fn law_areas_share_no_cell(s: Screen, area: Rect, column: u16, row: u16)
    requires
        s.lies_in(area),
    ensures
        !(s.list.covers(column, row) && s.log.covers(column, row)),
        !(s.list.covers(column, row) && s.tabs.covers(column, row)),
        !(s.list.covers(column, row) && s.details.covers(column, row)),
        !(s.log.covers(column, row) && s.tabs.covers(column, row)),
        !(s.log.covers(column, row) && s.details.covers(column, row)),
        !(s.tabs.covers(column, row) && s.details.covers(column, row)),
        s.help.covers(column, row) ==> !s.list.covers(column, row) && !s.log.covers(column, row)
            && !s.tabs.covers(column, row) && !s.details.covers(column, row),
{
}

} // verus!
