//! How parts of the screen are divided.
use crate::tui::app::Rect;
use ratatui::layout::{Constraint, Direction, Layout};
use vstd::prelude::*;

verus! {

/// How much of a part of the screen goes to one of its rows or columns.
#[derive(Debug, Clone, Copy, PartialEq, Eq, Structural)]
pub enum Extent {
    /// This many cells.
    Length(u16),
    /// This many cells or more.
    Min(u16),
    /// This many hundredths of the whole.
    Percentage(u16),
}

/// `part` spans the whole width of `area`.
pub open spec fn spans_width(part: Rect, area: Rect) -> bool {
    part.x == area.x && part.width == area.width
}

/// The row of cells below the last one of `part`.
pub open spec fn bottom(part: Rect) -> int {
    part.y + part.height
}

/// `rows` lie in `area` from top to bottom, none over another, and each spans its width.
pub open spec fn stacked(rows: Seq<Rect>, area: Rect) -> bool {
    &&& forall|i: int|
        #![trigger rows[i]]
        0 <= i < rows.len() ==> spans_width(rows[i], area) && area.y <= rows[i].y && bottom(rows[i])
            <= bottom(area)
    &&& forall|i: int, j: int|
        #![trigger rows[i], rows[j]]
        0 <= i < j < rows.len() ==> bottom(rows[i]) <= rows[j].y
}

/// The heights of the screen's rows: a line for each bar, and the rest for the body.
pub open spec fn frame_shape() -> Seq<Extent> {
    seq![Extent::Length(1), Extent::Min(0), Extent::Length(1), Extent::Length(1)]
}

/// The heights of the rows of a sandbox's screen.
pub open spec fn sandbox_shape() -> Seq<Extent> {
    seq![Extent::Percentage(20), Extent::Percentage(80)]
}

/// How many rows of cells `area` has above the last row that has a number.
pub open spec fn usable_height(area: Rect) -> int {
    if bottom(area) <= u16::MAX {
        area.height as int
    } else {
        u16::MAX - area.y
    }
}

/// `rows` divide the height of `area`: the first begins where it does, each other where the
/// one above it ends, and the last ends where `area` does.
pub open spec fn fills(rows: Seq<Rect>, area: Rect) -> bool {
    &&& rows.len() > 0
    &&& rows.first().y == area.y
    &&& forall|i: int, j: int|
        #![trigger rows[i], rows[j]]
        0 <= i < rows.len() && j == i + 1 && j < rows.len() ==> rows[j].y == bottom(rows[i])
    &&& bottom(rows.last()) == area.y + usable_height(area)
}

/// `rows` are the rows of the screen `area`: a line each for the title, the keys and the
/// command, and the rest for the body. Where there is no room for three lines there is no
/// body, and which of the lines are left out is open.
pub open spec fn is_frame(rows: Seq<Rect>, area: Rect) -> bool {
    let height = usable_height(area);
    &&& rows.len() == 4
    &&& fills(rows, area)
    &&& if height >= 3 {
        &&& rows[0].height == 1
        &&& rows[1].height == height - 3
        &&& rows[2].height == 1
        &&& rows[3].height == 1
    } else {
        rows[1].height == 0
    }
}

/// `rows` are the rows of a sandbox's screen in `area`: a fifth of it, to the nearest cell, and
/// the rest.
pub open spec fn is_sandbox(rows: Seq<Rect>, area: Rect) -> bool {
    let height = usable_height(area);
    &&& rows.len() == 2
    &&& fills(rows, area)
    &&& rows[0].height == (height + 2) / 5
    &&& rows[1].height == height - (height + 2) / 5
}

/// Calls `ratatui::layout::Layout::split` for rows from top to bottom. Claims that there is
/// one row for each extent, that the rows lie in the whole from top to bottom, none over
/// another, each as wide as the whole, that they leave no cell of it out, and how high they
/// are. An area that reaches beyond the last row that has a number is cut off there.
///
/// The rows come from a solver that works in floating point, in hundredths of a cell, and are
/// rounded to cells. For the extents that are let in here its solution is in whole hundredths,
/// so rounding keeps the order. Lengths outbid the rest, and that outbids empty space at the
/// end; a fifth of a whole number of cells is never halfway between two cells. Where three
/// lengths do not fit, how they share the room is not claimed, only that they take all of it.
#[verifier::external_body]
pub(crate) fn split_rows(area: Rect, extents: &Vec<Extent>) -> (r: Vec<Rect>)
    requires
        extents@ == frame_shape() || extents@ == sandbox_shape(),
    ensures
        r@.len() == extents@.len(),
        stacked(r@, area),
        extents@ == frame_shape() ==> is_frame(r@, area),
        extents@ == sandbox_shape() ==> is_sandbox(r@, area),
{
    let constraints = extents.iter().map(|extent| match *extent {
        Extent::Length(n) => Constraint::Length(n),
        Extent::Min(n) => Constraint::Min(n),
        Extent::Percentage(n) => Constraint::Percentage(n),
    });
    let Rect { x, y, width, height } = area;
    let layout = Layout::default().direction(Direction::Vertical).constraints(constraints);
    let rows = layout.split(ratatui::layout::Rect { x, y, width, height });
    rows.iter().map(|row| Rect { x: row.x, y: row.y, width: row.width, height: row.height }).collect()
}

/// The rows of the screen.
#[derive(Debug, Clone, Copy, PartialEq, Eq, Structural)]
pub struct FrameRows {
    pub title: Rect,
    pub body: Rect,
    pub nav: Rect,
    pub command: Rect,
}

impl FrameRows {
    /// The rows lie in `area` from top to bottom: the title, the body, the keys, the command.
    pub open spec fn lies_in(self, area: Rect) -> bool {
        stacked(seq![self.title, self.body, self.nav, self.command], area)
    }

    /// The rows divide `area`: a line each for the title, the keys and the command, and the
    /// rest for the body.
    pub open spec fn divide(self, area: Rect) -> bool {
        is_frame(seq![self.title, self.body, self.nav, self.command], area)
    }
}

/// The heights of the screen's rows: a line for each bar, and the rest for the body.
pub fn frame_extents() -> (r: Vec<Extent>)
    ensures
        r@ == frame_shape(),
{
    let r = vec![Extent::Length(1), Extent::Min(0), Extent::Length(1), Extent::Length(1)];
    assert(r@ =~= frame_shape());
    r
}

/// Which of the rows that the screen was divided into is which.
pub fn place_frame(rows: &Vec<Rect>) -> (r: FrameRows)
    requires
        rows@.len() == 4,
    ensures
        r == (FrameRows { title: rows@[0], body: rows@[1], nav: rows@[2], command: rows@[3] }),
{
    FrameRows { title: rows[0], body: rows[1], nav: rows[2], command: rows[3] }
}

/// The rows of the screen `area`.
pub fn frame_rows(area: Rect) -> (r: FrameRows)
    ensures
        r.lies_in(area),
        r.divide(area),
        r.title.y == area.y,
        r.body.y == r.title.y + r.title.height,
        r.nav.y == r.body.y + r.body.height,
        r.command.y == r.nav.y + r.nav.height,
        r.command.y + r.command.height == area.y + usable_height(area),
        usable_height(area) >= 3 ==> r.title.height == 1 && r.nav.height == 1 && r.command.height
            == 1 && r.body.height == usable_height(area) - 3,
        usable_height(area) < 3 ==> r.body.height == 0,
{
    let rows = split_rows(area, &frame_extents());
    let r = place_frame(&rows);
    assert(rows@ =~= seq![r.title, r.body, r.nav, r.command]);
    r
}

/// The rows of a sandbox's screen.
#[derive(Debug, Clone, Copy, PartialEq, Eq, Structural)]
pub struct SandboxRows {
    pub detail: Rect,
    pub pane: Rect,
}

impl SandboxRows {
    /// The rows lie in `area` from top to bottom: what is known of the sandbox, then the pane.
    pub open spec fn lies_in(self, area: Rect) -> bool {
        stacked(seq![self.detail, self.pane], area)
    }

    /// The rows divide `area`: a fifth of it for what is known of the sandbox, and the rest for
    /// the pane.
    pub open spec fn divide(self, area: Rect) -> bool {
        is_sandbox(seq![self.detail, self.pane], area)
    }
}

/// The heights of the rows of a sandbox's screen.
pub fn sandbox_extents() -> (r: Vec<Extent>)
    ensures
        r@ == sandbox_shape(),
{
    let r = vec![Extent::Percentage(20), Extent::Percentage(80)];
    assert(r@ =~= sandbox_shape());
    r
}

/// Which of the rows that a sandbox's screen was divided into is which.
pub fn place_sandbox(rows: &Vec<Rect>) -> (r: SandboxRows)
    requires
        rows@.len() == 2,
    ensures
        r == (SandboxRows { detail: rows@[0], pane: rows@[1] }),
{
    SandboxRows { detail: rows[0], pane: rows[1] }
}

/// The rows of a sandbox's screen in the part `area` of the screen.
pub fn sandbox_rows(area: Rect) -> (r: SandboxRows)
    ensures
        r.lies_in(area),
        r.divide(area),
        r.detail.y == area.y,
        r.detail.height == (usable_height(area) + 2) / 5,
        r.pane.y == r.detail.y + r.detail.height,
        r.pane.height == usable_height(area) - r.detail.height,
{
    let rows = split_rows(area, &sandbox_extents());
    let r = place_sandbox(&rows);
    assert(rows@ =~= seq![r.detail, r.pane]);
    r
}

/// The widths of the columns of the list of providers.
pub fn provider_columns() -> (r: Vec<Extent>)
    ensures
        r@ == seq![Extent::Percentage(40), Extent::Percentage(25), Extent::Percentage(35)],
{
    let r = vec![Extent::Percentage(40), Extent::Percentage(25), Extent::Percentage(35)];
    assert(r@ =~= seq![
        Extent::Percentage(40),
        Extent::Percentage(25),
        Extent::Percentage(35),
    ]);
    r
}

} // verus!
