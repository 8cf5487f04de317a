//! The physical character grid: a `tui` buffer, and what is taken for granted
//! of it.
//!
//! The functions in this file that have a body of code are not verified.
//! Each of them calls into `tui`, and its contract states what the call does,
//! as `tui`'s source shows it.

use crate::rect::ScreenRect;
use tui::buffer::{Buffer, Cell};
use tui::style::{Color, Modifier, Style};
use vstd::prelude::*;

verus! {

/// `tui`'s grid of styled character cells.
#[verifier::external_type_specification]
#[verifier::external_body]
pub struct ExBuffer(tui::buffer::Buffer);

/// One cell of the grid: a symbol and how it is displayed.
#[verifier::external_type_specification]
#[verifier::external_body]
pub struct ExCell(tui::buffer::Cell);

/// A change of style. The library hands styles on and never looks inside.
#[verifier::external_type_specification]
#[verifier::external_body]
pub struct ExStyle(tui::style::Style);

/// The area of the screen that a buffer covers: its field `area`.
pub uninterp spec fn buffer_area(buf: Buffer) -> ScreenRect;

/// The cells of a buffer, row by row: its field `content`.
pub uninterp spec fn buffer_cells(buf: Buffer) -> Seq<Cell>;

/// The cell that `Cell::set_style` makes of `cell`.
pub uninterp spec fn cell_with_style(cell: Cell, style: Style) -> Cell;

/// The cells that `Buffer::set_span` leaves in a buffer over `area` that held
/// `cells`, when it prints `text` in `style` from column `x` of row `y` over
/// at most `width` columns.
pub uninterp spec fn cells_with_span(
    cells: Seq<Cell>,
    area: ScreenRect,
    x: u16,
    y: u16,
    text: Seq<char>,
    style: Style,
    width: u16,
) -> Seq<Cell>;

/// Whether each cell of `area` can be addressed in a buffer of `cells` cells
/// over `area`: the buffer holds one cell for each position, the positions
/// are within what a `u16` holds, and so is the index of the last cell.
pub open spec fn addressable(area: ScreenRect, cells: nat) -> bool {
    &&& area.right() <= u16::MAX
    &&& area.bottom() <= u16::MAX
    &&& cells == area.width * area.height
    &&& cells <= 0x1_0000
}

/// The cells of a grid over `grid` after each cell in `area` was given
/// `style`.
pub open spec fn styled_cells(
    cells: Seq<Cell>,
    grid: ScreenRect,
    area: ScreenRect,
    style: Style,
) -> Seq<Cell> {
    Seq::new(
        cells.len(),
        |i: int|
            if grid.index_in(i, area) {
                cell_with_style(cells[i], style)
            } else {
                cells[i]
            },
    )
}

/// Whether the cells `after` are the cells `before` of a grid over `grid`,
/// but for those that lie in `area`.
pub open spec fn same_outside(
    after: Seq<Cell>,
    before: Seq<Cell>,
    grid: ScreenRect,
    area: ScreenRect,
) -> bool {
    &&& after.len() == before.len()
    &&& forall|i: int|
        0 <= i < before.len() && !grid.index_in(i, area) ==> #[trigger] after[i] == before[i]
}

/// The part of row `y` that a span printed from column `x` over at most
/// `width` columns may touch.
pub open spec fn span_area(x: u16, y: u16, width: u16) -> ScreenRect {
    ScreenRect { x, y, width, height: 1 }
}

/// Calls `Buffer::area`, which hands out the field `area`. The result is the
/// buffer's area, field by field.
#[verifier::external_body]
pub(crate) fn area_of(buf: &Buffer) -> (area: ScreenRect)
    ensures
        area == buffer_area(*buf),
{
    let area = buf.area();
    ScreenRect { x: area.x, y: area.y, width: area.width, height: area.height }
}

/// Calls `Buffer::content`, which hands out the cells as a slice. The result
/// is their number.
#[verifier::external_body]
pub(crate) fn cell_count(buf: &Buffer) -> (count: usize)
    ensures
        count == buffer_cells(*buf).len(),
{
    buf.content().len()
}

/// Calls `Buffer::set_style`. For each position of `area`, row by row, it
/// looks up the cell's index, which fails outside the buffer's area, and
/// calls `Cell::set_style` on that cell; it touches nothing else. An empty
/// `area` has no position, so the call then does nothing, wherever `area`
/// lies.
#[verifier::external_body]
pub(crate) fn fill_style(buf: &mut Buffer, area: ScreenRect, style: Style)
    requires
        !area.is_empty() ==> addressable(buffer_area(*old(buf)), buffer_cells(*old(buf)).len()),
        !area.is_empty() ==> buffer_area(*old(buf)).encloses(area),
    ensures
        buffer_area(*final(buf)) == buffer_area(*old(buf)),
        buffer_cells(*final(buf)).len() == buffer_cells(*old(buf)).len(),
        forall|i: int|
            0 <= i < buffer_cells(*old(buf)).len() && buffer_area(*old(buf)).index_in(i, area)
                ==> #[trigger] buffer_cells(*final(buf))[i] == cell_with_style(
                buffer_cells(*old(buf))[i],
                style,
            ),
        same_outside(
            buffer_cells(*final(buf)),
            buffer_cells(*old(buf)),
            buffer_area(*old(buf)),
            area,
        ),
{
    let area =
        tui::layout::Rect { x: area.x, y: area.y, width: area.width, height: area.height };
    buf.set_style(area, style);
}

/// Calls `Buffer::set_span` with a span of `text` in `style`. It looks up the
/// index of the cell at `(x, y)`, which fails outside the buffer's area, and
/// from there writes the graphemes of `text` that have a width into
/// successive cells of row `y`, as long as they fit into `width` columns and
/// into the row. What it writes where is left to `tui`; it leaves the area,
/// the number of cells, and every cell outside that part of the row as
/// they were.
#[verifier::external_body]
pub(crate) fn print_span(buf: &mut Buffer, x: u16, y: u16, text: &str, style: Style, width: u16)
    requires
        addressable(buffer_area(*old(buf)), buffer_cells(*old(buf)).len()),
        buffer_area(*old(buf)).contains_cell(x as int, y as int),
    ensures
        buffer_area(*final(buf)) == buffer_area(*old(buf)),
        buffer_cells(*final(buf)) == cells_with_span(
            buffer_cells(*old(buf)),
            buffer_area(*old(buf)),
            x,
            y,
            text@,
            style,
            width,
        ),
        same_outside(
            buffer_cells(*final(buf)),
            buffer_cells(*old(buf)),
            buffer_area(*old(buf)),
            span_area(x, y, width),
        ),
{
    let span = tui::text::Span { content: std::borrow::Cow::Borrowed(text), style };
    buf.set_span(x, y, &span, width);
}

/// Calls `Buffer::default` for a buffer that holds nothing: it stands in
/// where a buffer is lent out, and nothing is drawn onto it. Nothing is
/// claimed of it.
#[verifier::external_body]
pub(crate) fn no_buffer() -> Buffer {
    Buffer::default()
}

/// Builds the style of the debug overlay with `Style::default`, `Style::fg`
/// and `Style::add_modifier`: yellow, reversed. Nothing is claimed of it.
#[verifier::external_body]
pub(crate) fn overlay_style() -> Style {
    Style::default().fg(Color::Yellow).add_modifier(Modifier::REVERSED)
}

} // verus!
