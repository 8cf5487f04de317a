//! The debug overlay: the messages that components queued while they drew,
//! printed over the finished screen, one line each.

use crate::rect::ScreenRect;
use crate::screen::{
    addressable, area_of, buffer_area, buffer_cells, cell_count, cells_with_span, print_span,
    same_outside,
};
use tui::buffer::{Buffer, Cell};
use tui::style::Style;
use vstd::prelude::*;
use vstd::string::{StrSliceExecFns, StringExecFns};
use vstd::utf8::encode_utf8;

verus! {

/// The column of the screen at which each line of the overlay starts.
pub const DEBUG_COLUMN: u16 = 50;

/// The index of the first `sep` in `text` at or after `from`; the length of
/// `text` where there is none.
pub open spec fn find_char(text: Seq<char>, sep: char, from: int) -> int
    decreases text.len() - from,
{
    if from < 0 || from >= text.len() {
        text.len() as int
    } else if text[from] == sep {
        from
    } else {
        find_char(text, sep, from + 1)
    }
}

/// The pieces of `text` from `from` on, cut at each `sep`. There is one piece
/// more than there are separators, so the pieces of an empty text are one
/// empty piece.
pub open spec fn split_from(text: Seq<char>, sep: char, from: int) -> Seq<Seq<char>>
    decreases text.len() - from,
{
    let end = find_char(text, sep, from);
    if from <= end < text.len() {
        seq![text.subrange(from, end)] + split_from(text, sep, end + 1)
    } else {
        seq![text.subrange(from, text.len() as int)]
    }
}

/// The lines of one message.
pub open spec fn lines_of(message: Seq<char>) -> Seq<Seq<char>> {
    split_from(message, '\n', 0)
}

/// The lines of all messages, in order.
pub open spec fn all_lines(messages: Seq<Seq<char>>) -> Seq<Seq<char>>
    decreases messages.len(),
{
    if messages.len() == 0 {
        seq![]
    } else {
        all_lines(messages.drop_last()) + lines_of(messages.last())
    }
}

/// The texts of a list of strings.
pub open spec fn texts(strings: Seq<String>) -> Seq<Seq<char>> {
    Seq::new(strings.len(), |i: int| strings[i]@)
}

/// The length of a line in bytes, as UTF-8.
pub open spec fn byte_len(line: Seq<char>) -> nat {
    encode_utf8(line).len()
}

/// The byte length of the longest of `lines`; zero where there is none.
pub open spec fn longest(lines: Seq<Seq<char>>) -> nat
    decreases lines.len(),
{
    if lines.len() == 0 {
        0
    } else if byte_len(lines.last()) >= longest(lines.drop_last()) {
        byte_len(lines.last())
    } else {
        longest(lines.drop_last())
    }
}

/// The width of the overlay on a screen of `width` columns: that of the
/// longest line, and the screen's width at most.
pub open spec fn overlay_width(lines: Seq<Seq<char>>, width: u16) -> nat {
    if longest(lines) <= width {
        longest(lines)
    } else {
        width as nat
    }
}

/// `line` with as many spaces behind it as its byte length lacks to `len`.
pub open spec fn padded(line: Seq<char>, len: nat) -> Seq<char> {
    if byte_len(line) >= len {
        line
    } else {
        line + Seq::new((len - byte_len(line)) as nat, |i: int| ' ')
    }
}

/// The number of lines that the overlay shows on a screen of `height` rows.
pub open spec fn overlay_rows(lines: Seq<Seq<char>>, height: u16) -> nat {
    if lines.len() <= height {
        lines.len()
    } else {
        height as nat
    }
}

/// The part of a screen over `grid` that an overlay takes at most, whatever
/// the messages: all from `DEBUG_COLUMN` on.
pub open spec fn overlay_reach(grid: ScreenRect) -> ScreenRect {
    ScreenRect {
        x: (grid.x + DEBUG_COLUMN) as u16,
        y: grid.y,
        width: grid.width,
        height: grid.height,
    }
}

/// The part of a screen over `grid` that the overlay of `lines` takes.
pub open spec fn overlay_area(grid: ScreenRect, lines: Seq<Seq<char>>) -> ScreenRect {
    ScreenRect {
        x: (grid.x + DEBUG_COLUMN) as u16,
        y: grid.y,
        width: overlay_width(lines, grid.width) as u16,
        height: overlay_rows(lines, grid.height) as u16,
    }
}

/// The cells of a grid over `grid` after the first `rows` of `lines` were
/// printed over it: line `i` in row `i` of the grid, from `DEBUG_COLUMN` on,
/// each padded to `width` and cut off there.
pub open spec fn overlay_cells(
    cells: Seq<Cell>,
    grid: ScreenRect,
    lines: Seq<Seq<char>>,
    style: Style,
    width: nat,
    rows: nat,
) -> Seq<Cell>
    decreases rows,
{
    if rows == 0 {
        cells
    } else {
        cells_with_span(
            overlay_cells(cells, grid, lines, style, width, (rows - 1) as nat),
            grid,
            (grid.x + DEBUG_COLUMN) as u16,
            (grid.y + rows - 1) as u16,
            padded(lines[rows - 1], width),
            style,
            width as u16,
        )
    }
}

/// The cells of a grid over `grid` after the overlay of `lines` was printed
/// over it in `style`. Nothing is printed on a screen that has no column
/// `DEBUG_COLUMN`, or whose cells cannot be addressed.
pub open spec fn shown_over(
    cells: Seq<Cell>,
    grid: ScreenRect,
    lines: Seq<Seq<char>>,
    style: Style,
) -> Seq<Cell> {
    if addressable(grid, cells.len()) && grid.width > DEBUG_COLUMN {
        overlay_cells(
            cells,
            grid,
            lines,
            style,
            overlay_width(lines, grid.width),
            overlay_rows(lines, grid.height),
        )
    } else {
        cells
    }
}

/// `find_char` never goes back, and never past the end.
pub proof fn lemma_find_char_bounds(text: Seq<char>, sep: char, from: int)
    requires
        0 <= from <= text.len(),
    ensures
        from <= find_char(text, sep, from) <= text.len(),
        find_char(text, sep, from) < text.len() ==> text[find_char(text, sep, from)] == sep,
    decreases text.len() - from,
{
    if from < text.len() && text[from] != sep {
        lemma_find_char_bounds(text, sep, from + 1);
    }
}

/// No `sep` lies between `from` and the index that `find_char` gives.
pub proof fn lemma_find_char_first(text: Seq<char>, sep: char, from: int, between: int)
    requires
        0 <= from <= between < find_char(text, sep, from),
    ensures
        between < text.len(),
        text[between] != sep,
    decreases text.len() - from,
{
    lemma_find_char_bounds(text, sep, from);
    if from < between {
        lemma_find_char_first(text, sep, from + 1, between);
    }
}

/// The pieces of a text, with `sep` between each two.
pub open spec fn joined(pieces: Seq<Seq<char>>, sep: char) -> Seq<char>
    decreases pieces.len(),
{
    if pieces.len() == 0 {
        seq![]
    } else if pieces.len() == 1 {
        pieces[0]
    } else {
        pieces[0] + seq![sep] + joined(pieces.drop_first(), sep)
    }
}

/// Cutting a text at each `sep` gives pieces that hold no `sep`, and that,
/// joined by `sep`, are the text again.
pub proof fn lemma_split_from(text: Seq<char>, sep: char, from: int)
    requires
        0 <= from <= text.len(),
    ensures
        split_from(text, sep, from).len() >= 1,
        joined(split_from(text, sep, from), sep) == text.skip(from),
        forall|i: int, j: int|
            0 <= i < split_from(text, sep, from).len() && 0 <= j < split_from(
                text,
                sep,
                from,
            )[i].len() ==> #[trigger] split_from(text, sep, from)[i][j] != sep,
    decreases text.len() - from,
{
    let end = find_char(text, sep, from);
    let pieces = split_from(text, sep, from);
    lemma_find_char_bounds(text, sep, from);
    assert forall|j: int| 0 <= j < end - from implies text.subrange(from, end)[j] != sep by {
        lemma_find_char_first(text, sep, from, from + j);
    }
    if end < text.len() {
        let rest = split_from(text, sep, end + 1);
        lemma_split_from(text, sep, end + 1);
        assert(pieces.drop_first() =~= rest);
    }
}

/// Splits a message into its lines.
pub fn split_lines(message: &str) -> (lines: Vec<String>)
    ensures
        texts(lines@) == lines_of(message@),
        lines@.len() >= 1,
{
    let len = message.unicode_len();
    let mut lines: Vec<String> = Vec::new();
    let mut start: usize = 0;
    let mut i: usize = 0;
    for c in it: message.chars()
        invariant
            len == message@.len(),
            it.seq() == message@,
            i == it.index(),
            start <= i <= len,
            find_char(message@, '\n', start as int) == find_char(message@, '\n', i as int),
            lines_of(message@) == texts(lines@) + split_from(message@, '\n', start as int),
    {
        if c == '\n' {
            let line = message.substring_char(start, i);
            proof {
                lemma_find_char_bounds(message@, '\n', i as int + 1);
            }
            lines.push(String::from_str(line));
            start = i + 1;
        }
        i = i + 1;
    }
    let line = message.substring_char(start, len);
    lines.push(String::from_str(line));
    lines
}

/// Splits each message into its lines.
pub fn debug_lines(messages: &Vec<String>) -> (lines: Vec<String>)
    ensures
        texts(lines@) == all_lines(texts(messages@)),
{
    let mut lines: Vec<String> = Vec::new();
    let mut i: usize = 0;
    while i < messages.len()
        invariant
            i <= messages.len(),
            texts(lines@) == all_lines(texts(messages@).take(i as int)),
        decreases messages.len() - i,
    {
        let mut more = split_lines(messages[i].as_str());
        lines.append(&mut more);
        proof {
            let upto = texts(messages@).take(i as int + 1);
            assert(upto.drop_last() =~= texts(messages@).take(i as int));
        }
        i = i + 1;
    }
    assert(texts(messages@).take(i as int) =~= texts(messages@));
    lines
}

/// The width of the overlay: the byte length of the longest line, and the
/// width of the screen at most.
pub fn max_line_len(lines: &Vec<String>, width: u16) -> (len: usize)
    ensures
        len == overlay_width(texts(lines@), width),
{
    let mut longest_len: usize = 0;
    let mut i: usize = 0;
    while i < lines.len()
        invariant
            i <= lines.len(),
            longest_len == longest(texts(lines@).take(i as int)),
        decreases lines.len() - i,
    {
        let len = lines[i].as_str().as_bytes().len();
        proof {
            let upto = texts(lines@).take(i as int + 1);
            assert(upto.drop_last() =~= texts(lines@).take(i as int));
        }
        if len >= longest_len {
            longest_len = len;
        }
        i = i + 1;
    }
    assert(texts(lines@).take(i as int) =~= texts(lines@));
    if longest_len <= width as usize {
        longest_len
    } else {
        width as usize
    }
}

/// Pads `line` with spaces to a byte length of `len`. A line that is as long
/// or longer stays as it is.
pub fn pad_line(line: &str, len: usize) -> (text: String)
    ensures
        text@ == padded(line@, len as nat),
{
    let mut text = String::from_str(line);
    let have = line.as_bytes().len();
    if have < len {
        let missing = len - have;
        let mut i: usize = 0;
        while i < missing
            invariant
                i <= missing,
                text@ == line@ + Seq::new(i as nat, |j: int| ' '),
            decreases missing - i,
        {
            proof {
                reveal_strlit(" ");
            }
            text.append(" ");
            i = i + 1;
        }
    }
    text
}

/// Whether the buffer holds a cell for each position of its area, and each
/// can be addressed.
pub fn is_addressable(buf: &Buffer) -> (ok: bool)
    ensures
        ok == addressable(buffer_area(*buf), buffer_cells(*buf).len()),
{
    let area = area_of(buf);
    let count = cell_count(buf);
    assert(area.width * area.height <= 0xffff * 0xffff) by (nonlinear_arith)
        requires
            area.width <= 0xffff,
            area.height <= 0xffff,
    ;
    let positions: u64 = area.width as u64 * area.height as u64;
    area.x as u32 + area.width as u32 <= 0xffff && area.y as u32 + area.height as u32 <= 0xffff
        && count as u64 == positions && positions <= 0x1_0000
}

/// Prints the lines of `messages` over the screen in `style`: line `i` in
/// row `i`, from column `DEBUG_COLUMN` on. Each line is padded with spaces
/// to the length of the longest, which is cut down to the width of the
/// screen; lines below the last row are left out. Nothing is printed on a
/// screen that has no such column, or whose cells cannot be addressed.
pub fn draw_debug_messages(buf: &mut Buffer, messages: &Vec<String>, style: Style)
    ensures
        buffer_area(*final(buf)) == buffer_area(*old(buf)),
        buffer_cells(*final(buf)) == shown_over(
            buffer_cells(*old(buf)),
            buffer_area(*old(buf)),
            all_lines(texts(messages@)),
            style,
        ),
        same_outside(
            buffer_cells(*final(buf)),
            buffer_cells(*old(buf)),
            buffer_area(*old(buf)),
            overlay_area(buffer_area(*old(buf)), all_lines(texts(messages@))),
        ),
{
    let grid = area_of(buf);
    if !is_addressable(buf) || grid.width <= DEBUG_COLUMN {
        return ;
    }
    let debug_messages = debug_lines(messages);
    let max_line_len = max_line_len(&debug_messages, grid.width);
    let ghost lines = texts(debug_messages@);
    let ghost cells = buffer_cells(*buf);
    let mut y: usize = 0;
    while y < debug_messages.len() && y < grid.height as usize
        invariant
            y <= debug_messages.len(),
            y <= grid.height,
            grid.width > DEBUG_COLUMN,
            lines == texts(debug_messages@),
            max_line_len == overlay_width(lines, grid.width),
            buffer_area(*buf) == grid,
            addressable(grid, buffer_cells(*buf).len()),
            buffer_cells(*buf) == overlay_cells(
                cells,
                grid,
                lines,
                style,
                max_line_len as nat,
                y as nat,
            ),
            same_outside(buffer_cells(*buf), cells, grid, overlay_area(grid, lines)),
        decreases debug_messages.len() - y,
    {
        let text = pad_line(debug_messages[y].as_str(), max_line_len);
        print_span(
            buf,
            grid.x + DEBUG_COLUMN,
            grid.y + y as u16,
            text.as_str(),
            style,
            max_line_len as u16,
        );
        y = y + 1;
    }
}

} // verus!
