//! What a rendered table is: its lines, and the text that joins them.
//!
//! Everything here is specification. A grid is a sequence of rows, a row a
//! sequence of cells, a cell a sequence of characters.

use crate::glyphs::{
    BOTTOM_BRACE, BOTTOM_LEFT_CORNER, BOTTOM_RIGHT_CORNER, HORIZONTAL, HORIZONTAL_HEADER,
    LEFT_BRACE, LEFT_BRACE_HEADER, MIDDLE_BRACE, MIDDLE_BRACE_HEADER, NEWLINE, RIGHT_BRACE,
    RIGHT_BRACE_HEADER, TOP_BRACE, TOP_BRACE_HEADER, TOP_LEFT_CORNER, TOP_LEFT_CORNER_HEADER,
    TOP_RIGHT_CORNER, TOP_RIGHT_CORNER_HEADER, VERTICAL,
};
use crate::text::{closed_parts, joined_with, repeated, spaces, text_width};
use crate::widths::column_widths;
use vstd::prelude::*;

verus! {

/// How the first row is set apart from the rest.
#[derive(Clone, Copy, Debug, PartialEq, Eq, Structural)]
pub struct Header {
    /// Whether to use double bar Unicode characters surrounding the header
    pub double_bar: bool,
    /// Whether to center the header text within each column
    pub centered_text: bool,
}

/// The cells of `rows` as sequences of characters.
pub open spec fn grid_of(rows: &Vec<Vec<String>>) -> Seq<Seq<Seq<char>>> {
    Seq::new(rows@.len(), |r: int| row_of(&rows@[r]))
}

/// The cells of `row` as sequences of characters.
pub open spec fn row_of(row: &Vec<String>) -> Seq<Seq<char>> {
    Seq::new(row@.len(), |c: int| row@[c]@)
}

/// The widths held in `widths`, as natural numbers.
pub open spec fn widths_of(widths: Seq<usize>) -> Seq<nat> {
    Seq::new(widths.len(), |c: int| widths[c] as nat)
}

/// The stretches of fill of a border, one per column and as long as the
/// column is wide.
pub open spec fn fills(widths: Seq<nat>, fill: Seq<char>) -> Seq<Seq<char>> {
    Seq::new(widths.len(), |c: int| repeated(fill, widths[c]))
}

/// One horizontal border.
pub open spec fn border_line(
    widths: Seq<nat>,
    left: Seq<char>,
    middle: Seq<char>,
    right: Seq<char>,
    fill: Seq<char>,
) -> Seq<char> {
    left + joined_with(fills(widths, fill), middle) + right
}

/// The number of blanks that fill a field of `width` beside `text`.
pub open spec fn slack(text: Seq<char>, width: nat) -> nat {
    if width >= text_width(text) {
        (width - text_width(text)) as nat
    } else {
        0
    }
}

/// The number of blanks in front of `text` centered in a field of `width`.
pub open spec fn leading(text: Seq<char>, width: nat) -> nat {
    slack(text, width) / 2
}

/// The number of blanks behind `text` centered in a field of `width`.
pub open spec fn trailing(text: Seq<char>, width: nat) -> nat {
    (slack(text, width) - leading(text, width)) as nat
}

/// `text` at the start of a field of `width`, blanks behind it.
pub open spec fn left_aligned(text: Seq<char>, width: nat) -> Seq<char> {
    text + spaces(slack(text, width))
}

/// `text` in the middle of a field of `width`, blanks on either side.
pub open spec fn centered(text: Seq<char>, width: nat) -> Seq<char> {
    spaces(leading(text, width)) + text + spaces(trailing(text, width))
}

/// The field of one cell.
pub open spec fn field(text: Seq<char>, width: nat, center: bool) -> Seq<char> {
    if center {
        centered(text, width)
    } else {
        left_aligned(text, width)
    }
}

/// The fields of a row, one per column.
pub open spec fn fields(row: Seq<Seq<char>>, widths: Seq<nat>, center: bool) -> Seq<Seq<char>> {
    Seq::new(widths.len(), |c: int| field(row[c], widths[c], center))
}

/// The line of one row of cells: a bar, then each field with a bar behind it.
pub open spec fn data_line(row: Seq<Seq<char>>, widths: Seq<nat>, center: bool) -> Seq<char> {
    VERTICAL@ + closed_parts(fields(row, widths, center), VERTICAL@, widths.len())
}

/// The first line of the table.
pub open spec fn top_line(widths: Seq<nat>, first_row_header: bool, header: Header) -> Seq<
    char,
> {
    if first_row_header && header.double_bar {
        border_line(
            widths,
            TOP_LEFT_CORNER_HEADER@,
            TOP_BRACE_HEADER@,
            TOP_RIGHT_CORNER_HEADER@,
            HORIZONTAL_HEADER@,
        )
    } else {
        border_line(widths, TOP_LEFT_CORNER@, TOP_BRACE@, TOP_RIGHT_CORNER@, HORIZONTAL@)
    }
}

/// The border between two ordinary rows.
pub open spec fn middle_line(widths: Seq<nat>) -> Seq<char> {
    border_line(widths, LEFT_BRACE@, MIDDLE_BRACE@, RIGHT_BRACE@, HORIZONTAL@)
}

/// The border under a header that is framed with double bars.
pub open spec fn header_bottom_line(widths: Seq<nat>) -> Seq<char> {
    border_line(
        widths,
        LEFT_BRACE_HEADER@,
        MIDDLE_BRACE_HEADER@,
        RIGHT_BRACE_HEADER@,
        HORIZONTAL_HEADER@,
    )
}

/// The border under row `above`, which is not the last row.
pub open spec fn separator_line(
    widths: Seq<nat>,
    above: int,
    first_row_header: bool,
    header: Header,
) -> Seq<char> {
    if above == 0 && first_row_header && header.double_bar {
        header_bottom_line(widths)
    } else {
        middle_line(widths)
    }
}

/// The last line of the table.
pub open spec fn bottom_line(widths: Seq<nat>) -> Seq<char> {
    border_line(widths, BOTTOM_LEFT_CORNER@, BOTTOM_BRACE@, BOTTOM_RIGHT_CORNER@, HORIZONTAL@)
}

/// Whether the cells of row `r` are centered: only those of a header are.
pub open spec fn row_is_centered(r: int, first_row_header: bool, header: Header) -> bool {
    r == 0 && first_row_header && header.centered_text
}

/// Line `k` of the table, counted from 0. Lines with an odd number hold the
/// rows, those with an even number the borders.
pub open spec fn line_at(
    grid: Seq<Seq<Seq<char>>>,
    widths: Seq<nat>,
    first_row_header: bool,
    header: Header,
    k: int,
) -> Seq<char> {
    if k % 2 == 1 {
        data_line(grid[k / 2], widths, row_is_centered(k / 2, first_row_header, header))
    } else if k == 0 {
        top_line(widths, first_row_header, header)
    } else if k == 2 * grid.len() {
        bottom_line(widths)
    } else {
        separator_line(widths, k / 2 - 1, first_row_header, header)
    }
}

/// The lines of the table: a border, then each row with a border under it.
pub open spec fn table_lines(
    grid: Seq<Seq<Seq<char>>>,
    widths: Seq<nat>,
    first_row_header: bool,
    header: Header,
) -> Seq<Seq<char>> {
    Seq::new(
        (2 * grid.len() + 1) as nat,
        |k: int| line_at(grid, widths, first_row_header, header, k),
    )
}

/// `lines` with a line break between each two, and none at the end.
pub open spec fn joined(lines: Seq<Seq<char>>) -> Seq<char> {
    joined_with(lines, NEWLINE@)
}

/// The text of the table for given column widths.
pub open spec fn table_text_with(
    grid: Seq<Seq<Seq<char>>>,
    widths: Seq<nat>,
    first_row_header: bool,
    header: Header,
) -> Seq<char> {
    if widths.len() == 0 {
        Seq::empty()
    } else {
        joined(table_lines(grid, widths, first_row_header, header))
    }
}

/// The text of the table: nothing for a grid without columns, else its lines
/// for the widths that its cells and its header call for.
pub open spec fn table_text(
    grid: Seq<Seq<Seq<char>>>,
    first_row_header: bool,
    header: Header,
) -> Seq<char> {
    table_text_with(
        grid,
        column_widths(grid, header.centered_text),
        first_row_header,
        header,
    )
}

} // verus!
