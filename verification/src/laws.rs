//! What holds of every table: of its widths, its lines and its fields.

use crate::glyphs::{
    BOTTOM_BRACE, BOTTOM_LEFT_CORNER, BOTTOM_RIGHT_CORNER, HORIZONTAL, HORIZONTAL_HEADER,
    LEFT_BRACE, LEFT_BRACE_HEADER, lemma_glyphs_are_single, MIDDLE_BRACE, MIDDLE_BRACE_HEADER,
    NEWLINE, RIGHT_BRACE, RIGHT_BRACE_HEADER, TOP_BRACE, TOP_BRACE_HEADER, TOP_LEFT_CORNER,
    TOP_LEFT_CORNER_HEADER, TOP_RIGHT_CORNER, TOP_RIGHT_CORNER_HEADER, VERTICAL,
};
use crate::layout::{
    border_line, centered, data_line, field, fields, fills, Header, leading, row_is_centered, slack,
    table_lines, table_text, trailing,
};
use crate::error::TableError;
use crate::lines::{
    all_unbroken, lemma_lines_of_joined, lemma_unbroken_closed, lemma_unbroken_concat,
    lemma_unbroken_joined, lemma_unbroken_repeated, line_break, lines_of, unbroken,
};
use crate::table::is_rendering;
use crate::widths::is_rectangular;
use crate::size::{fields_width, lemma_field_width, lemma_fields_width};
use crate::text::{
    closed_parts, joined_with, lemma_ascii_width, lemma_encode_concat, lemma_width_concat, repeated,
    spaces, text_width,
};
use crate::widths::{
    centered_width, column_count, column_width, column_widths, folded_width,
    lemma_column_fits_cells, lemma_folded_width_bounds,
};
use vstd::utf8::{encode_utf8, is_ascii_chars};
use vstd::prelude::*;

verus! {

/// Making room for a centered header never makes a column narrower.
pub proof fn law_centering_never_narrows(width: nat, header_width: nat)
    ensures
        centered_width(width, header_width) >= width,
{
}

/// A column that holds its header has, once room was made, at least one blank
/// on either side of the header and an even number of blanks in all; making
/// room a second time changes nothing.
pub proof fn law_centering_settles(width: nat, header_width: nat)
    requires
        header_width <= width,
    ensures
        centered_width(width, header_width) >= header_width + 2,
        (centered_width(width, header_width) - header_width) % 2 == 0,
        centered_width(centered_width(width, header_width), header_width) == centered_width(
            width,
            header_width,
        ),
{
}

/// With centered headers, every column leaves its header cell as many blanks
/// in front as behind, and at least one on either side.
pub proof fn law_header_is_balanced(grid: Seq<Seq<Seq<char>>>, col: int)
    requires
        0 <= col < column_count(grid),
    ensures
        leading(grid[0][col], column_width(grid, col, true)) == trailing(
            grid[0][col],
            column_width(grid, col, true),
        ),
        leading(grid[0][col], column_width(grid, col, true)) >= 1,
        centered(grid[0][col], column_width(grid, col, true)) == spaces(
            leading(grid[0][col], column_width(grid, col, true)),
        ) + grid[0][col] + spaces(leading(grid[0][col], column_width(grid, col, true))),
{
    let raw = text_width(grid[0][col]);
    let folded = folded_width(grid, col, grid.len(), true);
    lemma_folded_width_bounds(grid, col, grid.len(), true);
    law_centering_settles(folded, raw);
}

/// Rendering is a function of the grid and the settings: two renderings of
/// the same grid with the same settings give the same text, or fail for the
/// same reason.
pub proof fn law_rendering_is_unique(
    grid: Seq<Seq<Seq<char>>>,
    first_row_header: bool,
    header: Header,
    first: Result<String, TableError>,
    second: Result<String, TableError>,
)
    requires
        is_rendering(grid, first_row_header, header, first),
        is_rendering(grid, first_row_header, header, second),
    ensures
        first matches Ok(a) ==> second matches Ok(b) && a@ == b@,
        first matches Err(e) ==> second == Err::<String, TableError>(e),
{
}

/// No cell of the grid holds a line break.
pub open spec fn cells_unbroken(grid: Seq<Seq<Seq<char>>>) -> bool {
    forall|r: int, c: int|
        0 <= r < grid.len() && 0 <= c < grid[r].len() ==> unbroken(#[trigger] grid[r][c])
}

/// A border whose pieces hold no line break holds none.
pub proof fn lemma_border_unbroken(
    widths: Seq<nat>,
    left: Seq<char>,
    middle: Seq<char>,
    right: Seq<char>,
    fill: Seq<char>,
)
    requires
        unbroken(left),
        unbroken(middle),
        unbroken(right),
        unbroken(fill),
    ensures
        unbroken(border_line(widths, left, middle, right, fill)),
{
    let parts = fills(widths, fill);
    assert forall|k: int| 0 <= k < parts.len() implies unbroken(#[trigger] parts[k]) by {
        lemma_unbroken_repeated(fill, widths[k]);
    }
    lemma_unbroken_joined(parts, middle);
    lemma_unbroken_concat(left, joined_with(parts, middle));
    lemma_unbroken_concat(left + joined_with(parts, middle), right);
}

/// The line of a row whose cells hold no line break holds none.
pub proof fn lemma_data_line_unbroken(row: Seq<Seq<char>>, widths: Seq<nat>, center: bool)
    requires
        forall|c: int| 0 <= c < widths.len() ==> unbroken(#[trigger] row[c]),
    ensures
        unbroken(data_line(row, widths, center)),
{
    lemma_glyphs_are_single();
    let parts = fields(row, widths, center);
    assert forall|k: int| 0 <= k < parts.len() implies unbroken(#[trigger] parts[k]) by {}
    lemma_unbroken_closed(parts, VERTICAL@, widths.len());
    lemma_unbroken_concat(VERTICAL@, closed_parts(parts, VERTICAL@, widths.len()));
}

/// The lines of a table whose cells hold no line break hold none.
pub proof fn lemma_table_lines_unbroken(
    grid: Seq<Seq<Seq<char>>>,
    widths: Seq<nat>,
    first_row_header: bool,
    header: Header,
)
    requires
        forall|r: int, c: int|
            0 <= r < grid.len() && 0 <= c < widths.len() ==> unbroken(#[trigger] grid[r][c]),
    ensures
        all_unbroken(table_lines(grid, widths, first_row_header, header)),
{
    lemma_glyphs_are_single();
    let lines = table_lines(grid, widths, first_row_header, header);
    lemma_border_unbroken(
        widths,
        TOP_LEFT_CORNER_HEADER@,
        TOP_BRACE_HEADER@,
        TOP_RIGHT_CORNER_HEADER@,
        HORIZONTAL_HEADER@,
    );
    lemma_border_unbroken(widths, TOP_LEFT_CORNER@, TOP_BRACE@, TOP_RIGHT_CORNER@, HORIZONTAL@);
    lemma_border_unbroken(widths, LEFT_BRACE@, MIDDLE_BRACE@, RIGHT_BRACE@, HORIZONTAL@);
    lemma_border_unbroken(
        widths,
        LEFT_BRACE_HEADER@,
        MIDDLE_BRACE_HEADER@,
        RIGHT_BRACE_HEADER@,
        HORIZONTAL_HEADER@,
    );
    lemma_border_unbroken(
        widths,
        BOTTOM_LEFT_CORNER@,
        BOTTOM_BRACE@,
        BOTTOM_RIGHT_CORNER@,
        HORIZONTAL@,
    );
    assert forall|k: int| 0 <= k < lines.len() implies unbroken(#[trigger] lines[k]) by {
        if k % 2 == 1 {
            let r = k / 2;
            assert forall|c: int| 0 <= c < widths.len() implies unbroken(
                #[trigger] grid[r][c],
            ) by {}
            lemma_data_line_unbroken(
                grid[r],
                widths,
                row_is_centered(r, first_row_header, header),
            );
        }
    }
}

/// A table of at least one column has a border, then for each row the row and
/// a border under it: twice as many lines as rows, and one. Every line but
/// the last ends with a line break, and where no cell holds a line break,
/// these lines are the lines of the text.
pub proof fn law_line_count(grid: Seq<Seq<Seq<char>>>, first_row_header: bool, header: Header)
    requires
        is_rectangular(grid),
        column_count(grid) > 0,
    ensures
        table_lines(
            grid,
            column_widths(grid, header.centered_text),
            first_row_header,
            header,
        ).len() == 2 * grid.len() + 1,
        table_text(grid, first_row_header, header) == joined_with(
            table_lines(
                grid,
                column_widths(grid, header.centered_text),
                first_row_header,
                header,
            ),
            line_break(),
        ),
        cells_unbroken(grid) ==> lines_of(table_text(grid, first_row_header, header))
            == table_lines(
            grid,
            column_widths(grid, header.centered_text),
            first_row_header,
            header,
        ),
{
    lemma_glyphs_are_single();
    let widths = column_widths(grid, header.centered_text);
    let lines = table_lines(grid, widths, first_row_header, header);
    if cells_unbroken(grid) {
        assert forall|r: int, c: int|
            0 <= r < grid.len() && 0 <= c < widths.len() implies unbroken(
            #[trigger] grid[r][c],
        ) by {}
        lemma_table_lines_unbroken(grid, widths, first_row_header, header);
        lemma_lines_of_joined(lines);
    }
}

/// Every cell of the grid is plain ASCII.
pub open spec fn cells_ascii(grid: Seq<Seq<Seq<char>>>) -> bool {
    forall|r: int, c: int|
        0 <= r < grid.len() && 0 <= c < grid[r].len() ==> is_ascii_chars(#[trigger] grid[r][c])
}

/// The sum of the first `n` widths.
pub open spec fn widths_sum(widths: Seq<nat>, n: nat) -> nat
    decreases n,
{
    if n == 0 {
        0
    } else {
        widths_sum(widths, (n - 1) as nat) + widths[n - 1]
    }
}

/// The number of characters of a line: the widths of the columns, a bar to
/// the left of each, and one more bar at the right end.
pub open spec fn total_width_per_row(widths: Seq<nat>) -> nat {
    widths_sum(widths, widths.len()) + widths.len() + 1
}

/// The number of lines of a table of `rows` rows.
pub open spec fn total_lines(rows: nat) -> nat {
    rows + (rows + 1)
}

/// The number of characters of the text of a table of `rows` rows: its
/// lines, and a line break between each two.
pub open spec fn total_output_length(widths: Seq<nat>, rows: nat) -> nat {
    (total_width_per_row(widths) * total_lines(rows) + (total_lines(rows) - 1)) as nat
}

/// The length of a repeated character.
pub proof fn lemma_repeated_single_len(unit: Seq<char>, n: nat)
    requires
        unit.len() == 1,
    ensures
        repeated(unit, n).len() == n,
    decreases n,
{
    if n > 0 {
        lemma_repeated_single_len(unit, (n - 1) as nat);
    }
}

/// The length of parts that are as long as the columns are wide, each closed
/// by a single character.
pub proof fn lemma_closed_len(parts: Seq<Seq<char>>, sep: Seq<char>, widths: Seq<nat>, n: nat)
    requires
        n <= parts.len(),
        n <= widths.len(),
        sep.len() == 1,
        forall|c: int| 0 <= c < n ==> (#[trigger] parts[c]).len() == widths[c],
    ensures
        closed_parts(parts, sep, n).len() == widths_sum(widths, n) + n,
    decreases n,
{
    if n > 0 {
        lemma_closed_len(parts, sep, widths, (n - 1) as nat);
    }
}

/// A border of single characters is as long as `total_width_per_row` says.
pub proof fn lemma_border_len(
    widths: Seq<nat>,
    left: Seq<char>,
    middle: Seq<char>,
    right: Seq<char>,
    fill: Seq<char>,
)
    requires
        widths.len() > 0,
        left.len() == 1,
        middle.len() == 1,
        right.len() == 1,
        fill.len() == 1,
    ensures
        border_line(widths, left, middle, right, fill).len() == total_width_per_row(widths),
{
    let parts = fills(widths, fill);
    assert forall|c: int| 0 <= c < parts.len() implies (#[trigger] parts[c]).len()
        == widths[c] by {
        lemma_repeated_single_len(fill, widths[c]);
    }
    lemma_closed_len(parts, middle, widths, (widths.len() - 1) as nat);
}

/// A field of plain ASCII is as many characters long as its column is wide,
/// where the cell fits.
pub proof fn lemma_field_len(text: Seq<char>, width: nat, center: bool)
    requires
        is_ascii_chars(text),
        text_width(text) <= width,
    ensures
        field(text, width, center).len() == width,
{
    lemma_ascii_width(text);
}

/// The line of a row of plain ASCII whose cells fit is as long as
/// `total_width_per_row` says.
pub proof fn lemma_data_line_len(row: Seq<Seq<char>>, widths: Seq<nat>, center: bool)
    requires
        forall|c: int|
            0 <= c < widths.len() ==> is_ascii_chars(#[trigger] row[c]) && text_width(row[c])
                <= widths[c],
    ensures
        data_line(row, widths, center).len() == total_width_per_row(widths),
{
    lemma_glyphs_are_single();
    let parts = fields(row, widths, center);
    assert forall|c: int| 0 <= c < parts.len() implies (#[trigger] parts[c]).len()
        == widths[c] by {
        lemma_field_len(row[c], widths[c], center);
    }
    lemma_closed_len(parts, VERTICAL@, widths, widths.len());
}

/// Where every cell is plain ASCII, every line of the table, border or row,
/// with a header or without, has the same number of characters:
/// `total_width_per_row`.
pub proof fn law_lines_have_one_length(
    grid: Seq<Seq<Seq<char>>>,
    first_row_header: bool,
    header: Header,
    k: int,
)
    requires
        is_rectangular(grid),
        column_count(grid) > 0,
        cells_ascii(grid),
        0 <= k <= 2 * grid.len(),
    ensures
        table_lines(
            grid,
            column_widths(grid, header.centered_text),
            first_row_header,
            header,
        )[k].len() == total_width_per_row(column_widths(grid, header.centered_text)),
{
    lemma_glyphs_are_single();
    let widths = column_widths(grid, header.centered_text);
    lemma_border_len(
        widths,
        TOP_LEFT_CORNER_HEADER@,
        TOP_BRACE_HEADER@,
        TOP_RIGHT_CORNER_HEADER@,
        HORIZONTAL_HEADER@,
    );
    lemma_border_len(widths, TOP_LEFT_CORNER@, TOP_BRACE@, TOP_RIGHT_CORNER@, HORIZONTAL@);
    lemma_border_len(widths, LEFT_BRACE@, MIDDLE_BRACE@, RIGHT_BRACE@, HORIZONTAL@);
    lemma_border_len(
        widths,
        LEFT_BRACE_HEADER@,
        MIDDLE_BRACE_HEADER@,
        RIGHT_BRACE_HEADER@,
        HORIZONTAL_HEADER@,
    );
    lemma_border_len(widths, BOTTOM_LEFT_CORNER@, BOTTOM_BRACE@, BOTTOM_RIGHT_CORNER@, HORIZONTAL@);
    if k % 2 == 1 {
        let r = k / 2;
        assert forall|c: int| 0 <= c < widths.len() implies is_ascii_chars(
            #[trigger] grid[r][c],
        ) && text_width(grid[r][c]) <= widths[c] by {
            lemma_column_fits_cells(grid, c, r, header.centered_text);
        }
        lemma_data_line_len(grid[r], widths, row_is_centered(r, first_row_header, header));
    }
}

/// The length of lines of one length, each closed by a single character.
pub proof fn lemma_closed_uniform_len(lines: Seq<Seq<char>>, sep: Seq<char>, each: nat, n: nat)
    requires
        n <= lines.len(),
        sep.len() == 1,
        forall|k: int| 0 <= k < n ==> (#[trigger] lines[k]).len() == each,
    ensures
        closed_parts(lines, sep, n).len() == n * (each + 1),
    decreases n,
{
    if n > 0 {
        lemma_closed_uniform_len(lines, sep, each, (n - 1) as nat);
        assert(n * (each + 1) == (n - 1) * (each + 1) + (each + 1)) by (nonlinear_arith);
    } else {
        assert(0 * (each + 1) == 0) by (nonlinear_arith);
    }
}

/// Where every cell is plain ASCII, the text of the table has as many
/// characters as `total_output_length` says: its length is known from the
/// widths and the number of rows alone.
pub proof fn law_output_length(
    grid: Seq<Seq<Seq<char>>>,
    first_row_header: bool,
    header: Header,
)
    requires
        is_rectangular(grid),
        column_count(grid) > 0,
        cells_ascii(grid),
    ensures
        table_text(grid, first_row_header, header).len() == total_output_length(
            column_widths(grid, header.centered_text),
            grid.len(),
        ),
{
    lemma_glyphs_are_single();
    let widths = column_widths(grid, header.centered_text);
    let lines = table_lines(grid, widths, first_row_header, header);
    let each = total_width_per_row(widths);
    let n = (2 * grid.len()) as nat;
    assert forall|k: int| 0 <= k < lines.len() implies (#[trigger] lines[k]).len() == each by {
        law_lines_have_one_length(grid, first_row_header, header, k);
    }
    lemma_closed_uniform_len(lines, NEWLINE@, each, n);
    assert(each * (n + 1) + n == n * (each + 1) + each) by (nonlinear_arith);
}

/// `text` without the blanks at its end.
pub open spec fn trim_end(text: Seq<char>) -> Seq<char>
    decreases text.len(),
{
    if text.len() > 0 && text.last() == ' ' {
        trim_end(text.drop_last())
    } else {
        text
    }
}

/// `text` without the blanks at its start.
pub open spec fn trim_start(text: Seq<char>) -> Seq<char>
    decreases text.len(),
{
    if text.len() > 0 && text[0] == ' ' {
        trim_start(text.drop_first())
    } else {
        text
    }
}

/// `text` without the blanks at either end.
pub open spec fn trimmed(text: Seq<char>) -> Seq<char> {
    trim_start(trim_end(text))
}

/// `text` neither begins nor ends with a blank.
pub open spec fn unpadded(text: Seq<char>) -> bool {
    text.len() > 0 ==> text[0] != ' ' && text.last() != ' '
}

/// Blanks behind a text are trimmed away.
pub proof fn lemma_trim_end_blanks(text: Seq<char>, n: nat)
    ensures
        trim_end(text + spaces(n)) == trim_end(text),
    decreases n,
{
    if n > 0 {
        assert((text + spaces(n)).drop_last() =~= text + spaces((n - 1) as nat));
        lemma_trim_end_blanks(text, (n - 1) as nat);
    }
}

/// Blanks in front of a text are trimmed away.
pub proof fn lemma_trim_start_blanks(text: Seq<char>, n: nat)
    ensures
        trim_start(spaces(n) + text) == trim_start(text),
    decreases n,
{
    if n > 0 {
        assert((spaces(n) + text).drop_first() =~= spaces((n - 1) as nat) + text);
        lemma_trim_start_blanks(text, (n - 1) as nat);
    }
}

/// A field without its blanks is the cell: what is read back from a field is
/// what was written into it, for a cell that neither begins nor ends with a
/// blank, centered or not, too wide for its column or not.
pub proof fn law_field_round_trip(text: Seq<char>, width: nat, center: bool)
    requires
        unpadded(text),
    ensures
        trimmed(field(text, width, center)) == text,
{
    let front: nat = if center {
        leading(text, width)
    } else {
        0
    };
    let back: nat = if center {
        trailing(text, width)
    } else {
        slack(text, width)
    };
    lemma_trim_end_blanks(spaces(front) + text, back);
    if text.len() == 0 {
        lemma_trim_end_blanks(Seq::<char>::empty(), front);
    } else {
        lemma_trim_start_blanks(text, front);
    }
}

/// The byte at which the field of column `col` begins in the line of a row.
pub open spec fn field_offset(widths: Seq<nat>, col: nat) -> nat {
    text_width(VERTICAL@) + fields_width(widths, col)
}

/// The first fields of a row stand at the start of the row.
pub proof fn lemma_closed_parts_prefix<T>(parts: Seq<Seq<T>>, sep: Seq<T>, m: nat, n: nat)
    requires
        m <= n,
    ensures
        closed_parts(parts, sep, n).len() >= closed_parts(parts, sep, m).len(),
        closed_parts(parts, sep, n).take(closed_parts(parts, sep, m).len() as int)
            == closed_parts(parts, sep, m),
    decreases n,
{
    if m < n {
        lemma_closed_parts_prefix(parts, sep, m, (n - 1) as nat);
    }
}

/// In the line of a row whose cells fit their columns, the bytes of each
/// field stand at a place that the widths alone decide: behind the first bar,
/// the fields before it and their bars. The field is as many bytes long as
/// its column is wide.
pub proof fn law_field_position(row: Seq<Seq<char>>, widths: Seq<nat>, center: bool, col: int)
    requires
        0 <= col < widths.len(),
        forall|c: int| 0 <= c < widths.len() ==> text_width(#[trigger] row[c]) <= widths[c],
    ensures
        field_offset(widths, col as nat) + widths[col] <= text_width(
            data_line(row, widths, center),
        ),
        encode_utf8(data_line(row, widths, center)).subrange(
            field_offset(widths, col as nat) as int,
            (field_offset(widths, col as nat) + widths[col]) as int,
        ) == encode_utf8(field(row[col], widths[col], center)),
{
    let parts = fields(row, widths, center);
    let all = closed_parts(parts, VERTICAL@, widths.len());
    let before = closed_parts(parts, VERTICAL@, col as nat);
    let through = closed_parts(parts, VERTICAL@, (col + 1) as nat);
    let cell = field(row[col], widths[col], center);
    lemma_closed_parts_prefix(parts, VERTICAL@, (col + 1) as nat, widths.len());
    let rest = all.skip(through.len() as int);
    assert(all =~= through + rest);
    assert(data_line(row, widths, center) =~= (VERTICAL@ + before) + cell + (VERTICAL@ + rest));
    lemma_encode_concat(VERTICAL@ + before, cell);
    lemma_encode_concat(VERTICAL@ + before + cell, VERTICAL@ + rest);
    lemma_fields_width(row, widths, center, col as nat);
    lemma_width_concat(VERTICAL@, before);
    lemma_field_width(row[col], widths[col], center);
}

/// Every cell of a table can be read back from the text: in the line of its
/// row, the bytes of its column's field are the cell between blanks, and
/// without those blanks they are the cell itself. This holds of the header
/// row as of the others, for a cell that neither begins nor ends with a blank.
pub proof fn law_cell_round_trip(
    grid: Seq<Seq<Seq<char>>>,
    first_row_header: bool,
    header: Header,
    r: int,
    col: int,
)
    requires
        is_rectangular(grid),
        0 <= r < grid.len(),
        0 <= col < column_count(grid),
        unpadded(grid[r][col]),
    ensures
        ({
            let widths = column_widths(grid, header.centered_text);
            let line = table_lines(grid, widths, first_row_header, header)[2 * r + 1];
            let cell = field(
                grid[r][col],
                widths[col],
                row_is_centered(r, first_row_header, header),
            );
            &&& encode_utf8(line).subrange(
                field_offset(widths, col as nat) as int,
                (field_offset(widths, col as nat) + widths[col]) as int,
            ) == encode_utf8(cell)
            &&& trimmed(cell) == grid[r][col]
        }),
{
    let widths = column_widths(grid, header.centered_text);
    let center = row_is_centered(r, first_row_header, header);
    assert forall|c: int| 0 <= c < widths.len() implies text_width(#[trigger] grid[r][c])
        <= widths[c] by {
        lemma_column_fits_cells(grid, c, r, header.centered_text);
    }
    law_field_position(grid[r], widths, center, col);
    law_field_round_trip(grid[r][col], widths[col], center);
}

} // verus!
