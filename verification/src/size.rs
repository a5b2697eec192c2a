//! The length of the text of a table in bytes, known before a byte of it is
//! written.

use crate::glyphs::{NEWLINE, VERTICAL};
use crate::layout::{
    bottom_line, data_line, field, fields, Header, middle_line, row_is_centered, separator_line,
    slack, table_lines, table_text_with, top_line, widths_of,
};
use crate::text::{
    closed_parts, joined_with, lemma_encode_spaces, lemma_width_concat, spaces, text_width,
};
use vstd::prelude::*;
use vstd::string::*;
use vstd::utf8::*;

verus! {

/// Every cell of the grid is at most as wide as its column.
pub open spec fn cells_fit(grid: Seq<Seq<Seq<char>>>, widths: Seq<nat>) -> bool {
    forall|r: int, c: int|
        0 <= r < grid.len() && 0 <= c < widths.len() ==> text_width(#[trigger] grid[r][c])
            <= widths[c]
}

/// The width of the first `n` fields of a row, each with its bar.
pub open spec fn fields_width(widths: Seq<nat>, n: nat) -> nat
    decreases n,
{
    if n == 0 {
        0
    } else {
        fields_width(widths, (n - 1) as nat) + widths[n - 1] + text_width(VERTICAL@)
    }
}

/// The width of the line of a row whose cells fit their columns.
pub open spec fn data_line_width(widths: Seq<nat>) -> nat {
    text_width(VERTICAL@) + fields_width(widths, widths.len())
}

/// The length of a text made of a first border, `rows` rows, the border under
/// the first row where a second row follows, a border under each further row
/// but the last, and a last border. Each of `top`, `first`, `middle` and `data`
/// counts a line with its line break.
pub open spec fn size_of(
    rows: nat,
    top: nat,
    first: nat,
    middle: nat,
    bottom: nat,
    data: nat,
) -> nat {
    top + rows * data + (if rows >= 2 {
        first + ((rows - 2) as nat) * middle
    } else {
        0
    }) + bottom
}

/// The length in bytes of the text of a table with `rows` rows.
pub open spec fn table_size(
    rows: nat,
    widths: Seq<nat>,
    first_row_header: bool,
    header: Header,
) -> nat {
    if widths.len() == 0 {
        0
    } else {
        size_of(
            rows,
            text_width(top_line(widths, first_row_header, header)) + text_width(NEWLINE@),
            text_width(separator_line(widths, 0, first_row_header, header)) + text_width(
                NEWLINE@,
            ),
            text_width(middle_line(widths)) + text_width(NEWLINE@),
            text_width(bottom_line(widths)),
            data_line_width(widths) + text_width(NEWLINE@),
        )
    }
}

/// A field is as wide as its column where the cell fits, and as wide as the
/// cell where it does not.
pub proof fn lemma_field_width(text: Seq<char>, width: nat, center: bool)
    ensures
        text_width(field(text, width, center)) == text_width(text) + slack(text, width),
        text_width(text) <= width ==> text_width(field(text, width, center)) == width,
{
    if center {
        let front = spaces((slack(text, width) / 2) as nat);
        let back = spaces((slack(text, width) - slack(text, width) / 2) as nat);
        lemma_encode_spaces((slack(text, width) / 2) as nat);
        lemma_encode_spaces((slack(text, width) - slack(text, width) / 2) as nat);
        lemma_width_concat(front, text);
        lemma_width_concat(front + text, back);
    } else {
        lemma_encode_spaces(slack(text, width));
        lemma_width_concat(text, spaces(slack(text, width)));
    }
}

/// The fields of a row whose cells fit are as wide as their columns, bars
/// counted.
pub proof fn lemma_fields_width(row: Seq<Seq<char>>, widths: Seq<nat>, center: bool, n: nat)
    requires
        n <= widths.len(),
        forall|c: int| 0 <= c < n ==> text_width(#[trigger] row[c]) <= widths[c],
    ensures
        text_width(closed_parts(fields(row, widths, center), VERTICAL@, n)) == fields_width(
            widths,
            n,
        ),
    decreases n,
{
    if n > 0 {
        let parts = fields(row, widths, center);
        let before = closed_parts(parts, VERTICAL@, (n - 1) as nat);
        lemma_fields_width(row, widths, center, (n - 1) as nat);
        lemma_field_width(row[n - 1], widths[n - 1], center);
        lemma_width_concat(before, parts[n - 1]);
        lemma_width_concat(before + parts[n - 1], VERTICAL@);
    }
}

/// The line of a row whose cells fit has the same width for every such row.
pub proof fn lemma_data_line_width(row: Seq<Seq<char>>, widths: Seq<nat>, center: bool)
    requires
        forall|c: int| 0 <= c < widths.len() ==> text_width(#[trigger] row[c]) <= widths[c],
    ensures
        text_width(data_line(row, widths, center)) == data_line_width(widths),
{
    lemma_fields_width(row, widths, center, widths.len());
    lemma_width_concat(
        VERTICAL@,
        closed_parts(fields(row, widths, center), VERTICAL@, widths.len()),
    );
}

/// The length of the lines of the first `r` rows, with the borders above them.
pub open spec fn rows_size(r: nat, top: nat, first: nat, middle: nat, data: nat) -> nat {
    top + r * data + (if r >= 2 {
        first + ((r - 2) as nat) * middle
    } else {
        0
    })
}

/// The lines of the first `r` rows, each with the border above it and every
/// line closed by a line break, are as long as `rows_size` says.
pub proof fn lemma_rows_size(
    grid: Seq<Seq<Seq<char>>>,
    widths: Seq<nat>,
    first_row_header: bool,
    header: Header,
    r: nat,
)
    requires
        1 <= r <= grid.len(),
        cells_fit(grid, widths),
    ensures
        text_width(
            closed_parts(
                table_lines(grid, widths, first_row_header, header),
                NEWLINE@,
                2 * r,
            ),
        ) == rows_size(
            r,
            text_width(top_line(widths, first_row_header, header)) + text_width(NEWLINE@),
            text_width(separator_line(widths, 0, first_row_header, header)) + text_width(
                NEWLINE@,
            ),
            text_width(middle_line(widths)) + text_width(NEWLINE@),
            data_line_width(widths) + text_width(NEWLINE@),
        ),
    decreases r,
{
    let lines = table_lines(grid, widths, first_row_header, header);
    let nl = text_width(NEWLINE@);
    let middle = text_width(middle_line(widths)) + nl;
    let data = data_line_width(widths) + nl;
    let border = lines[2 * r - 2];
    let row = lines[2 * r - 1];
    let before = closed_parts(lines, NEWLINE@, (2 * r - 2) as nat);
    assert(closed_parts(lines, NEWLINE@, (2 * r - 1) as nat) == before + border + NEWLINE@);
    lemma_width_concat(before, border);
    lemma_width_concat(before + border, NEWLINE@);
    lemma_width_concat(before + border + NEWLINE@, row);
    lemma_width_concat(before + border + NEWLINE@ + row, NEWLINE@);
    assert forall|c: int| 0 <= c < widths.len() implies text_width(#[trigger] grid[r - 1][c])
        <= widths[c] by {}
    lemma_data_line_width(
        grid[r - 1],
        widths,
        row_is_centered(r - 1, first_row_header, header),
    );
    if r == 1 {
        assert(1 * data == data) by (nonlinear_arith);
    } else {
        lemma_rows_size(grid, widths, first_row_header, header, (r - 1) as nat);
        assert(r * data == (r - 1) * data + data) by (nonlinear_arith);
        if r == 2 {
            assert((r - 2) * middle == 0) by (nonlinear_arith)
                requires
                    r == 2,
            ;
        } else {
            assert((r - 2) * middle == (r - 3) * middle + middle) by (nonlinear_arith);
            if r == 3 {
                assert((r - 3) * middle == 0) by (nonlinear_arith)
                    requires
                        r == 3,
                ;
            }
        }
    }
}

/// The text of a table whose cells fit their columns is exactly as long as
/// `table_size` says.
pub proof fn lemma_table_size(
    grid: Seq<Seq<Seq<char>>>,
    widths: Seq<nat>,
    first_row_header: bool,
    header: Header,
)
    requires
        grid.len() >= 1,
        cells_fit(grid, widths),
    ensures
        text_width(table_text_with(grid, widths, first_row_header, header)) == table_size(
            grid.len(),
            widths,
            first_row_header,
            header,
        ),
{
    if widths.len() > 0 {
        let lines = table_lines(grid, widths, first_row_header, header);
        lemma_rows_size(grid, widths, first_row_header, header, grid.len());
        lemma_width_concat(closed_parts(lines, NEWLINE@, 2 * grid.len()), lines.last());
    }
}

/// The first lines of a text, each closed by a line break, are no longer
/// than the whole text.
pub proof fn lemma_closed_within_joined(lines: Seq<Seq<char>>, sep: Seq<char>, n: nat)
    requires
        n < lines.len(),
    ensures
        text_width(closed_parts(lines, sep, n)) <= text_width(joined_with(lines, sep)),
    decreases lines.len() - n,
{
    if n + 1 < lines.len() {
        lemma_closed_within_joined(lines, sep, n + 1);
        let before = closed_parts(lines, sep, n);
        lemma_width_concat(before, lines[n as int]);
        lemma_width_concat(before + lines[n as int], sep);
    } else {
        lemma_width_concat(closed_parts(lines, sep, n), lines.last());
    }
}

/// The length of the line of a row, line break counted, or `None` where it is
/// more than a `usize` can hold.
pub fn data_line_size(column_widths: &Vec<usize>) -> (size: Option<usize>)
    ensures
        size is Some <==> data_line_width(widths_of(column_widths@)) + text_width(NEWLINE@)
            <= usize::MAX,
        size matches Some(n) ==> n == data_line_width(widths_of(column_widths@)) + text_width(
            NEWLINE@,
        ),
{
    let ghost widths = widths_of(column_widths@);
    let bar: usize = VERTICAL.as_bytes().len();
    let mut total: usize = bar;
    let mut c: usize = 0;
    while c < column_widths.len()
        invariant
            c <= column_widths@.len(),
            widths == widths_of(column_widths@),
            bar == text_width(VERTICAL@),
            total == bar + fields_width(widths, c as nat),
        decreases column_widths@.len() - c,
    {
        proof {
            lemma_fields_width_grows(widths, (c + 1) as nat, widths.len());
        }
        let with_field = match total.checked_add(column_widths[c]) {
            Some(n) => n,
            None => {
                return None;
            },
        };
        total = match with_field.checked_add(bar) {
            Some(n) => n,
            None => {
                return None;
            },
        };
        c = c + 1;
    }
    total.checked_add(NEWLINE.as_bytes().len())
}

/// The more fields, the wider.
pub proof fn lemma_fields_width_grows(widths: Seq<nat>, m: nat, n: nat)
    requires
        m <= n,
    ensures
        fields_width(widths, m) <= fields_width(widths, n),
    decreases n,
{
    if m < n {
        lemma_fields_width_grows(widths, m, (n - 1) as nat);
    }
}

/// The length of a text of `rows` rows from the lengths of its lines, or
/// `None` where it is more than a `usize` can hold.
pub fn checked_size(
    rows: usize,
    top: usize,
    first: usize,
    middle: usize,
    bottom: usize,
    data: usize,
) -> (size: Option<usize>)
    ensures
        size is Some <==> size_of(
            rows as nat,
            top as nat,
            first as nat,
            middle as nat,
            bottom as nat,
            data as nat,
        ) <= usize::MAX,
        size matches Some(n) ==> n == size_of(
            rows as nat,
            top as nat,
            first as nat,
            middle as nat,
            bottom as nat,
            data as nat,
        ),
{
    let body = match rows.checked_mul(data) {
        Some(n) => n,
        None => {
            return None;
        },
    };
    let borders: usize = if rows >= 2 {
        assert((rows - 2) * middle >= 0) by (nonlinear_arith)
            requires
                rows >= 2,
        ;
        let further = match (rows - 2).checked_mul(middle) {
            Some(n) => n,
            None => {
                return None;
            },
        };
        match first.checked_add(further) {
            Some(n) => n,
            None => {
                return None;
            },
        }
    } else {
        0
    };
    let framed = match top.checked_add(body) {
        Some(n) => n,
        None => {
            return None;
        },
    };
    let inner = match framed.checked_add(borders) {
        Some(n) => n,
        None => {
            return None;
        },
    };
    inner.checked_add(bottom)
}

} // verus!
