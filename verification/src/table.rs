//! Rendering: the borders are built once, the text is composed in a buffer
//! that is filled with blanks in advance, and each cell is written at the
//! start of its field.

use crate::error::TableError;
use crate::glyphs::{
    BOTTOM_BRACE, BOTTOM_LEFT_CORNER, BOTTOM_RIGHT_CORNER, HORIZONTAL, HORIZONTAL_HEADER,
    LEFT_BRACE, LEFT_BRACE_HEADER, MIDDLE_BRACE, MIDDLE_BRACE_HEADER, NEWLINE, RIGHT_BRACE,
    RIGHT_BRACE_HEADER, TOP_BRACE, TOP_BRACE_HEADER, TOP_LEFT_CORNER, TOP_LEFT_CORNER_HEADER,
    TOP_RIGHT_CORNER, TOP_RIGHT_CORNER_HEADER, VERTICAL,
};
use crate::layout::{
    border_line, data_line, field, fields, fills, grid_of, Header, joined, leading, middle_line,
    row_of, separator_line, slack, table_lines, table_text, top_line, trailing, widths_of,
};
use crate::size::{
    cells_fit, checked_size, data_line_size, data_line_width, fields_width,
    lemma_closed_within_joined, lemma_table_size, table_size,
};
use crate::text::{
    blank_bytes, closed_parts, encoded, joined_with, lemma_encode_concat, lemma_encode_injective,
    larger, lemma_encode_joined, lemma_encode_repeated, lemma_encode_spaces, lemma_width_concat,
    repeated, spaces, text_width,
};
use crate::util::StringBuffer;
use crate::widths::{
    column_count, column_width, column_widths, first_jagged, get_column_widths, is_rectangular,
    is_widths_result, lemma_column_fits_cells,
};
use vstd::prelude::*;
use vstd::string::*;
use vstd::utf8::*;

verus! {

/// The bytes of each of `segments`.
pub open spec fn segments_of(segments: &Vec<Vec<u8>>) -> Seq<Seq<u8>> {
    Seq::new(segments@.len(), |c: int| segments@[c]@)
}

/// The bytes of a border: its left end, the segments with `middle` between
/// each two, its right end, and a line break where one is asked for.
pub open spec fn sep_row_bytes(
    segments: Seq<Seq<u8>>,
    left: Seq<char>,
    middle: Seq<char>,
    right: Seq<char>,
    newline: bool,
) -> Seq<u8> {
    let end = if newline {
        encode_utf8(NEWLINE@)
    } else {
        Seq::empty()
    };
    encode_utf8(left) + joined_with(segments, encode_utf8(middle)) + encode_utf8(right) + end
}

/// Creates a list of byte vectors corresponding to each string of horizontal
/// separators: for each column, `horizontal_char` as many times as the column
/// is wide.
pub fn generate_horizontal_separators(column_widths: &Vec<usize>, horizontal_char: &str) -> (seps:
    Vec<Vec<u8>>)
    ensures
        segments_of(&seps) == encoded(fills(widths_of(column_widths@), horizontal_char@)),
{
    let unit = horizontal_char.as_bytes();
    let ghost widths = widths_of(column_widths@);
    let mut seps: Vec<Vec<u8>> = Vec::with_capacity(column_widths.len());
    let mut c: usize = 0;
    while c < column_widths.len()
        invariant
            c <= column_widths.len(),
            widths == widths_of(column_widths@),
            unit@ == encode_utf8(horizontal_char@),
            seps@.len() == c,
            forall|k: int|
                0 <= k < c ==> (#[trigger] seps@[k])@ == repeated(unit@, column_widths@[k] as nat),
        decreases column_widths.len() - c,
    {
        let length: usize = column_widths[c];
        let mut segment: Vec<u8> = Vec::new();
        let mut i: usize = 0;
        while i < length
            invariant
                i <= length,
                segment@ == repeated(unit@, i as nat),
            decreases length - i,
        {
            let ghost before = segment@;
            let mut j: usize = 0;
            while j < unit.len()
                invariant
                    j <= unit.len(),
                    segment@ == before + unit@.take(j as int),
                decreases unit.len() - j,
            {
                segment.push(unit[j]);
                j = j + 1;
            }
            i = i + 1;
        }
        seps.push(segment);
        c = c + 1;
    }
    proof {
        let target = encoded(fills(widths, horizontal_char@));
        assert forall|k: int| 0 <= k < target.len() implies segments_of(&seps)[k]
            == #[trigger] target[k] by {
            lemma_encode_repeated(horizontal_char@, widths[k]);
        }
    }
    seps
}

/// Composes one border from the segments of its columns: the left end, the
/// segments with the middle piece between each two, the right end, and a line
/// break where `newline` is set.
pub fn create_sep_row(
    horizontal_separators: &Vec<Vec<u8>>,
    left_char: &str,
    middle_char: &str,
    right_char: &str,
    newline: bool,
) -> (row: Vec<u8>)
    requires
        horizontal_separators@.len() > 0,
    ensures
        row@ == sep_row_bytes(
            segments_of(horizontal_separators),
            left_char@,
            middle_char@,
            right_char@,
            newline,
        ),
{
    let ghost segments = segments_of(horizontal_separators);
    let ghost middle = encode_utf8(middle_char@);
    let mut sep_buffer = StringBuffer::with_capacity(0);
    sep_buffer.push_chars(left_char);
    let last: usize = horizontal_separators.len() - 1;
    let mut i: usize = 0;
    while i < last
        invariant
            i <= last,
            last == horizontal_separators@.len() - 1,
            segments == segments_of(horizontal_separators),
            middle == encode_utf8(middle_char@),
            sep_buffer.wf(),
            sep_buffer.blank_ahead(),
            sep_buffer.written() == encode_utf8(left_char@) + closed_parts(
                segments,
                middle,
                i as nat,
            ),
        decreases last - i,
    {
        sep_buffer.push_bytes(horizontal_separators[i].as_slice());
        sep_buffer.push_chars(middle_char);
        i = i + 1;
    }
    sep_buffer.push_bytes(horizontal_separators[last].as_slice());
    sep_buffer.push_chars(right_char);
    if newline {
        sep_buffer.push_chars(NEWLINE);
    }
    sep_buffer.into_buffer()
}

/// A border composed from the encoded fills of the columns is the encoding of
/// that border's line.
pub proof fn lemma_sep_row_is_border(
    widths: Seq<nat>,
    left: Seq<char>,
    middle: Seq<char>,
    right: Seq<char>,
    fill: Seq<char>,
)
    ensures
        sep_row_bytes(encoded(fills(widths, fill)), left, middle, right, false) == encode_utf8(
            border_line(widths, left, middle, right, fill),
        ),
        sep_row_bytes(encoded(fills(widths, fill)), left, middle, right, true) == encode_utf8(
            border_line(widths, left, middle, right, fill) + NEWLINE@,
        ),
{
    let body = joined_with(fills(widths, fill), middle);
    lemma_encode_joined(fills(widths, fill), middle);
    lemma_encode_concat(left, body);
    lemma_encode_concat(left + body, right);
    lemma_encode_concat(left + body + right, NEWLINE@);
}

/// The encoding of a field: the blanks in front of the text, the text, and the
/// blanks behind it.
pub proof fn lemma_encode_field(text: Seq<char>, width: nat, center: bool)
    ensures
        center ==> encode_utf8(field(text, width, center)) == blank_bytes(leading(text, width))
            + encode_utf8(text) + blank_bytes(trailing(text, width)),
        !center ==> encode_utf8(field(text, width, center)) == encode_utf8(text) + blank_bytes(
            slack(text, width),
        ),
{
    if center {
        let front = spaces(leading(text, width));
        let back = spaces(trailing(text, width));
        lemma_encode_spaces(leading(text, width));
        lemma_encode_spaces(trailing(text, width));
        lemma_encode_concat(front, text);
        lemma_encode_concat(front + text, back);
    } else {
        lemma_encode_spaces(slack(text, width));
        lemma_encode_concat(text, spaces(slack(text, width)));
    }
}

/// Writes one cell into its field: at the start of the field, or in its middle
/// where `center` is set. The blanks of the field are those that the buffer
/// holds already.
pub fn push_field(buffer: &mut StringBuffer, text: &str, width: usize, center: bool)
    requires
        old(buffer).wf(),
        old(buffer).blank_ahead(),
    ensures
        final(buffer).wf(),
        final(buffer).blank_ahead(),
        final(buffer).written() == old(buffer).written() + encode_utf8(
            field(text@, width as nat, center),
        ),
        final(buffer).bytes().len() == larger(old(buffer).bytes().len(), final(buffer).cursor()),
{
    proof {
        lemma_encode_field(text@, width as nat, center);
    }
    if center {
        let nothing: Vec<u8> = Vec::new();
        let length: usize = text.as_bytes().len();
        let lead: usize = if width >= length {
            (width - length) / 2
        } else {
            0
        };
        buffer.push_bytes_fixed_width(nothing.as_slice(), lead);
        buffer.push_chars_fixed_width(text, width - lead);
    } else {
        buffer.push_chars_fixed_width(text, width);
    }
}

/// Writes one row of cells: a bar, then each cell in its field with a bar
/// behind it, then a line break.
///
/// A cell that is wider than its column takes the room that it needs, so that
/// no cell is ever cut short or written over.
pub fn push_data_row(
    buffer: &mut StringBuffer,
    row: &Vec<String>,
    column_widths: &Vec<usize>,
    center: bool,
)
    requires
        old(buffer).wf(),
        old(buffer).blank_ahead(),
        row@.len() == column_widths@.len(),
    ensures
        final(buffer).wf(),
        final(buffer).blank_ahead(),
        final(buffer).written() == old(buffer).written() + encode_utf8(
            data_line(row_of(row), widths_of(column_widths@), center) + NEWLINE@,
        ),
        final(buffer).bytes().len() == larger(old(buffer).bytes().len(), final(buffer).cursor()),
{
    let ghost start = buffer.written();
    let ghost room = buffer.bytes().len();
    let ghost cells = row_of(row);
    let ghost widths = widths_of(column_widths@);
    let ghost parts = fields(cells, widths, center);
    buffer.push_chars(VERTICAL);
    let mut col_index: usize = 0;
    while col_index < row.len()
        invariant
            col_index <= row@.len(),
            row@.len() == column_widths@.len(),
            cells == row_of(row),
            widths == widths_of(column_widths@),
            parts == fields(cells, widths, center),
            buffer.wf(),
            buffer.blank_ahead(),
            buffer.written() == start + encode_utf8(
                VERTICAL@ + closed_parts(parts, VERTICAL@, col_index as nat),
            ),
            buffer.bytes().len() == larger(room, buffer.cursor()),
        decreases row@.len() - col_index,
    {
        let ghost done = VERTICAL@ + closed_parts(parts, VERTICAL@, col_index as nat);
        let ghost cell = field(cells[col_index as int], widths[col_index as int], center);
        push_field(buffer, row[col_index].as_str(), column_widths[col_index], center);
        buffer.push_chars(VERTICAL);
        col_index = col_index + 1;
        proof {
            lemma_encode_concat(done, cell);
            lemma_encode_concat(done + cell, VERTICAL@);
            assert(VERTICAL@ + closed_parts(parts, VERTICAL@, col_index as nat) =~= done + cell
                + VERTICAL@);
        }
    }
    buffer.push_chars(NEWLINE);
    proof {
        lemma_encode_concat(data_line(cells, widths, center), NEWLINE@);
    }
}

/// One border composed from the segments of its columns, which are the fills
/// for `widths`; with a line break behind it where `newline` is set.
fn border(
    separators: &Vec<Vec<u8>>,
    left_char: &str,
    middle_char: &str,
    right_char: &str,
    newline: bool,
    Ghost(widths): Ghost<Seq<nat>>,
    Ghost(fill): Ghost<Seq<char>>,
) -> (row: Vec<u8>)
    requires
        widths.len() > 0,
        segments_of(separators) == encoded(fills(widths, fill)),
    ensures
        row@ == encode_utf8(
            border_line(widths, left_char@, middle_char@, right_char@, fill) + (if newline {
                NEWLINE@
            } else {
                Seq::empty()
            }),
        ),
{
    proof {
        lemma_sep_row_is_border(widths, left_char@, middle_char@, right_char@, fill);
    }
    create_sep_row(separators, left_char, middle_char, right_char, newline)
}

/// One more line, closed by a line break, behind the first `n` lines.
pub proof fn lemma_closed_step(lines: Seq<Seq<char>>, n: nat)
    ensures
        encode_utf8(closed_parts(lines, NEWLINE@, n + 1)) == encode_utf8(
            closed_parts(lines, NEWLINE@, n),
        ) + encode_utf8(lines[n as int] + NEWLINE@),
{
    let before = closed_parts(lines, NEWLINE@, n);
    assert(before + lines[n as int] + NEWLINE@ =~= before + (lines[n as int] + NEWLINE@));
    lemma_encode_concat(before, lines[n as int] + NEWLINE@);
}

/// The last line behind all the others, with no line break behind it.
pub proof fn lemma_joined_last(lines: Seq<Seq<char>>)
    requires
        lines.len() > 0,
    ensures
        encode_utf8(joined(lines)) == encode_utf8(
            closed_parts(lines, NEWLINE@, (lines.len() - 1) as nat),
        ) + encode_utf8(lines.last()),
{
    lemma_encode_concat(closed_parts(lines, NEWLINE@, (lines.len() - 1) as nat), lines.last());
}

/// A table is at least as long as any of its columns is wide.
pub proof fn lemma_size_covers_width(
    rows: nat,
    widths: Seq<nat>,
    first_row_header: bool,
    header: Header,
    col: int,
)
    requires
        rows >= 1,
        0 <= col < widths.len(),
    ensures
        widths[col] <= table_size(rows, widths, first_row_header, header),
{
    lemma_fields_width_covers(widths, widths.len(), col);
    let data = data_line_width(widths) + text_width(NEWLINE@);
    assert(rows * data >= data) by (nonlinear_arith)
        requires
            rows >= 1,
            data >= 0,
    ;
}

/// The fields of a row are together at least as wide as any one column.
pub proof fn lemma_fields_width_covers(widths: Seq<nat>, n: nat, col: int)
    requires
        0 <= col < n,
    ensures
        widths[col] <= fields_width(widths, n),
    decreases n,
{
    if col < n - 1 {
        lemma_fields_width_covers(widths, (n - 1) as nat, col);
    }
}

/// The computed widths leave room for every cell.
pub proof fn lemma_computed_widths_fit(grid: Seq<Seq<Seq<char>>>, center_headers: bool)
    ensures
        cells_fit(grid, column_widths(grid, center_headers)),
{
    let widths = column_widths(grid, center_headers);
    assert forall|r: int, c: int| 0 <= r < grid.len() && 0 <= c < widths.len() implies text_width(
        #[trigger] grid[r][c],
    ) <= widths[c] by {
        lemma_column_fits_cells(grid, c, r, center_headers);
    }
}

/// `result` is what rendering `grid` gives: the text of the table, or the
/// reason for which there is none.
pub open spec fn is_rendering(
    grid: Seq<Seq<Seq<char>>>,
    first_row_header: bool,
    header: Header,
    result: Result<String, TableError>,
) -> bool {
    match result {
        Ok(text) => {
            &&& is_rectangular(grid)
            &&& text_width(table_text(grid, first_row_header, header)) <= usize::MAX
            &&& text@ == table_text(grid, first_row_header, header)
        },
        Err(TableError::JaggedRow { row, expected, found }) => {
            &&& first_jagged(grid, row as int)
            &&& expected == grid[0].len()
            &&& found == grid[row as int].len()
        },
        Err(TableError::TooLarge) => {
            &&& is_rectangular(grid)
            &&& text_width(table_text(grid, first_row_header, header)) > usize::MAX
        },
    }
}

/// Renders `rows` as a table.
///
/// The first row is set apart as `header` says where `first_row_header` is
/// set. A grid without rows or without columns gives the empty text. A grid
/// whose rows differ in length is refused, and so is one whose text would be
/// longer than a `usize` can hold.
pub fn render(rows: &Vec<Vec<String>>, first_row_header: bool, header: Header) -> (result: Result<
    String,
    TableError,
>)
    ensures
        is_rendering(grid_of(rows), first_row_header, header, result),
{
    let ghost grid = grid_of(rows);
    let ghost widths = column_widths(grid, header.centered_text);
    let ghost lines = table_lines(grid, widths, first_row_header, header);
    proof {
        lemma_computed_widths_fit(grid, header.centered_text);
    }
    let column_widths = match get_column_widths(rows, header.centered_text) {
        Ok(w) => w,
        Err(TableError::JaggedRow { row, expected, found }) => {
            return Err(TableError::JaggedRow { row, expected, found });
        },
        Err(TableError::TooLarge) => {
            proof {
                let c = choose|c: int|
                    0 <= c < column_count(grid) && column_width(grid, c, header.centered_text)
                        > usize::MAX;
                lemma_table_size(grid, widths, first_row_header, header);
                lemma_size_covers_width(grid.len(), widths, first_row_header, header, c);
            }
            return Err(TableError::TooLarge);
        },
    };
    if column_widths.len() == 0 {
        let text = String::new();
        return Ok(text);
    }
    let standard_horizontal_separators = generate_horizontal_separators(
        &column_widths,
        HORIZONTAL,
    );
    let header_horizontal_separators = generate_horizontal_separators(
        &column_widths,
        HORIZONTAL_HEADER,
    );
    let standard = &standard_horizontal_separators;
    let framing = &header_horizontal_separators;
    let ghost light = HORIZONTAL@;
    let ghost heavy = HORIZONTAL_HEADER@;
    let double: bool = first_row_header && header.double_bar;
    let top = if double {
        border(
            framing,
            TOP_LEFT_CORNER_HEADER,
            TOP_BRACE_HEADER,
            TOP_RIGHT_CORNER_HEADER,
            true,
            Ghost(widths),
            Ghost(heavy),
        )
    } else {
        border(
            standard,
            TOP_LEFT_CORNER,
            TOP_BRACE,
            TOP_RIGHT_CORNER,
            true,
            Ghost(widths),
            Ghost(light),
        )
    };
    let header_bottom = if double {
        border(
            framing,
            LEFT_BRACE_HEADER,
            MIDDLE_BRACE_HEADER,
            RIGHT_BRACE_HEADER,
            true,
            Ghost(widths),
            Ghost(heavy),
        )
    } else {
        border(standard, LEFT_BRACE, MIDDLE_BRACE, RIGHT_BRACE, true, Ghost(widths), Ghost(light))
    };
    let standard_separator = border(
        standard,
        LEFT_BRACE,
        MIDDLE_BRACE,
        RIGHT_BRACE,
        true,
        Ghost(widths),
        Ghost(light),
    );
    let footer = border(
        standard,
        BOTTOM_LEFT_CORNER,
        BOTTOM_BRACE,
        BOTTOM_RIGHT_CORNER,
        false,
        Ghost(widths),
        Ghost(light),
    );
    proof {
        lemma_width_concat(top_line(widths, first_row_header, header), NEWLINE@);
        lemma_width_concat(separator_line(widths, 0, first_row_header, header), NEWLINE@);
        lemma_width_concat(middle_line(widths), NEWLINE@);
        lemma_table_size(grid, widths, first_row_header, header);
    }
    let string_length = match data_line_size(&column_widths) {
        Some(data) => checked_size(
            rows.len(),
            top.len(),
            header_bottom.len(),
            standard_separator.len(),
            footer.len(),
            data,
        ),
        None => {
            proof {
                let data = data_line_width(widths) + text_width(NEWLINE@);
                assert(grid.len() * data >= data) by (nonlinear_arith)
                    requires
                        grid.len() >= 1,
                        data >= 0,
                ;
            }
            None
        },
    };
    let string_length = match string_length {
        Some(n) => n,
        None => {
            return Err(TableError::TooLarge);
        },
    };
    // fill the buffer with blanks: a cell is written at the start of its
    // field, and what is left of the field stays as it is
    let mut buffer = StringBuffer::with_capacity_fill(string_length, ' ');
    buffer.push_bytes(top.as_slice());
    proof {
        lemma_closed_step(lines, 0);
        lemma_closed_within_joined(lines, NEWLINE@, 1);
    }
    let mut r: usize = 0;
    while r < rows.len()
        invariant
            r <= rows@.len(),
            rows@.len() >= 1,
            grid == grid_of(rows),
            is_rectangular(grid),
            widths == widths_of(column_widths@),
            widths.len() == grid[0].len(),
            lines == table_lines(grid, widths, first_row_header, header),
            header_bottom@ == encode_utf8(
                separator_line(widths, 0, first_row_header, header) + NEWLINE@,
            ),
            standard_separator@ == encode_utf8(middle_line(widths) + NEWLINE@),
            string_length == text_width(joined(lines)),
            buffer.bytes().len() == string_length,
            buffer.wf(),
            buffer.blank_ahead(),
            buffer.written() == encode_utf8(
                closed_parts(
                    lines,
                    NEWLINE@,
                    if r < rows@.len() {
                        (2 * r + 1) as nat
                    } else {
                        (2 * r) as nat
                    },
                ),
            ),
        decreases rows@.len() - r,
    {
        let center: bool = r == 0 && first_row_header && header.centered_text;
        assert(row_of(&rows@[r as int]) == grid[r as int]);
        push_data_row(&mut buffer, &rows[r], &column_widths, center);
        proof {
            lemma_closed_step(lines, (2 * r + 1) as nat);
            lemma_closed_within_joined(lines, NEWLINE@, (2 * r + 2) as nat);
        }
        // only put a separator if there are rows under this one
        if r + 1 < rows.len() {
            if r == 0 {
                buffer.push_bytes(header_bottom.as_slice());
            } else {
                buffer.push_bytes(standard_separator.as_slice());
            }
            proof {
                lemma_closed_step(lines, (2 * r + 2) as nat);
                lemma_closed_within_joined(lines, NEWLINE@, (2 * r + 3) as nat);
            }
        }
        r = r + 1;
    }
    buffer.push_bytes(footer.as_slice());
    proof {
        lemma_joined_last(lines);
        encode_utf8_valid_utf8(joined(lines));
    }
    // the text fills the buffer to its last byte, and never went beyond it
    assert(buffer.cursor() == string_length && buffer.bytes().len() == string_length);
    // what was written is the encoding of a text, so there is a string
    let text = buffer.to_string().unwrap();
    proof {
        lemma_encode_injective(text@, joined(lines));
    }
    Ok(text)
}

/// Given a 2D vector of strings, returns a string representing the data in a
/// table. With `first_row_header` the first row is framed with double bars,
/// with `center_headers` the columns leave room for centered headers, and the
/// cells of a first row that is a header are centered.
pub fn table_to_string(
    input: Vec<Vec<String>>,
    first_row_header: bool,
    center_headers: bool,
) -> (result: Result<String, TableError>)
    ensures
        is_rendering(
            grid_of(&input),
            first_row_header,
            (Header { double_bar: true, centered_text: center_headers }),
            result,
        ),
{
    render(&input, first_row_header, Header { double_bar: true, centered_text: center_headers })
}

/// A grid of cells and the settings of its header. The first row of a table
/// is its header.
pub struct Table<'a> {
    /// How the first row is set apart
    header: Header,
    /// Rows holding the data
    rows: &'a Vec<Vec<String>>,
}

impl<'a> Table<'a> {
    /// The settings of the header.
    pub closed spec fn header(&self) -> Header {
        self.header
    }

    /// The cells of the table.
    pub closed spec fn grid(&self) -> Seq<Seq<Seq<char>>> {
        grid_of(self.rows)
    }

    /// A table of `rows` with the header settings `header`.
    pub fn new(header: Header, rows: &'a Vec<Vec<String>>) -> (table: Table<'a>)
        ensures
            table.header() == header,
            table.grid() == grid_of(rows),
    {
        Table { header, rows }
    }

    /// Creates a list of byte vectors corresponding to each string of
    /// horizontal separators.
    pub fn generate_horizontal_separators(
        column_widths: &Vec<usize>,
        horizontal_char: &str,
    ) -> (seps: Vec<Vec<u8>>)
        ensures
            segments_of(&seps) == encoded(fills(widths_of(column_widths@), horizontal_char@)),
    {
        generate_horizontal_separators(column_widths, horizontal_char)
    }

    /// Returns the minimum width of each column in a vector.
    pub fn get_column_widths(&self) -> (result: Result<Vec<usize>, TableError>)
        ensures
            is_widths_result(self.grid(), self.header().centered_text, result),
    {
        get_column_widths(self.rows, self.header.centered_text)
    }

    /// The text of the table, its first row set apart as the header.
    pub fn render(&self) -> (result: Result<String, TableError>)
        ensures
            is_rendering(self.grid(), true, self.header(), result),
    {
        render(self.rows, true, self.header)
    }
}

} // verus!
