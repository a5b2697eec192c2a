//! The width of each column: wide enough for every cell, and for a centered
//! header with the same number of blanks on either side.

use crate::error::TableError;
use crate::layout::{grid_of, widths_of};
use crate::text::{larger, text_width};
use vstd::prelude::*;
use vstd::string::*;

verus! {

/// Every row has as many cells as the first.
pub open spec fn is_rectangular(grid: Seq<Seq<Seq<char>>>) -> bool {
    forall|r: int| 0 <= r < grid.len() ==> (#[trigger] grid[r]).len() == grid[0].len()
}

/// Row `r` is the first that does not have as many cells as the first row.
pub open spec fn first_jagged(grid: Seq<Seq<Seq<char>>>, r: int) -> bool {
    &&& 0 < r < grid.len()
    &&& grid[r].len() != grid[0].len()
    &&& forall|q: int| 0 <= q < r ==> (#[trigger] grid[q]).len() == grid[0].len()
}

/// The number of columns: the number of cells of the first row.
pub open spec fn column_count(grid: Seq<Seq<Seq<char>>>) -> nat {
    if grid.len() == 0 {
        0
    } else {
        grid[0].len()
    }
}

/// What a header cell is given beyond its text before the rows are compared.
pub open spec fn header_padding(center_headers: bool) -> nat {
    if center_headers {
        2
    } else {
        0
    }
}

/// The width that column `col` needs for the first `rows` rows: that of the
/// padded header cell, or that of the widest cell below it if that is more.
pub open spec fn folded_width(
    grid: Seq<Seq<Seq<char>>>,
    col: int,
    rows: nat,
    center_headers: bool,
) -> nat
    decreases rows,
{
    if rows <= 1 {
        text_width(grid[0][col]) + header_padding(center_headers)
    } else {
        larger(
            folded_width(grid, col, (rows - 1) as nat, center_headers),
            text_width(grid[rows - 1][col]),
        )
    }
}

/// `width`, made larger where a header of `header_width` would otherwise fill
/// it or leave an odd number of blanks.
pub open spec fn centered_width(width: nat, header_width: nat) -> nat {
    if width == header_width {
        width + 2
    } else if (width - header_width) % 2 == 1 {
        width + 1
    } else {
        width
    }
}

/// The width of column `col`.
pub open spec fn column_width(grid: Seq<Seq<Seq<char>>>, col: int, center_headers: bool) -> nat {
    let folded = folded_width(grid, col, grid.len(), center_headers);
    if center_headers {
        centered_width(folded, text_width(grid[0][col]))
    } else {
        folded
    }
}

/// The width of each column, none for a grid without rows.
pub open spec fn column_widths(grid: Seq<Seq<Seq<char>>>, center_headers: bool) -> Seq<nat> {
    Seq::new(column_count(grid), |col: int| column_width(grid, col, center_headers))
}

/// A column is at least as wide as its padded header, and as each of its cells
/// among the rows that were folded.
pub proof fn lemma_folded_width_bounds(
    grid: Seq<Seq<Seq<char>>>,
    col: int,
    rows: nat,
    center_headers: bool,
)
    ensures
        folded_width(grid, col, rows, center_headers) >= text_width(grid[0][col])
            + header_padding(center_headers),
        forall|r: int|
            1 <= r < rows ==> folded_width(grid, col, rows, center_headers) >= text_width(
                #[trigger] grid[r][col],
            ),
    decreases rows,
{
    if rows > 1 {
        lemma_folded_width_bounds(grid, col, (rows - 1) as nat, center_headers);
    }
}

/// A column is wide enough for each of its cells.
pub proof fn lemma_column_fits_cells(
    grid: Seq<Seq<Seq<char>>>,
    col: int,
    row: int,
    center_headers: bool,
)
    requires
        0 <= row < grid.len(),
    ensures
        text_width(grid[row][col]) <= column_width(grid, col, center_headers),
        folded_width(grid, col, grid.len(), center_headers) <= column_width(
            grid,
            col,
            center_headers,
        ),
{
    lemma_folded_width_bounds(grid, col, grid.len(), center_headers);
}

/// The width of a cell in bytes.
pub fn cell_width(cell: &String) -> (width: usize)
    ensures
        width == text_width(cell@),
{
    cell.as_str().as_bytes().len()
}

/// The first row that does not have as many cells as the first row, if there
/// is one.
pub fn find_jagged_row(input: &Vec<Vec<String>>) -> (found: Option<usize>)
    ensures
        found is None <==> is_rectangular(grid_of(input)),
        found matches Some(r) ==> first_jagged(grid_of(input), r as int),
{
    let ghost grid = grid_of(input);
    if input.len() == 0 {
        return None;
    }
    let columns: usize = input[0].len();
    let mut r: usize = 1;
    while r < input.len()
        invariant
            1 <= r <= input.len(),
            grid == grid_of(input),
            columns == grid[0].len(),
            forall|q: int| 0 <= q < r ==> (#[trigger] grid[q]).len() == grid[0].len(),
        decreases input.len() - r,
    {
        if input[r].len() != columns {
            assert(grid[r as int].len() != grid[0].len());
            return Some(r);
        }
        r = r + 1;
    }
    None
}

/// Makes `width` larger where a header of `header_width` would otherwise fill
/// the column or leave an odd number of blanks: by 2 where the two are equal,
/// by 1 where they differ by an odd number. `None` where the result is more
/// than a `usize` can hold.
pub fn center_adjust(width: usize, header_width: usize) -> (adjusted: Option<usize>)
    ensures
        adjusted is Some <==> centered_width(width as nat, header_width as nat) <= usize::MAX,
        adjusted matches Some(w) ==> w == centered_width(width as nat, header_width as nat),
{
    if width == header_width {
        width.checked_add(2)
    } else {
        let odd: bool = if width > header_width {
            (width - header_width) % 2 == 1
        } else {
            (header_width - width) % 2 == 1
        };
        if odd {
            width.checked_add(1)
        } else {
            Some(width)
        }
    }
}

/// The widths that the columns need for their cells, the header cells taken
/// with their padding. `None` where one of them is more than a `usize` can
/// hold.
pub fn fold_widths(input: &Vec<Vec<String>>, center_headers: bool) -> (folded: Option<
    Vec<usize>,
>)
    requires
        is_rectangular(grid_of(input)),
        input@.len() > 0,
    ensures
        folded matches Some(w) ==> w@.len() == column_count(grid_of(input)) && forall|c: int|
            0 <= c < w@.len() ==> (#[trigger] w@[c]) == folded_width(
                grid_of(input),
                c,
                input@.len(),
                center_headers,
            ),
        folded is None ==> exists|c: int|
            0 <= c < column_count(grid_of(input)) && folded_width(
                grid_of(input),
                c,
                input@.len(),
                center_headers,
            ) > usize::MAX,
{
    let ghost grid = grid_of(input);
    let columns: usize = input[0].len();
    let padding: usize = if center_headers {
        2
    } else {
        0
    };
    let mut widths: Vec<usize> = Vec::with_capacity(columns);
    let mut c: usize = 0;
    while c < columns
        invariant
            c <= columns,
            grid == grid_of(input),
            input@.len() > 0,
            columns == grid[0].len(),
            padding == header_padding(center_headers),
            widths@.len() == c,
            forall|k: int|
                0 <= k < c ==> (#[trigger] widths@[k]) == folded_width(
                    grid,
                    k,
                    1,
                    center_headers,
                ),
        decreases columns - c,
    {
        let raw = cell_width(&input[0][c]);
        match raw.checked_add(padding) {
            Some(w) => {
                widths.push(w);
            },
            None => {
                proof {
                    lemma_folded_width_bounds(grid, c as int, input@.len(), center_headers);
                }
                return None;
            },
        }
        c = c + 1;
    }
    let mut r: usize = 1;
    while r < input.len()
        invariant
            1 <= r <= input.len(),
            grid == grid_of(input),
            is_rectangular(grid),
            columns == grid[0].len(),
            widths@.len() == columns,
            forall|k: int|
                0 <= k < columns ==> (#[trigger] widths@[k]) == folded_width(
                    grid,
                    k,
                    r as nat,
                    center_headers,
                ),
        decreases input.len() - r,
    {
        let mut c: usize = 0;
        while c < columns
            invariant
                c <= columns,
                1 <= r < input.len(),
                grid == grid_of(input),
                columns == grid[0].len(),
                grid[r as int].len() == columns,
                widths@.len() == columns,
                forall|k: int|
                    0 <= k < c ==> (#[trigger] widths@[k]) == folded_width(
                        grid,
                        k,
                        (r + 1) as nat,
                        center_headers,
                    ),
                forall|k: int|
                    c <= k < columns ==> (#[trigger] widths@[k]) == folded_width(
                        grid,
                        k,
                        r as nat,
                        center_headers,
                    ),
            decreases columns - c,
        {
            let cell = cell_width(&input[r][c]);
            if cell > widths[c] {
                widths.set(c, cell);
            }
            c = c + 1;
        }
        r = r + 1;
    }
    Some(widths)
}

/// `result` is what computing the widths of `grid` gives: the width of each
/// column, or the reason for which there is none.
pub open spec fn is_widths_result(
    grid: Seq<Seq<Seq<char>>>,
    center_headers: bool,
    result: Result<Vec<usize>, TableError>,
) -> bool {
    match result {
        Ok(w) => is_rectangular(grid) && widths_of(w@) == column_widths(grid, center_headers),
        Err(TableError::JaggedRow { row, expected, found }) => {
            &&& first_jagged(grid, row as int)
            &&& expected == grid[0].len()
            &&& found == grid[row as int].len()
        },
        Err(TableError::TooLarge) => is_rectangular(grid) && exists|c: int|
            0 <= c < column_count(grid) && column_width(grid, c, center_headers) > usize::MAX,
    }
}

/// Given a 2D input, returns the minimum width of each column in a vector.
///
/// A header cell counts with 2 more than its text where `center_headers` is
/// set, and each column is then made larger until its header has the same
/// number of blanks, and at least one, on either side. A grid whose rows
/// differ in length is refused, and so is one with a width that a `usize`
/// cannot hold.
pub fn get_column_widths(input: &Vec<Vec<String>>, center_headers: bool) -> (result: Result<
    Vec<usize>,
    TableError,
>)
    ensures
        is_widths_result(grid_of(input), center_headers, result),
{
    let ghost grid = grid_of(input);
    match find_jagged_row(input) {
        Some(row) => {
            return Err(
                TableError::JaggedRow { row, expected: input[0].len(), found: input[row].len() },
            );
        },
        None => {},
    }
    if input.len() == 0 {
        let empty: Vec<usize> = Vec::new();
        assert(widths_of(empty@) =~= column_widths(grid, center_headers));
        return Ok(empty);
    }
    let mut widths = match fold_widths(input, center_headers) {
        Some(w) => w,
        None => {
            proof {
                let c = choose|c: int|
                    0 <= c < column_count(grid) && folded_width(
                        grid,
                        c,
                        input@.len(),
                        center_headers,
                    ) > usize::MAX;
                lemma_column_fits_cells(grid, c, 0, center_headers);
            }
            return Err(TableError::TooLarge);
        },
    };
    if center_headers {
        let columns: usize = widths.len();
        let mut c: usize = 0;
        while c < columns
            invariant
                c <= columns,
                grid == grid_of(input),
                input@.len() > 0,
                columns == grid[0].len(),
                widths@.len() == columns,
                forall|k: int|
                    0 <= k < c ==> (#[trigger] widths@[k]) == column_width(
                        grid,
                        k,
                        center_headers,
                    ),
                forall|k: int|
                    c <= k < columns ==> (#[trigger] widths@[k]) == folded_width(
                        grid,
                        k,
                        input@.len(),
                        center_headers,
                    ),
                center_headers,
                is_rectangular(grid),
            decreases columns - c,
        {
            let raw = cell_width(&input[0][c]);
            match center_adjust(widths[c], raw) {
                Some(w) => {
                    widths.set(c, w);
                },
                None => {
                    assert(0 <= c < column_count(grid) && column_width(
                        grid,
                        c as int,
                        center_headers,
                    ) > usize::MAX);
                    return Err(TableError::TooLarge);
                },
            }
            c = c + 1;
        }
    }
    assert(widths_of(widths@) =~= column_widths(grid, center_headers));
    Ok(widths)
}

} // verus!
