use unicode_prettytable::size::{checked_size, data_line_size};
use unicode_prettytable::widths::{cell_width, center_adjust, find_jagged_row, fold_widths};
use unicode_prettytable::{get_column_widths, TableError};

fn grid(rows: &[&[&str]]) -> Vec<Vec<String>> {
    rows.iter().map(|row| row.iter().map(|cell| cell.to_string()).collect()).collect()
}

#[test]
fn widths_of_two_by_two() {
    let rows = grid(&[&["a", "bb"], &["ccc", "d"]]);
    assert_eq!(get_column_widths(&rows, false), Ok(vec![3, 2]));
    assert_eq!(get_column_widths(&rows, true), Ok(vec![3, 4]));
}

#[test]
fn widths_of_empty_grid_are_none() {
    let rows: Vec<Vec<String>> = Vec::new();
    assert_eq!(get_column_widths(&rows, false), Ok(Vec::new()));
    assert_eq!(get_column_widths(&rows, true), Ok(Vec::new()));
    let rows: Vec<Vec<String>> = vec![Vec::new()];
    assert_eq!(get_column_widths(&rows, true), Ok(Vec::new()));
}

#[test]
fn header_alone_is_padded_by_two_when_centered() {
    let rows = grid(&[&["", "a", "ab", "abc"]]);
    assert_eq!(get_column_widths(&rows, false), Ok(vec![0, 1, 2, 3]));
    assert_eq!(get_column_widths(&rows, true), Ok(vec![2, 3, 4, 5]));
}

#[test]
fn odd_number_of_blanks_is_made_even() {
    let rows = grid(&[&["ab", "ab", "ab", "ab"], &["abcd", "abcde", "abcdef", "abcdefg"]]);
    assert_eq!(get_column_widths(&rows, false), Ok(vec![4, 5, 6, 7]));
    assert_eq!(get_column_widths(&rows, true), Ok(vec![4, 6, 6, 8]));
}

#[test]
fn width_is_that_of_the_widest_cell() {
    let rows = grid(&[&["a"], &["bbbbb"], &["cc"], &["dddddddd"], &[""]]);
    assert_eq!(get_column_widths(&rows, false), Ok(vec![8]));
    assert_eq!(fold_widths(&rows, false), Some(vec![8]));
    assert_eq!(fold_widths(&rows, true), Some(vec![8]));
    assert_eq!(get_column_widths(&rows, true), Ok(vec![9]));
}

#[test]
fn width_counts_bytes() {
    let rows = grid(&[&["é", "日本", "😀"]]);
    assert_eq!(get_column_widths(&rows, false), Ok(vec![2, 6, 4]));
    assert_eq!(cell_width(&"日本".to_string()), 6);
    assert_eq!(cell_width(&String::new()), 0);
}

#[test]
fn widths_of_jagged_grid_are_refused() {
    let rows = grid(&[&["a", "b"], &["c"]]);
    assert_eq!(
        get_column_widths(&rows, false),
        Err(TableError::JaggedRow { row: 1, expected: 2, found: 1 })
    );
    assert_eq!(find_jagged_row(&rows), Some(1));
    let rows = grid(&[&["a", "b"], &["c", "d"], &["e", "f", "g"], &["h"]]);
    assert_eq!(find_jagged_row(&rows), Some(2));
    let rows = grid(&[&["a", "b"], &["c", "d"]]);
    assert_eq!(find_jagged_row(&rows), None);
    assert_eq!(find_jagged_row(&Vec::new()), None);
}

#[test]
fn center_adjust_by_case() {
    assert_eq!(center_adjust(3, 3), Some(5));
    assert_eq!(center_adjust(4, 3), Some(5));
    assert_eq!(center_adjust(5, 3), Some(5));
    assert_eq!(center_adjust(6, 3), Some(7));
    assert_eq!(center_adjust(0, 0), Some(2));
    assert_eq!(center_adjust(2, 3), Some(3));
    assert_eq!(center_adjust(1, 3), Some(1));
}

#[test]
fn center_adjust_settles() {
    for header in 0..6usize {
        for width in header..header + 9 {
            let once = center_adjust(width, header).unwrap();
            assert!(once >= width);
            assert!(once >= header + 2);
            assert_eq!((once - header) % 2, 0);
            assert_eq!(center_adjust(once, header), Some(once));
        }
    }
}

#[test]
fn center_adjust_reports_overflow() {
    assert_eq!(center_adjust(usize::MAX, usize::MAX), None);
    assert_eq!(center_adjust(usize::MAX, usize::MAX - 1), None);
    assert_eq!(center_adjust(usize::MAX, usize::MAX - 2), Some(usize::MAX));
    assert_eq!(center_adjust(usize::MAX - 1, usize::MAX - 1), None);
    assert_eq!(center_adjust(usize::MAX - 2, usize::MAX - 2), Some(usize::MAX));
}

#[test]
fn data_line_size_counts_bars_and_line_break() {
    assert_eq!(data_line_size(&vec![3, 2]), Some(3 + 3 + 3 + 2 + 3 + 1));
    assert_eq!(data_line_size(&Vec::new()), Some(3 + 1));
    assert_eq!(data_line_size(&vec![usize::MAX]), None);
    assert_eq!(data_line_size(&vec![usize::MAX - 7]), Some(usize::MAX));
    assert_eq!(data_line_size(&vec![usize::MAX - 6]), None);
    assert_eq!(data_line_size(&vec![usize::MAX / 2, usize::MAX / 2]), None);
}

#[test]
fn checked_size_by_number_of_rows() {
    assert_eq!(checked_size(0, 10, 20, 30, 5, 7), Some(15));
    assert_eq!(checked_size(1, 10, 20, 30, 5, 7), Some(22));
    assert_eq!(checked_size(2, 10, 20, 30, 5, 7), Some(49));
    assert_eq!(checked_size(3, 10, 20, 30, 5, 7), Some(86));
    assert_eq!(checked_size(5, 10, 20, 30, 5, 7), Some(10 + 35 + 20 + 90 + 5));
}

#[test]
fn checked_size_reports_overflow() {
    assert_eq!(checked_size(2, 0, 0, 0, 0, usize::MAX), None);
    assert_eq!(checked_size(1, 1, 0, 0, 0, usize::MAX), None);
    assert_eq!(checked_size(1, 0, 0, 0, 0, usize::MAX), Some(usize::MAX));
    assert_eq!(checked_size(3, 0, 0, usize::MAX, 1, 0), None);
    assert_eq!(checked_size(3, 0, 0, usize::MAX, 0, 0), Some(usize::MAX));
    assert_eq!(checked_size(2, 0, usize::MAX, usize::MAX, 0, 0), Some(usize::MAX));
    assert_eq!(checked_size(usize::MAX, 0, 0, 2, 0, 0), None);
    assert_eq!(checked_size(1, usize::MAX, usize::MAX, usize::MAX, 0, 0), Some(usize::MAX));
    assert_eq!(checked_size(1, usize::MAX, 0, 0, 1, 0), None);
}
