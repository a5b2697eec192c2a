use unicode_prettytable::{render, table_to_string, Header, Table, TableError};

fn grid(rows: &[&[&str]]) -> Vec<Vec<String>> {
    rows.iter().map(|row| row.iter().map(|cell| cell.to_string()).collect()).collect()
}

fn plain() -> Header {
    Header { double_bar: false, centered_text: false }
}

#[test]
fn empty_grid_gives_empty_text() {
    let rows: Vec<Vec<String>> = Vec::new();
    assert_eq!(render(&rows, false, plain()), Ok(String::new()));
    assert_eq!(table_to_string(Vec::new(), true, true), Ok(String::new()));
}

#[test]
fn grid_without_columns_gives_empty_text() {
    let rows: Vec<Vec<String>> = vec![Vec::new(), Vec::new()];
    assert_eq!(render(&rows, false, plain()), Ok(String::new()));
    assert_eq!(render(&rows, true, Header { double_bar: true, centered_text: true }), Ok(String::new()));
}

#[test]
fn two_by_two_without_header() {
    let rows = grid(&[&["a", "bb"], &["ccc", "d"]]);
    let text = render(&rows, false, plain()).unwrap();
    let expected = "┌───┬──┐\n│a  │bb│\n├───┼──┤\n│ccc│d │\n└───┴──┘";
    assert_eq!(text, expected);
    let lines: Vec<&str> = text.split('\n').collect();
    assert_eq!(lines.len(), 5);
    assert_eq!(lines[0], "┌───┬──┐");
    assert_eq!(lines[1], "│a  │bb│");
    assert_eq!(lines[2], "├───┼──┤");
    assert_eq!(lines[3], "│ccc│d │");
    assert_eq!(lines[4], "└───┴──┘");
}

#[test]
fn two_by_two_with_centered_double_bar_header() {
    let rows = grid(&[&["a", "bb"], &["ccc", "d"]]);
    let header = Header { double_bar: true, centered_text: true };
    let text = render(&rows, true, header).unwrap();
    let expected = "╒═══╤════╕\n│ a │ bb │\n╞═══╪════╡\n│ccc│d   │\n└───┴────┘";
    assert_eq!(text, expected);
}

#[test]
fn table_to_string_frames_header_with_double_bars() {
    let rows = grid(&[&["a", "bb"], &["ccc", "d"]]);
    let text = table_to_string(rows, true, true).unwrap();
    assert_eq!(text, "╒═══╤════╕\n│ a │ bb │\n╞═══╪════╡\n│ccc│d   │\n└───┴────┘");
}

#[test]
fn table_to_string_without_header_is_plain() {
    let rows = grid(&[&["a", "bb"], &["ccc", "d"]]);
    let text = table_to_string(rows, false, false).unwrap();
    assert_eq!(text, "┌───┬──┐\n│a  │bb│\n├───┼──┤\n│ccc│d │\n└───┴──┘");
}

#[test]
fn centered_widths_without_header_leave_rows_at_the_start() {
    let rows = grid(&[&["a", "bb"], &["ccc", "d"]]);
    let text = table_to_string(rows, false, true).unwrap();
    assert_eq!(text, "┌───┬────┐\n│a  │bb  │\n├───┼────┤\n│ccc│d   │\n└───┴────┘");
}

#[test]
fn header_with_single_bars_and_text_at_the_start() {
    let rows = grid(&[&["name", "age"], &["Dave", "14"], &["Joshua", "24"]]);
    let text = render(&rows, true, plain()).unwrap();
    let expected = "┌──────┬───┐\n│name  │age│\n├──────┼───┤\n│Dave  │14 │\n├──────┼───┤\n│Joshua│24 │\n└──────┴───┘";
    assert_eq!(text, expected);
}

#[test]
fn header_with_single_bars_and_centered_text() {
    let rows = grid(&[&["ab", "x"], &["abcde", "y"]]);
    let header = Header { double_bar: false, centered_text: true };
    let text = render(&rows, true, header).unwrap();
    let expected = "┌──────┬───┐\n│  ab  │ x │\n├──────┼───┤\n│abcde │y  │\n└──────┴───┘";
    assert_eq!(text, expected);
}

#[test]
fn double_bars_frame_only_the_header() {
    let rows = grid(&[&["h"], &["1"], &["2"], &["3"]]);
    let header = Header { double_bar: true, centered_text: false };
    let text = render(&rows, true, header).unwrap();
    assert_eq!(text, "╒═╕\n│h│\n╞═╡\n│1│\n├─┤\n│2│\n├─┤\n│3│\n└─┘");
}

#[test]
fn header_alone_has_no_border_under_it() {
    let rows = grid(&[&["only", "row"]]);
    let double = Header { double_bar: true, centered_text: false };
    assert_eq!(render(&rows, true, double).unwrap(), "╒════╤═══╕\n│only│row│\n└────┴───┘");
    assert_eq!(render(&rows, true, plain()).unwrap(), "┌────┬───┐\n│only│row│\n└────┴───┘");
    assert_eq!(render(&rows, false, plain()).unwrap(), "┌────┬───┐\n│only│row│\n└────┴───┘");
}

#[test]
fn jagged_grid_is_refused() {
    let rows = grid(&[&["a", "b"], &["c"]]);
    assert_eq!(
        render(&rows, false, plain()),
        Err(TableError::JaggedRow { row: 1, expected: 2, found: 1 })
    );
    assert_eq!(
        table_to_string(grid(&[&["a", "b"], &["c"]]), true, true),
        Err(TableError::JaggedRow { row: 1, expected: 2, found: 1 })
    );
}

#[test]
fn longer_row_is_refused_too() {
    let rows = grid(&[&["a"], &["b"], &["c", "d", "e"], &[]]);
    assert_eq!(
        render(&rows, true, plain()),
        Err(TableError::JaggedRow { row: 2, expected: 1, found: 3 })
    );
}

#[test]
fn row_after_an_empty_first_row_is_jagged() {
    let rows = grid(&[&[], &["a"]]);
    assert_eq!(
        render(&rows, false, plain()),
        Err(TableError::JaggedRow { row: 1, expected: 0, found: 1 })
    );
}

#[test]
fn line_count_is_twice_the_rows_and_one() {
    for n in 1..6usize {
        let rows: Vec<Vec<String>> = (0..n).map(|r| vec![format!("r{}", r), "x".to_string()]).collect();
        for (first_row_header, header) in [
            (false, plain()),
            (true, plain()),
            (true, Header { double_bar: true, centered_text: true }),
        ] {
            let text = render(&rows, first_row_header, header).unwrap();
            assert_eq!(text.split('\n').count(), 2 * n + 1);
            assert!(!text.ends_with('\n'));
        }
    }
}

#[test]
fn every_line_has_the_same_number_of_characters() {
    let rows = grid(&[&["oh hello there", "hello there", "hello"], &["hello there", "oh hello there", "hello"], &["x", "", "hello there"]]);
    for (first_row_header, header) in [
        (false, plain()),
        (true, Header { double_bar: true, centered_text: true }),
        (true, Header { double_bar: false, centered_text: true }),
    ] {
        let widths = unicode_prettytable::get_column_widths(&rows, header.centered_text).unwrap();
        let per_row: usize = widths.iter().sum::<usize>() + widths.len() + 1;
        let text = render(&rows, first_row_header, header).unwrap();
        let lines: Vec<&str> = text.split('\n').collect();
        assert_eq!(lines.len(), 7);
        for line in &lines {
            assert_eq!(line.chars().count(), per_row);
        }
        assert_eq!(text.chars().count(), per_row * 7 + 6);
    }
}

#[test]
fn cells_are_read_back_from_their_fields() {
    let rows = grid(&[&["name", "age", "height (in)"], &["Dave", "14", "72"], &["Catherine", "", "68"]]);
    for (first_row_header, header) in [
        (false, plain()),
        (true, Header { double_bar: true, centered_text: true }),
    ] {
        let widths = unicode_prettytable::get_column_widths(&rows, header.centered_text).unwrap();
        let text = render(&rows, first_row_header, header).unwrap();
        let lines: Vec<&str> = text.split('\n').collect();
        for (r, row) in rows.iter().enumerate() {
            let line = lines[2 * r + 1].as_bytes();
            let mut offset = "│".len();
            for (c, cell) in row.iter().enumerate() {
                let field = std::str::from_utf8(&line[offset..offset + widths[c]]).unwrap();
                assert_eq!(field.trim_matches(' '), cell);
                offset += widths[c] + "│".len();
            }
            assert_eq!(offset, line.len());
        }
    }
}

#[test]
fn rendering_twice_gives_the_same_text() {
    let rows = grid(&[&["a", "bb"], &["ccc", "d"], &["", "eeee"]]);
    let header = Header { double_bar: true, centered_text: true };
    let first = render(&rows, true, header);
    let second = render(&rows, true, header);
    assert_eq!(first, second);
    assert!(first.is_ok());
    let jagged = grid(&[&["a"], &[]]);
    assert_eq!(render(&jagged, true, header), render(&jagged, true, header));
}

#[test]
fn centered_header_has_as_many_blanks_in_front_as_behind() {
    let rows = grid(&[&["ab", "abc", "", "h"], &["abcde", "x", "yy", "zzzzzzzz"]]);
    let header = Header { double_bar: true, centered_text: true };
    let text = render(&rows, true, header).unwrap();
    let line = text.split('\n').nth(1).unwrap();
    let fields: Vec<&str> = line.split('│').collect();
    assert_eq!(fields.len(), 6);
    for (c, cell) in rows[0].iter().enumerate() {
        let field = fields[c + 1];
        let front = field.len() - field.trim_start_matches(' ').len();
        let back = field.len() - field.trim_end_matches(' ').len();
        if cell.is_empty() {
            assert_eq!(field.len() % 2, 0);
        } else {
            assert_eq!(front, back);
            assert!(front >= 1);
        }
    }
    assert_eq!(line, "│  ab  │ abc │  │    h    │");
}

#[test]
fn cell_of_two_bytes_counts_as_two() {
    let rows = grid(&[&["é", "a"], &["bcd", "e"]]);
    let text = render(&rows, false, plain()).unwrap();
    assert_eq!(text, "┌───┬─┐\n│é │a│\n├───┼─┤\n│bcd│e│\n└───┴─┘");
}

#[test]
fn length_in_bytes_is_as_computed() {
    let rows = grid(&[&["a", "bb"], &["ccc", "d"]]);
    let text = render(&rows, false, plain()).unwrap();
    let border = 3 * (3 + 2 + 3);
    let data = 3 + 2 + 3 * 3;
    assert_eq!(text.len(), 3 * border + 2 * data + 4);
}

#[test]
fn table_renders_its_first_row_as_header() {
    let rows = grid(&[&["a", "bb"], &["ccc", "d"]]);
    let table = Table::new(Header { double_bar: true, centered_text: true }, &rows);
    assert_eq!(table.render().unwrap(), "╒═══╤════╕\n│ a │ bb │\n╞═══╪════╡\n│ccc│d   │\n└───┴────┘");
    assert_eq!(table.get_column_widths(), Ok(vec![3, 4]));
    let same = Table::new(Header::default(), &rows);
    assert_eq!(same.render().unwrap(), "┌───┬──┐\n│a  │bb│\n├───┼──┤\n│ccc│d │\n└───┴──┘");
    let jagged = grid(&[&["a", "b"], &["c"]]);
    let table = Table::new(Header::default(), &jagged);
    assert_eq!(table.render(), Err(TableError::JaggedRow { row: 1, expected: 2, found: 1 }));
}

#[test]
fn cell_with_blanks_keeps_them() {
    let rows = grid(&[&[" a", "b "], &["c  c", ""]]);
    let text = render(&rows, false, plain()).unwrap();
    assert_eq!(text, "┌────┬──┐\n│ a  │b │\n├────┼──┤\n│c  c│  │\n└────┴──┘");
}

#[test]
fn cells_of_several_bytes_are_read_back_by_bytes() {
    let rows = grid(&[&["é", "日本"], &["abc", "x"], &["😀", ""]]);
    let header = Header { double_bar: true, centered_text: true };
    let widths = unicode_prettytable::get_column_widths(&rows, true).unwrap();
    assert_eq!(widths, vec![4, 8]);
    let text = render(&rows, true, header).unwrap();
    let lines: Vec<&str> = text.split('\n').collect();
    assert_eq!(lines.len(), 7);
    for (r, row) in rows.iter().enumerate() {
        let line = lines[2 * r + 1].as_bytes();
        let mut offset = 3;
        for (c, cell) in row.iter().enumerate() {
            let field = std::str::from_utf8(&line[offset..offset + widths[c]]).unwrap();
            assert_eq!(field.trim_matches(' '), cell);
            offset += widths[c] + 3;
        }
        assert_eq!(offset, line.len());
    }
    assert_eq!(lines[1], "│ é │ 日本 │");
    assert_eq!(lines[5], "│😀│        │");
}

#[test]
fn table_separators_are_those_of_the_free_function() {
    let widths = vec![2, 0, 3];
    assert_eq!(
        Table::generate_horizontal_separators(&widths, "═"),
        unicode_prettytable::table::generate_horizontal_separators(&widths, "═")
    );
    assert_eq!(
        Table::generate_horizontal_separators(&widths, "═"),
        vec!["══".as_bytes().to_vec(), Vec::new(), "═══".as_bytes().to_vec()]
    );
}
