use unicode_prettytable::table::{create_sep_row, generate_horizontal_separators, push_data_row, push_field};
use unicode_prettytable::text::encode_char;
use unicode_prettytable::StringBuffer;

#[test]
fn filled_buffer_starts_with_nothing_written() {
    let buffer = StringBuffer::with_capacity_fill(5, ' ');
    assert_eq!(buffer.to_string(), Some(String::new()));
    assert_eq!(buffer.into_buffer(), Vec::<u8>::new());
}

#[test]
fn fixed_width_leaves_the_fill_in_place() {
    let mut buffer = StringBuffer::with_capacity_fill(8, '.');
    buffer.push_chars_fixed_width("ab", 4);
    buffer.push_chars("|");
    buffer.push_bytes_fixed_width(b"c", 3);
    assert_eq!(buffer.to_string(), Some("ab..|c..".to_string()));
}

#[test]
fn field_behind_the_end_is_padded_with_blanks() {
    let mut buffer = StringBuffer::with_capacity(0);
    buffer.push_chars_fixed_width("ab", 4);
    buffer.push_chars("|");
    assert_eq!(buffer.to_string(), Some("ab  |".to_string()));
    let mut buffer = StringBuffer::with_capacity_fill(3, '.');
    buffer.push_chars_fixed_width("ab", 5);
    buffer.push_chars("|");
    assert_eq!(buffer.to_string(), Some("ab.  |".to_string()));
}

#[test]
fn text_wider_than_its_field_is_kept_whole() {
    let mut buffer = StringBuffer::with_capacity_fill(10, ' ');
    buffer.push_chars_fixed_width("abcdef", 3);
    buffer.push_chars("|");
    assert_eq!(buffer.to_string(), Some("abcdef|".to_string()));
    assert_eq!(buffer.into_buffer(), b"abcdef|".to_vec());
}

#[test]
fn push_writes_over_what_is_there_and_beyond() {
    let mut buffer = StringBuffer::with_capacity_fill(2, 'x');
    buffer.push_bytes(b"abc");
    buffer.push_chars("de");
    assert_eq!(buffer.to_string(), Some("abcde".to_string()));
    let mut buffer = StringBuffer::with_capacity(16);
    buffer.push_chars("│");
    buffer.push_bytes(&[b'a']);
    assert_eq!(buffer.into_buffer(), "│a".as_bytes().to_vec());
}

#[test]
fn fill_of_several_bytes_is_repeated_whole() {
    let mut buffer = StringBuffer::with_capacity_fill(3, 'é');
    buffer.push_bytes_fixed_width(&[], 6);
    assert_eq!(buffer.to_string(), Some("ééé".to_string()));
    let mut buffer = StringBuffer::with_capacity_fill(0, 'é');
    buffer.push_bytes_fixed_width(&[], 2);
    assert_eq!(buffer.to_string(), Some("  ".to_string()));
}

#[test]
fn bytes_that_are_no_text_give_no_string() {
    let mut buffer = StringBuffer::with_capacity(4);
    buffer.push_bytes(&[0xE2, 0x94]);
    assert_eq!(buffer.to_string(), None);
    buffer.push_bytes(&[0x82]);
    assert_eq!(buffer.to_string(), Some("│".to_string()));
    let mut buffer = StringBuffer::with_capacity_fill(2, 'é');
    buffer.push_bytes_fixed_width(&[], 1);
    assert_eq!(buffer.to_string(), None);
    let mut buffer = StringBuffer::with_capacity(1);
    buffer.push_bytes(&[0xFF]);
    assert_eq!(buffer.to_string(), None);
    assert_eq!(buffer.into_buffer(), vec![0xFF]);
}

#[test]
fn encode_char_agrees_with_the_standard_encoding() {
    for c in ['\0', 'a', ' ', '\x7f', '\u{80}', 'é', '\u{7ff}', '\u{800}', '│', '═', '\u{d7ff}', '\u{e000}', '\u{ffff}', '\u{10000}', '😀', '\u{10ffff}'] {
        let mut scratch = [0u8; 4];
        let expected = c.encode_utf8(&mut scratch).as_bytes().to_vec();
        assert_eq!(encode_char(c), expected);
    }
}

#[test]
fn separators_repeat_the_fill() {
    let segments = generate_horizontal_separators(&vec![3, 0, 1], "─");
    assert_eq!(segments, vec!["───".as_bytes().to_vec(), Vec::new(), "─".as_bytes().to_vec()]);
    let segments = generate_horizontal_separators(&vec![2], "ab");
    assert_eq!(segments, vec![b"abab".to_vec()]);
    assert_eq!(generate_horizontal_separators(&Vec::new(), "─"), Vec::<Vec<u8>>::new());
}

#[test]
fn sep_row_joins_the_segments() {
    let segments = generate_horizontal_separators(&vec![3, 2], "─");
    assert_eq!(create_sep_row(&segments, "┌", "┬", "┐", false), "┌───┬──┐".as_bytes().to_vec());
    assert_eq!(create_sep_row(&segments, "├", "┼", "┤", true), "├───┼──┤\n".as_bytes().to_vec());
    let one = generate_horizontal_separators(&vec![0], "═");
    assert_eq!(create_sep_row(&one, "╒", "╤", "╕", true), "╒╕\n".as_bytes().to_vec());
}

#[test]
fn field_is_centered_or_at_the_start() {
    let mut buffer = StringBuffer::with_capacity_fill(40, ' ');
    push_field(&mut buffer, "ab", 6, true);
    buffer.push_chars("|");
    push_field(&mut buffer, "ab", 6, false);
    buffer.push_chars("|");
    push_field(&mut buffer, "ab", 5, true);
    buffer.push_chars("|");
    push_field(&mut buffer, "abcd", 2, true);
    buffer.push_chars("|");
    push_field(&mut buffer, "", 3, true);
    buffer.push_chars("|");
    assert_eq!(buffer.to_string(), Some("  ab  |ab    | ab  |abcd|   |".to_string()));
}

#[test]
fn data_row_has_a_bar_on_either_side_of_each_cell() {
    let mut buffer = StringBuffer::with_capacity_fill(64, ' ');
    let row = vec!["a".to_string(), "bb".to_string(), String::new()];
    push_data_row(&mut buffer, &row, &vec![3, 2, 1], false);
    push_data_row(&mut buffer, &row, &vec![3, 4, 2], true);
    assert_eq!(buffer.to_string(), Some("│a  │bb│ │\n│ a │ bb │  │\n".to_string()));
}

#[test]
fn empty_buffer_grows_as_it_is_written() {
    let mut buffer = StringBuffer::with_capacity(2);
    assert_eq!(buffer.to_string(), Some(String::new()));
    buffer.push_chars("abc");
    buffer.push_bytes_fixed_width(b"d", 1);
    buffer.push_chars_fixed_width("", 0);
    assert_eq!(buffer.to_string(), Some("abcd".to_string()));
    assert_eq!(buffer.into_buffer(), b"abcd".to_vec());
}
