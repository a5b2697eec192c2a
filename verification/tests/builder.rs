use unicode_prettytable::{BuildError, Header, HeaderBuilder, TableBuilder};

#[test]
fn header_builder_needs_both_settings() {
    assert_eq!(HeaderBuilder::default().build(), Err(BuildError::MissingDoubleBar));
    assert_eq!(HeaderBuilder::default().centered_text(true).build(), Err(BuildError::MissingDoubleBar));
    assert_eq!(HeaderBuilder::default().double_bar(true).build(), Err(BuildError::MissingCenteredText));
    assert_eq!(
        HeaderBuilder::default().double_bar(true).centered_text(false).build(),
        Ok(Header { double_bar: true, centered_text: false })
    );
    assert_eq!(
        HeaderBuilder::default().centered_text(true).double_bar(false).build(),
        Ok(Header { double_bar: false, centered_text: true })
    );
}

#[test]
fn default_header_is_plain() {
    assert_eq!(Header::default(), Header { double_bar: false, centered_text: false });
}

#[test]
fn table_builder_needs_rows() {
    assert!(matches!(TableBuilder::default().build(), Err(BuildError::MissingRows)));
    let header = Header { double_bar: true, centered_text: true };
    assert!(matches!(TableBuilder::default().header(header).build(), Err(BuildError::MissingRows)));
}

#[test]
fn table_builder_takes_default_header() {
    let rows = vec![vec!["a".to_string(), "bb".to_string()], vec!["ccc".to_string(), "d".to_string()]];
    let table = TableBuilder::default().rows(&rows).build().unwrap();
    assert_eq!(table.render().unwrap(), "┌───┬──┐\n│a  │bb│\n├───┼──┤\n│ccc│d │\n└───┴──┘");
    let header = HeaderBuilder::default().double_bar(true).centered_text(true).build().unwrap();
    let table = TableBuilder::default().header(header).rows(&rows).build().unwrap();
    assert_eq!(table.render().unwrap(), "╒═══╤════╕\n│ a │ bb │\n╞═══╪════╡\n│ccc│d   │\n└───┴────┘");
}

#[test]
fn build_error_names_the_setting() {
    assert_eq!(BuildError::MissingDoubleBar.field_name(), "double_bar");
    assert_eq!(BuildError::MissingCenteredText.field_name(), "centered_text");
    assert_eq!(BuildError::MissingRows.field_name(), "rows");
}
