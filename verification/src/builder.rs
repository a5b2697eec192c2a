//! Builders for the settings of a header and for a table.

use crate::error::BuildError;
use crate::layout::{grid_of, Header};
use crate::table::Table;
use vstd::prelude::*;

verus! {

impl Default for Header {
    /// Single bars, and the text at the start of each cell.
    fn default() -> (header: Header)
        ensures
            header == (Header { double_bar: false, centered_text: false }),
    {
        Header { double_bar: false, centered_text: false }
    }
}

/// Collects the settings of a header. Both have to be given.
#[derive(Clone, Copy, Debug)]
pub struct HeaderBuilder {
    pub double_bar: Option<bool>,
    pub centered_text: Option<bool>,
}

impl Default for HeaderBuilder {
    /// A builder to which nothing was given yet.
    fn default() -> (builder: HeaderBuilder)
        ensures
            builder.double_bar is None,
            builder.centered_text is None,
    {
        HeaderBuilder { double_bar: None, centered_text: None }
    }
}

impl HeaderBuilder {
    /// Whether to use double bar Unicode characters surrounding the header
    pub fn double_bar(self, value: bool) -> (builder: HeaderBuilder)
        ensures
            builder.double_bar == Some(value),
            builder.centered_text == self.centered_text,
    {
        HeaderBuilder { double_bar: Some(value), centered_text: self.centered_text }
    }

    /// Whether to center the header text within each column
    pub fn centered_text(self, value: bool) -> (builder: HeaderBuilder)
        ensures
            builder.double_bar == self.double_bar,
            builder.centered_text == Some(value),
    {
        HeaderBuilder { double_bar: self.double_bar, centered_text: Some(value) }
    }

    /// The header with the settings that were given, or the first setting
    /// that is missing.
    pub fn build(&self) -> (result: Result<Header, BuildError>)
        ensures
            result == (match (self.double_bar, self.centered_text) {
                (None, _) => Err::<Header, BuildError>(BuildError::MissingDoubleBar),
                (Some(_), None) => Err(BuildError::MissingCenteredText),
                (Some(double_bar), Some(centered_text)) => Ok(
                    Header { double_bar, centered_text },
                ),
            }),
    {
        match self.double_bar {
            None => Err(BuildError::MissingDoubleBar),
            Some(double_bar) => match self.centered_text {
                None => Err(BuildError::MissingCenteredText),
                Some(centered_text) => Ok(Header { double_bar, centered_text }),
            },
        }
    }
}

/// Collects what a table is made of. The rows have to be given; a header that
/// is not given is the default one.
pub struct TableBuilder<'a> {
    pub header: Option<Header>,
    pub rows: Option<&'a Vec<Vec<String>>>,
}

impl<'a> Default for TableBuilder<'a> {
    /// A builder to which nothing was given yet.
    fn default() -> (builder: TableBuilder<'a>)
        ensures
            builder.header is None,
            builder.rows is None,
    {
        TableBuilder { header: None, rows: None }
    }
}

impl<'a> TableBuilder<'a> {
    /// If you provide header settings, the first row will be treated as headers
    pub fn header(self, value: Header) -> (builder: TableBuilder<'a>)
        ensures
            builder.header == Some(value),
            builder.rows == self.rows,
    {
        TableBuilder { header: Some(value), rows: self.rows }
    }

    /// Rows holding the data
    pub fn rows(self, value: &'a Vec<Vec<String>>) -> (builder: TableBuilder<'a>)
        ensures
            builder.header == self.header,
            builder.rows == Some(value),
    {
        TableBuilder { header: self.header, rows: Some(value) }
    }

    /// The table of the rows that were given, or `MissingRows` where none
    /// were.
    pub fn build(&self) -> (result: Result<Table<'a>, BuildError>)
        ensures
            self.rows is None <==> result is Err,
            result matches Err(e) ==> e == BuildError::MissingRows,
            result matches Ok(table) ==> table.grid() == grid_of(self.rows->0) && table.header()
                == (match self.header {
                Some(header) => header,
                None => (Header { double_bar: false, centered_text: false }),
            }),
    {
        match self.rows {
            None => Err(BuildError::MissingRows),
            Some(rows) => {
                let header = match self.header {
                    Some(header) => header,
                    None => Header::default(),
                };
                Ok(Table::new(header, rows))
            },
        }
    }
}

} // verus!
