//! The ways in which a table cannot be rendered or built.

use vstd::prelude::*;

verus! {

/// Why a grid was not rendered.
#[derive(Clone, Copy, Debug, PartialEq, Eq, Structural)]
pub enum TableError {
    /// Row `row` holds `found` cells, the first row `expected`.
    JaggedRow { row: usize, expected: usize, found: usize },
    /// A column width, or the length of the whole text, is more than a
    /// `usize` can hold.
    TooLarge,
}

/// Why a builder did not build: a setting that has no default was not given.
#[derive(Clone, Copy, Debug, PartialEq, Eq, Structural)]
pub enum BuildError {
    /// `double_bar` was not given.
    MissingDoubleBar,
    /// `centered_text` was not given.
    MissingCenteredText,
    /// `rows` was not given.
    MissingRows,
}

impl BuildError {
    /// The name of the setting that was not given.
    pub fn field_name(&self) -> (name: &'static str)
        ensures
            name@ == match *self {
                BuildError::MissingDoubleBar => "double_bar"@,
                BuildError::MissingCenteredText => "centered_text"@,
                BuildError::MissingRows => "rows"@,
            },
    {
        match self {
            BuildError::MissingDoubleBar => "double_bar",
            BuildError::MissingCenteredText => "centered_text",
            BuildError::MissingRows => "rows",
        }
    }
}

} // verus!
