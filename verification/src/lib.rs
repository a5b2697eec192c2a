//! Renders a rectangular grid of text cells as a table framed with Unicode
//! box-drawing characters.
//!
//! Widths are measured in UTF-8 bytes: a cell occupies as many bytes of its
//! line as its column is wide, whatever the characters in it. Borders
//! therefore line up on a screen only while every cell is plain ASCII.

pub mod builder;
pub mod error;
pub mod glyphs;
pub mod laws;
pub mod layout;
pub mod lines;
pub mod size;
pub mod table;
pub mod text;
pub mod util;
pub mod widths;

pub use builder::{HeaderBuilder, TableBuilder};
pub use error::{BuildError, TableError};
pub use layout::Header;
pub use table::{render, table_to_string, Table};
pub use util::StringBuffer;
pub use widths::get_column_widths;
