//! Turns the rows of a spreadsheet into cards: per-row lists of
//! header-labelled values, driven by a configuration that names the file,
//! the sheet, the header row and the chosen columns.

pub mod cards;
pub mod sheet;
pub mod path;
pub mod form;
