//! Line, word, byte and character counts for files, laid out as table rows.
//!
//! The library reads no file and prints nothing. It is handed the command line's options
//! and the contents of the files as plain values, and decides what is counted and what
//! the table holds:
//!
//! - `args`: the options, and the columns that they select;
//! - `input`: where the paths of the files come from, and the paths that a manifest names;
//! - `lines`: the lines of a content;
//! - `text`: the characters and words of a line;
//! - `file_stat`: the counts of one file;
//! - `decimal`: counts written as text;
//! - `cell`: what a table cell keeps of a text, and which texts it takes;
//! - `table`: the header row and the row of a file;
//! - `report`: the table and the diagnostic lines of a whole run;
//! - `error`: what can fail, with the path it concerns;
//! - `laws`: what holds of the counts of every file and of the table of every run.

pub mod args;
pub mod cell;
pub mod decimal;
pub mod error;
pub mod file_stat;
pub mod input;
pub mod laws;
pub mod lines;
pub mod report;
pub mod table;
pub mod text;
