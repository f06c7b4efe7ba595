//! Small helpers the rest of the library builds on: text handling, paths, and the calendar day of a moment.

pub mod day;
pub mod path;
pub mod text;
