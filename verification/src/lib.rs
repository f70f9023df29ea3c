//! Whitespace style checking and repair for text files.
//!
//! A text is cut into lines. Each line is classified into violations that
//! can be repaired (tabs that are to be expanded, a terminator other than a
//! line feed, whitespace before the terminator) and violations that are
//! only reported (a tab behind other characters, a line that is too long).
//! The repair rewrites what can be repaired and names, line by line, what
//! it did and what it found. A modeline inside the text can override the
//! configuration for that text.
//!
//! - `config`: the configuration, and what a modeline makes of it
//! - `modeline`: the search for the modeline of a text
//! - `line`: the classification of one line
//! - `scan`: that classification in one pass over a string
//! - `fix`: the repair of one line
//! - `report`: the text of a diagnostic
//! - `file`: the lines of a text, its counts and its repair
//! - `process`: the treatment of one file's text from modeline to outcome
//! - `laws`: what holds of the repair of whole texts
//! - `number`, `text`: unsigned numbers, characters and strings

pub mod config;
pub mod file;
pub mod fix;
pub mod laws;
pub mod line;
pub mod modeline;
pub mod number;
pub mod process;
pub mod report;
pub mod scan;
pub mod text;
