//! A line tokenizer for a shell-like command interpreter.
//!
//! One line of text is split into the commands of a pipeline at unquoted
//! `|`, and each command into tokens at unquoted white space. Single and
//! double quotes and the backslash escape are resolved on the way. What to
//! run, and what `*` or `$HOME` in a token mean, is the caller's business.
//!
//! [`LineParser`] is the scanner. [`machine`] holds the state machine that
//! its contracts speak of, [`laws`] what is proved of that machine for all
//! inputs, and [`text`] the notions of white space and trimming together
//! with what is assumed of the standard library.

pub mod laws;
pub mod line_parser;
pub mod machine;
pub mod text;

pub use line_parser::LineParser;
pub use machine::{LexState, Scan};
