//! The content-line layer of the iCalendar/vCard syntax: unfolding,
//! tokenizing, and folding long lines back when writing.

pub mod fold;
pub mod grammar;
pub mod lexer;
pub mod parser;
pub mod property;
pub mod unfold;
