//! Parsers for the lines that link source files, and for whole files.

pub mod directive;
pub mod include_line;
pub mod source_file;
