//! Log lines of a fixed layout, with their content as plain text.

pub mod java_parser;
pub mod log_line;
pub mod timestamp;
