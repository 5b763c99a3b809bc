//! Log lines of a fixed layout, with a content of the caller's choice.

pub mod java_parser;
pub mod log_line;
pub mod verbosity;
