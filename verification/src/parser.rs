//! Extraction of a field map from one log line.

pub mod decimal;
pub mod default_log_line_parse_result;
pub mod field_map;
pub mod log_line;
pub mod log_line_parse_result;
pub mod parser;
pub mod parser_profile;
pub mod simple_parser;
pub mod timestamp;
