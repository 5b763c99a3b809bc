//! Structured extraction of fields from log lines, and a small boolean query
//! language to filter the extracted records.
//!
//! A [`SimpleParser`] applies a pattern with named capture groups to a line
//! and gives the fields of the line, one for each named group that took part
//! in the match. A [`Query`] is read from a text such as
//! `level="WARN"&&year="2020"||level="ERROR"`, in which `&&` binds tighter
//! than `||`, and says of the fields of a line whether the line passes.

use vstd::prelude::*;

pub mod content_parsers;
pub mod matchers;
pub mod output;
pub mod parser;
pub mod parsers;
pub mod query;

pub use crate::output::output_generator::OutputGenerator;
pub use crate::parser::default_log_line_parse_result::DefaultLogLineParseResult;
pub use crate::parser::field_map::FieldMap;
pub use crate::parser::log_line_parse_result::LogLineParseResult;
pub use crate::parser::parser::Parser;
pub use crate::parser::simple_parser::SimpleParser;
pub use crate::query::simple_query::Query;

verus! {

/// Whether a parsed log line passes a query.
pub fn process_query_on_log_line<L: LogLineParseResult>(query: &Query, log_line: &L) -> (passed: bool)
    ensures
        passed == crate::query::constraint::model_holds(query@, log_line.fields()),
{
    query.check(log_line)
}

} // verus!
