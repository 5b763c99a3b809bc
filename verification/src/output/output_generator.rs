//! What every renderer of parsed lines offers.

use crate::parser::log_line_parse_result::LogLineParseResult;
use vstd::prelude::*;

verus! {

/// A renderer of parsed lines. Nothing is asked of the text it gives.
pub trait OutputGenerator {
    fn get_str<L: LogLineParseResult>(&self, log_line: &L) -> String;
}

} // verus!
