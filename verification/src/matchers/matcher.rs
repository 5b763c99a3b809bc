//! What every matcher offers.

use crate::parsers::log_line::LogLine;
use vstd::prelude::*;

verus! {

/// Check if a log line matches some predicate.
pub trait Matcher<T: LogLine<J>, J> {
    fn matches(&self, log_line: &T) -> bool;
}

} // verus!
