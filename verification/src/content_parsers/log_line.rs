//! A log line of a fixed layout, with its content as text.

use crate::content_parsers::timestamp::Timestamp;
use crate::parsers::verbosity::Verbosity;
use vstd::prelude::*;

verus! {

pub struct LogLine {
    pub timestamp: Timestamp,
    pub class: String,
    pub thread: String,
    pub verbosity: Verbosity,
    pub content: String,
}

impl LogLine {
    pub fn new(
        timestamp: Timestamp,
        class: String,
        thread: String,
        verbosity: Verbosity,
        content: String,
    ) -> (line: Self)
        ensures
            line == (LogLine { timestamp, class, thread, verbosity, content }),
    {
        LogLine { timestamp, class, thread, verbosity, content }
    }
}

} // verus!
