//! Matching a log line by the thread that wrote it.

use crate::matchers::matcher::Matcher;
use crate::parsers::log_line::{DefaultLogLine, LogLine};
use vstd::prelude::*;

verus! {

pub struct ThreadMatcher {
    pub thread_name: String,
}

impl ThreadMatcher {
    pub fn new(thread_name: &str) -> (matcher: Self)
        ensures
            matcher.thread_name@ == thread_name@,
    {
        ThreadMatcher { thread_name: thread_name.to_owned() }
    }
}

impl<T> Matcher<DefaultLogLine<T>, T> for ThreadMatcher {
    /// Whether the line was written by the thread of this matcher.
    fn matches(&self, log_line: &DefaultLogLine<T>) -> (same: bool)
        ensures
            same == (log_line.thread@ == self.thread_name@),
    {
        *log_line.get_thread() == self.thread_name
    }
}

} // verus!
