//! A log line of a fixed layout.

use crate::content_parsers::timestamp::Timestamp;
use crate::parsers::verbosity::Verbosity;
use vstd::prelude::*;

verus! {

/// What a log line holds besides its time, class, thread and verbosity.
pub trait Content: Sized {
    fn construct(s: String) -> Self;
}

pub trait LogLine<T>: Sized {
    /// Create a new log line.
    fn new(timestamp: Timestamp, class: String, thread: String, verbosity: Verbosity, content: T) -> Self;

    /// Get a reference to the timestamp for this log object.
    fn get_timestamp(&self) -> &Timestamp;

    /// Get a reference to the name of this class for this log object.
    fn get_class(&self) -> &String;

    /// Get a reference to the name of this thread for this log object.
    fn get_thread(&self) -> &String;

    /// Get a reference to the verbosity of this log object.
    fn get_verbosity(&self) -> &Verbosity;

    /// Get a reference to the content of this log object.
    fn get_content(&self) -> &T;
}

pub struct DefaultLogLine<T> {
    pub timestamp: Timestamp,
    pub class: String,
    pub thread: String,
    pub verbosity: Verbosity,
    pub content: T,
}

impl<T> LogLine<T> for DefaultLogLine<T> {
    fn new(timestamp: Timestamp, class: String, thread: String, verbosity: Verbosity, content: T) -> (line: Self)
        ensures
            line == (DefaultLogLine { timestamp, class, thread, verbosity, content }),
    {
        DefaultLogLine { timestamp, class, thread, verbosity, content }
    }

    fn get_content(&self) -> (content: &T)
        ensures
            content == &self.content,
    {
        &self.content
    }

    fn get_class(&self) -> (class: &String)
        ensures
            class == &self.class,
    {
        &self.class
    }

    fn get_timestamp(&self) -> (timestamp: &Timestamp)
        ensures
            timestamp == &self.timestamp,
    {
        &self.timestamp
    }

    fn get_thread(&self) -> (thread: &String)
        ensures
            thread == &self.thread,
    {
        &self.thread
    }

    fn get_verbosity(&self) -> (verbosity: &Verbosity)
        ensures
            verbosity == &self.verbosity,
    {
        &self.verbosity
    }
}

} // verus!
