//! Log verbosity levels.

use crate::parser::field_map::str_eq;
use vstd::prelude::*;

verus! {

#[derive(Debug, Eq, PartialEq)]
pub enum Verbosity {
    Debug,
    Info,
    Error,
    Warn,
}

/// A text that names no verbosity level.
#[derive(Debug, Eq, PartialEq)]
pub struct UnknownVerbosity;

/// The level that a text names.
pub open spec fn verbosity_of(text: Seq<char>) -> Option<Verbosity> {
    if text == "DEBUG"@ {
        Some(Verbosity::Debug)
    } else if text == "INFO"@ {
        Some(Verbosity::Info)
    } else if text == "ERROR"@ {
        Some(Verbosity::Error)
    } else if text == "WARN"@ {
        Some(Verbosity::Warn)
    } else {
        None
    }
}

impl Verbosity {
    /// The level that `s` names, in capital letters.
    pub fn from_str(s: &str) -> (level: Result<Verbosity, UnknownVerbosity>)
        ensures
            match verbosity_of(s@) {
                Some(named) => level == Ok::<Verbosity, UnknownVerbosity>(named),
                None => level is Err,
            },
    {
        if str_eq(s, "DEBUG") {
            Ok(Verbosity::Debug)
        } else if str_eq(s, "INFO") {
            Ok(Verbosity::Info)
        } else if str_eq(s, "ERROR") {
            Ok(Verbosity::Error)
        } else if str_eq(s, "WARN") {
            Ok(Verbosity::Warn)
        } else {
            Err(UnknownVerbosity)
        }
    }
}

impl core::str::FromStr for Verbosity {
    type Err = UnknownVerbosity;

    fn from_str(s: &str) -> (level: Result<Verbosity, UnknownVerbosity>)
        ensures
            match verbosity_of(s@) {
                Some(named) => level == Ok::<Verbosity, UnknownVerbosity>(named),
                None => level is Err,
            },
    {
        Verbosity::from_str(s)
    }
}

} // verus!
