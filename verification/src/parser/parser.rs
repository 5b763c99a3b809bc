//! What every parser of log lines offers.

use vstd::prelude::*;

verus! {

/// Why no parser, or no parsed line, came about.
#[derive(Debug, Clone, Copy, PartialEq, Eq)]
pub enum ParseError {
    /// The pattern of a profile is no pattern that can be compiled. The
    /// profile is of no use.
    PatternCompileError,
    /// The line does not match the pattern. Other lines may.
    NoMatch,
}

/// An entity that can parse a log line and produce a result.
pub trait Parser {
    type ParserResult;

    /// Parse a single log line and produce a result.
    fn parse(&self, log: &str) -> Result<Box<Self::ParserResult>, ParseError>;

    /// The canonical name of this parser.
    fn get_name(&self) -> &str;
}

} // verus!
