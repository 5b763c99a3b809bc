//! Log lines in the layout of a common Java logging setup, with a content
//! that keeps the raw text.

use crate::content_parsers::java_parser;
use crate::content_parsers::java_parser::{line_of_fields, JavaParseError, LineModel};
use crate::parser::simple_parser::{extracted_fields, SimpleParser};
use crate::parsers::log_line::{Content, DefaultLogLine, LogLine};
use vstd::prelude::*;

verus! {

pub struct DefaultContent {
    pub raw_content: String,
}

impl Content for DefaultContent {
    fn construct(s: String) -> (content: Self)
        ensures
            content.raw_content == s,
    {
        Self { raw_content: s }
    }
}

/// The texts that a log line with raw content holds.
pub open spec fn line_model(line: DefaultLogLine<DefaultContent>) -> LineModel {
    LineModel {
        timestamp: line.timestamp,
        class: line.class@,
        thread: line.thread@,
        verbosity: line.verbosity,
        content: line.content.raw_content@,
    }
}

/// Parses one line with a parser for lines of this layout.
pub fn parse_java(parser: &SimpleParser, log: &str) -> (line: Result<
    DefaultLogLine<DefaultContent>,
    JavaParseError,
>)
    ensures
        match parser.captures(log@) {
            Some(texts) => match line_of_fields(extracted_fields(parser.group_names(), texts)) {
                Ok(model) => line matches Ok(made) && line_model(made) == model,
                Err(expected) => line matches Err(error) && error == expected,
            },
            None => line matches Err(error) && error == JavaParseError::NoMatch,
        },
{
    match java_parser::parse_java(parser, log) {
        Ok(line) => Ok(
            DefaultLogLine::new(
                line.timestamp,
                line.class,
                line.thread,
                line.verbosity,
                DefaultContent::construct(line.content),
            ),
        ),
        Err(error) => Err(error),
    }
}

} // verus!
