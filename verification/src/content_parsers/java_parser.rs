//! Log lines in the layout of a common Java logging setup:
//! date, time, thread, class, verbosity, client and content.

use crate::content_parsers::log_line::LogLine;
use crate::content_parsers::timestamp::{timestamp_of_fields, Timestamp};
use crate::parser::field_map::FieldMap;
use crate::parser::log_line_parse_result::LogLineParseResult;
use crate::parser::parser::{ParseError, Parser};
use crate::parser::simple_parser::{extracted_fields, pattern_compiles, SimpleParser};
use crate::parsers::verbosity::{verbosity_of, Verbosity};
use vstd::prelude::*;

verus! {

/// The pattern of such a line.
pub const JAVA_LOG_REGEX: &'static str =
    r"(?P<year>\d{4})-(?P<month>\d{2})-(?P<day>\d{2})\s(?P<hour>\d{2}):(?P<minute>\d{2}):(?P<second>\d{2}).(?P<millisecond>\d{0,3})\s\[(?P<thread>[^\]]+)\]\s\[\]\s(?P<class>\w+)\s\[(?P<verbosity>\w+)\]\s\[(?P<client_id>[^\]]+)\]\s(?P<content>.*)";

/// Why a line is no log line of this layout.
#[derive(Debug, Clone, Copy, PartialEq, Eq)]
pub enum JavaParseError {
    /// The line does not match the pattern.
    NoMatch,
    /// The fields of the date and the time do not all spell numbers.
    MalformedTimestamp,
    /// One of the fields `verbosity`, `class`, `thread`, `content` is missing.
    MissingField,
    /// The field `verbosity` names no verbosity level.
    UnknownVerbosity,
}

/// A log line, with the texts that its strings hold.
pub struct LineModel {
    pub timestamp: Timestamp,
    pub class: Seq<char>,
    pub thread: Seq<char>,
    pub verbosity: Verbosity,
    pub content: Seq<char>,
}

impl View for LogLine {
    type V = LineModel;

    open spec fn view(&self) -> LineModel {
        LineModel {
            timestamp: self.timestamp,
            class: self.class@,
            thread: self.thread@,
            verbosity: self.verbosity,
            content: self.content@,
        }
    }
}

/// The log line that the fields of a matched line spell.
pub open spec fn line_of_fields(fields: Map<Seq<char>, Seq<char>>) -> Result<LineModel, JavaParseError> {
    if timestamp_of_fields(fields) is None {
        Err(JavaParseError::MalformedTimestamp)
    } else if !fields.contains_key("verbosity"@) || !fields.contains_key("class"@)
        || !fields.contains_key("thread"@) || !fields.contains_key("content"@) {
        Err(JavaParseError::MissingField)
    } else if verbosity_of(fields["verbosity"@]) is None {
        Err(JavaParseError::UnknownVerbosity)
    } else {
        Ok(
            LineModel {
                timestamp: timestamp_of_fields(fields)->0,
                class: fields["class"@],
                thread: fields["thread"@],
                verbosity: verbosity_of(fields["verbosity"@])->0,
                content: fields["content"@],
            },
        )
    }
}

/// Whether a log line, or the lack of one, is what the fields spell.
pub open spec fn line_matches(
    found: Result<LogLine, JavaParseError>,
    expected: Result<LineModel, JavaParseError>,
) -> bool {
    match (found, expected) {
        (Ok(line), Ok(model)) => line@ == model,
        (Err(error), Err(model)) => error == model,
        _ => false,
    }
}

/// The parser for lines of this layout.
pub fn java_parser() -> (made: Result<SimpleParser, ParseError>)
    ensures
        made is Ok <==> pattern_compiles(JAVA_LOG_REGEX@),
        made matches Ok(parser) ==> parser.line_format() == JAVA_LOG_REGEX@,
{
    SimpleParser::new("java", JAVA_LOG_REGEX)
}

/// Builds a log line from the fields of a matched line.
pub fn log_line_of_fields(fields: &FieldMap) -> (line: Result<LogLine, JavaParseError>)
    ensures
        line_matches(line, line_of_fields(fields@)),
{
    let timestamp = match Timestamp::read(fields) {
        Some(timestamp) => timestamp,
        None => {
            return Err(JavaParseError::MalformedTimestamp);
        },
    };
    match (fields.get("verbosity"), fields.get("class"), fields.get("thread"), fields.get("content")) {
        (Some(level), Some(class), Some(thread), Some(content)) => {
            match Verbosity::from_str(level.as_str()) {
                Ok(verbosity) => Ok(
                    LogLine::new(timestamp, class.clone(), thread.clone(), verbosity, content.clone()),
                ),
                Err(_) => Err(JavaParseError::UnknownVerbosity),
            }
        },
        _ => Err(JavaParseError::MissingField),
    }
}

/// Parses one line with a parser for lines of this layout.
pub fn parse_java(parser: &SimpleParser, log: &str) -> (line: Result<LogLine, JavaParseError>)
    ensures
        match parser.captures(log@) {
            Some(texts) => line_matches(
                line,
                line_of_fields(extracted_fields(parser.group_names(), texts)),
            ),
            None => line matches Err(error) && error == JavaParseError::NoMatch,
        },
{
    match parser.parse(log) {
        Ok(matched) => log_line_of_fields(matched.get_content()),
        Err(_) => Err(JavaParseError::NoMatch),
    }
}

} // verus!
