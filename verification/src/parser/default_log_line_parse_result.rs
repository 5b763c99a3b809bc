//! The plain result of parsing a log line: its fields and nothing else.

use crate::parser::field_map::FieldMap;
use crate::parser::log_line_parse_result::LogLineParseResult;
use vstd::prelude::*;

verus! {

/// The result of parsing a log line.
pub struct DefaultLogLineParseResult {
    pub content: FieldMap,
}

impl View for DefaultLogLineParseResult {
    type V = Map<Seq<char>, Seq<char>>;

    open spec fn view(&self) -> Map<Seq<char>, Seq<char>> {
        self.content@
    }
}

impl DefaultLogLineParseResult {
    pub fn new(content: FieldMap) -> (line: Self)
        ensures
            line.content == content,
    {
        DefaultLogLineParseResult { content }
    }
}

impl LogLineParseResult for DefaultLogLineParseResult {
    open spec fn fields(&self) -> Map<Seq<char>, Seq<char>> {
        self.content@
    }

    fn get_content(&self) -> (content: &FieldMap) {
        &self.content
    }

    fn get_field(&self, field: &str) -> (value: Option<&String>) {
        self.content.get(field)
    }
}

} // verus!
