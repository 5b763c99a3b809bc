//! A log line as the map of its parsed fields.

use crate::parser::field_map::FieldMap;
use vstd::prelude::*;

verus! {

pub trait LogLine {
    /// The fields of the line, by name.
    spec fn fields(&self) -> Map<Seq<char>, Seq<char>>;

    /// Get a reference to the map of parsed fields in this log line.
    fn get_content(&self) -> (content: &FieldMap)
        ensures
            content@ == self.fields(),
    ;

    /// Gets the value of a specific parsed field for this log line.
    fn get_field(&self, field: &str) -> (value: Option<&String>)
        ensures
            match value {
                Some(v) => self.fields().contains_key(field@) && self.fields()[field@] == v@,
                None => !self.fields().contains_key(field@),
            },
    ;
}

pub struct DefaultLogLine {
    pub content: FieldMap,
}

impl DefaultLogLine {
    pub fn new(content: FieldMap) -> (line: Self)
        ensures
            line.content == content,
    {
        DefaultLogLine { content }
    }
}

impl LogLine for DefaultLogLine {
    open spec fn fields(&self) -> Map<Seq<char>, Seq<char>> {
        self.content@
    }

    fn get_content(&self) -> (content: &FieldMap) {
        &self.content
    }

    fn get_field(&self, field: &str) -> (value: Option<&String>) {
        self.content.get(field)
    }
}

} // verus!
