//! What every parsed log line offers.

use crate::parser::field_map::FieldMap;
use vstd::prelude::*;

verus! {

/// The result of parsing one log line.
pub trait LogLineParseResult {
    /// The fields of the line, by name.
    spec fn fields(&self) -> Map<Seq<char>, Seq<char>>;

    /// The fields that were parsed from the line.
    fn get_content(&self) -> (content: &FieldMap)
        ensures
            content@ == self.fields(),
    ;

    /// The value of one parsed field, if the line has it.
    fn get_field(&self, field: &str) -> (value: Option<&String>)
        ensures
            match value {
                Some(v) => self.fields().contains_key(field@) && self.fields()[field@] == v@,
                None => !self.fields().contains_key(field@),
            },
    ;
}

} // verus!
