//! The description from which a parser is built.

use vstd::prelude::*;

verus! {

/// A named pattern with capture groups. Each named group of the pattern is a
/// field that a line may have.
pub struct ParserProfile {
    pub parser_name: String,
    pub line_format: String,
}

impl ParserProfile {
    pub fn new(parser_name: &str, line_format: &str) -> (profile: ParserProfile)
        ensures
            profile.parser_name@ == parser_name@,
            profile.line_format@ == line_format@,
    {
        ParserProfile { parser_name: parser_name.to_owned(), line_format: line_format.to_owned() }
    }

    /// The name of the parser that this profile defines.
    pub fn get_name(&self) -> (name: &str)
        ensures
            name@ == self.parser_name@,
    {
        self.parser_name.as_str()
    }
}

} // verus!
