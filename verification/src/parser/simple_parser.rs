//! A parser that applies one pattern with named capture groups to a line.

use crate::parser::default_log_line_parse_result::DefaultLogLineParseResult;
use crate::parser::field_map::FieldMap;
use crate::parser::parser::{ParseError, Parser};
use crate::parser::parser_profile::ParserProfile;
use vstd::prelude::*;

verus! {

/// `regex::Regex`: a compiled pattern. Nothing inside it is seen here.
#[verifier::external_type_specification]
#[verifier::external_body]
pub struct ExRegex(regex::Regex);

/// `regex::Error`: why a pattern did not compile. Nothing inside it is seen
/// here.
#[verifier::external_type_specification]
#[verifier::external_body]
pub struct ExRegexError(regex::Error);

/// Whether `regex::Regex::new` accepts the pattern.
pub uninterp spec fn pattern_compiles(pattern: Seq<char>) -> bool;

/// What `regex::Regex::capture_names` yields for a compiled pattern: for
/// each capture group, in the order of the opening brackets, its name if it
/// has one. The whole match comes first, as a group without a name.
pub uninterp spec fn regex_group_names(re: &regex::Regex) -> Seq<Option<Seq<char>>>;

/// What `regex::Regex::captures` finds in a line: nothing where the pattern
/// matches nowhere in it; else, for the leftmost match and for each capture
/// group in the same order, the text that the group matched, if it took part
/// in the match.
pub uninterp spec fn regex_captures(re: &regex::Regex, line: Seq<char>) -> Option<
    Seq<Option<Seq<char>>>,
>;

/// The texts of a list of strings that may be absent.
pub open spec fn option_texts(items: Seq<Option<String>>) -> Seq<Option<Seq<char>>> {
    Seq::new(
        items.len(),
        |i: int|
            match items[i] {
                Some(text) => Some(text@),
                None => None,
            },
    )
}

/// `regex::Regex::new`: compiles a pattern. Whether it succeeds depends on
/// the pattern alone.
#[verifier::external_body]
fn compile_pattern(pattern: &str) -> (compiled: Result<regex::Regex, regex::Error>)
    ensures
        compiled is Ok <==> pattern_compiles(pattern@),
{
    regex::Regex::new(pattern)
}

/// `regex::Regex::capture_names`: the names of the capture groups, copied
/// out in the order in which the iterator yields them.
#[verifier::external_body]
fn group_names_of(re: &regex::Regex) -> (names: Vec<Option<String>>)
    ensures
        option_texts(names@) == regex_group_names(re),
{
    let mut names = Vec::new();
    for name in re.capture_names() {
        names.push(name.map(String::from));
    }
    names
}

/// `regex::Regex::captures`, with `regex::Captures::iter` and
/// `regex::Match::as_str` to copy the text of each group out.
#[verifier::external_body]
fn captures_of(re: &regex::Regex, line: &str) -> (texts: Option<Vec<Option<String>>>)
    ensures
        match texts {
            Some(found) => regex_captures(re, line@) == Some(option_texts(found@)),
            None => regex_captures(re, line@) is None,
        },
{
    let captures = re.captures(line)?;
    let mut texts = Vec::new();
    for group in captures.iter() {
        texts.push(group.map(|found| String::from(found.as_str())));
    }
    Some(texts)
}

/// The fields that the first `n` capture groups give: a group gives a field
/// where it has a name and took part in the match.
pub open spec fn captured_fields(
    names: Seq<Option<Seq<char>>>,
    texts: Seq<Option<Seq<char>>>,
    n: nat,
) -> Map<Seq<char>, Seq<char>>
    decreases n,
{
    if n == 0 {
        Map::empty()
    } else {
        let before = captured_fields(names, texts, (n - 1) as nat);
        match (names[n - 1], texts[n - 1]) {
            (Some(name), Some(text)) => before.insert(name, text),
            _ => before,
        }
    }
}

/// The number of groups that have both a place in `names` and one in `texts`.
pub open spec fn paired(names: Seq<Option<Seq<char>>>, texts: Seq<Option<Seq<char>>>) -> nat {
    if names.len() <= texts.len() {
        names.len()
    } else {
        texts.len()
    }
}

/// The fields of a line whose capture groups, named `names`, matched `texts`.
pub open spec fn extracted_fields(
    names: Seq<Option<Seq<char>>>,
    texts: Seq<Option<Seq<char>>>,
) -> Map<Seq<char>, Seq<char>> {
    captured_fields(names, texts, paired(names, texts))
}

/// The names of the groups, among the first `n`, that have a name and took
/// part in the match.
pub open spec fn participating_names(
    names: Seq<Option<Seq<char>>>,
    texts: Seq<Option<Seq<char>>>,
    n: nat,
) -> Set<Seq<char>> {
    Set::new(
        |name: Seq<char>|
            exists|i: int|
                0 <= i < n && #[trigger] names[i] == Some(name) && texts[i] is Some,
    )
}

/// The fields of a line are named exactly as the named groups that took part
/// in the match.
pub proof fn lemma_field_names(names: Seq<Option<Seq<char>>>, texts: Seq<Option<Seq<char>>>, n: nat)
    requires
        n <= names.len(),
        n <= texts.len(),
    ensures
        captured_fields(names, texts, n).dom() == participating_names(names, texts, n),
    decreases n,
{
    if n == 0 {
        assert(captured_fields(names, texts, n).dom() =~= participating_names(names, texts, n));
    } else {
        let m = (n - 1) as nat;
        lemma_field_names(names, texts, m);
        assert forall|name: Seq<char>|
            captured_fields(names, texts, n).dom().contains(name) <==> participating_names(
                names,
                texts,
                n,
            ).contains(name) by {
            if participating_names(names, texts, n).contains(name) {
                let i = choose|i: int|
                    0 <= i < n && #[trigger] names[i] == Some(name) && texts[i] is Some;
                if i < m {
                    assert(participating_names(names, texts, m).contains(name));
                }
            }
            if captured_fields(names, texts, m).dom().contains(name) {
                let i = choose|i: int|
                    0 <= i < m && #[trigger] names[i] == Some(name) && texts[i] is Some;
                assert(0 <= i < n && names[i] == Some(name) && texts[i] is Some);
            }
            if names[n - 1] == Some(name) && texts[n - 1] is Some {
                assert(participating_names(names, texts, n).contains(name));
            }
        }
        assert(captured_fields(names, texts, n).dom() =~= participating_names(names, texts, n));
    }
}

/// A field has the text of the last group of its name that took part in the
/// match.
pub proof fn lemma_field_value(
    names: Seq<Option<Seq<char>>>,
    texts: Seq<Option<Seq<char>>>,
    n: nat,
    i: int,
)
    requires
        n <= names.len(),
        n <= texts.len(),
        0 <= i < n,
        names[i] is Some,
        texts[i] is Some,
        forall|j: int| i < j < n && texts[j] is Some ==> names[j] != names[i],
    ensures
        captured_fields(names, texts, n).contains_key(names[i]->0),
        captured_fields(names, texts, n)[names[i]->0] == texts[i]->0,
    decreases n,
{
    if i < n - 1 {
        lemma_field_value(names, texts, (n - 1) as nat, i);
    }
}

/// Collects the fields of a line from the names of the capture groups and
/// the texts that the groups matched.
pub fn collect_fields(names: &Vec<Option<String>>, texts: &Vec<Option<String>>) -> (fields: FieldMap)
    ensures
        fields@ == extracted_fields(option_texts(names@), option_texts(texts@)),
{
    let count = if names.len() <= texts.len() {
        names.len()
    } else {
        texts.len()
    };
    let mut fields = FieldMap::new();
    let mut i: usize = 0;
    while i < count
        invariant
            i <= count,
            count == paired(option_texts(names@), option_texts(texts@)),
            count <= names@.len(),
            count <= texts@.len(),
            fields@ == captured_fields(option_texts(names@), option_texts(texts@), i as nat),
        decreases count - i,
    {
        match (&names[i], &texts[i]) {
            (Some(name), Some(text)) => {
                fields.insert(name.clone(), text.clone());
            },
            _ => {},
        }
        i += 1;
    }
    fields
}

/// A parser made of a profile and the compiled form of the profile's
/// pattern, with the names of the pattern's capture groups.
pub struct SimpleParser {
    profile: ParserProfile,
    compiled_line_regex: regex::Regex,
    names: Vec<Option<String>>,
}

impl SimpleParser {
    #[verifier::type_invariant]
    spec fn names_are_those_of_the_pattern(self) -> bool {
        option_texts(self.names@) == regex_group_names(&self.compiled_line_regex)
    }

    /// The names of the capture groups of the pattern.
    pub closed spec fn group_names(&self) -> Seq<Option<Seq<char>>> {
        regex_group_names(&self.compiled_line_regex)
    }

    /// What the capture groups match in a line, if the line matches.
    pub closed spec fn captures(&self, line: Seq<char>) -> Option<Seq<Option<Seq<char>>>> {
        regex_captures(&self.compiled_line_regex, line)
    }

    /// The name of the profile that the parser was made from.
    pub closed spec fn name(&self) -> Seq<char> {
        self.profile.parser_name@
    }

    /// The pattern that the parser was made from.
    pub closed spec fn line_format(&self) -> Seq<char> {
        self.profile.line_format@
    }

    /// Create a new parser with the given name and pattern.
    pub fn new(profile_name: &str, regex_str: &str) -> (made: Result<Self, ParseError>)
        ensures
            match made {
                Ok(parser) => pattern_compiles(regex_str@) && parser.name() == profile_name@
                    && parser.line_format() == regex_str@,
                Err(error) => !pattern_compiles(regex_str@) && error
                    == ParseError::PatternCompileError,
            },
    {
        match compile_pattern(regex_str) {
            Ok(compiled_line_regex) => {
                let names = group_names_of(&compiled_line_regex);
                Ok(
                    SimpleParser {
                        profile: ParserProfile::new(profile_name, regex_str),
                        compiled_line_regex,
                        names,
                    },
                )
            },
            Err(_) => Err(ParseError::PatternCompileError),
        }
    }

    pub fn from_profile(profile: ParserProfile) -> (made: Result<Self, ParseError>)
        ensures
            match made {
                Ok(parser) => pattern_compiles(profile.line_format@) && parser.name()
                    == profile.parser_name@ && parser.line_format() == profile.line_format@,
                Err(error) => !pattern_compiles(profile.line_format@) && error
                    == ParseError::PatternCompileError,
            },
    {
        Self::new(profile.parser_name.as_str(), profile.line_format.as_str())
    }
}

impl Parser for SimpleParser {
    type ParserResult = DefaultLogLineParseResult;

    /// Parse a single log line into its fields: one for each named capture
    /// group that took part in the match.
    fn parse(&self, log: &str) -> (parsed: Result<Box<DefaultLogLineParseResult>, ParseError>)
        ensures
            match self.captures(log@) {
                Some(texts) => parsed matches Ok(line) && line@ == extracted_fields(
                    self.group_names(),
                    texts,
                ) && line@.dom() == participating_names(
                    self.group_names(),
                    texts,
                    paired(self.group_names(), texts),
                ),
                None => parsed == Err::<Box<DefaultLogLineParseResult>, ParseError>(
                    ParseError::NoMatch,
                ),
            },
    {
        proof {
            use_type_invariant(self);
        }
        let texts = match captures_of(&self.compiled_line_regex, log) {
            Some(texts) => texts,
            None => {
                return Err(ParseError::NoMatch);
            },
        };
        proof {
            lemma_extracted_field_names(self.group_names(), option_texts(texts@));
        }
        Ok(Box::new(DefaultLogLineParseResult::new(collect_fields(&self.names, &texts))))
    }

    fn get_name(&self) -> (name: &str)
        ensures
            name@ == self.name(),
    {
        self.profile.get_name()
    }
}

/// The fields of a parsed line are named exactly as the named groups of the
/// pattern that took part in the match.
pub proof fn lemma_extracted_field_names(
    names: Seq<Option<Seq<char>>>,
    texts: Seq<Option<Seq<char>>>,
)
    ensures
        extracted_fields(names, texts).dom() == participating_names(
            names,
            texts,
            paired(names, texts),
        ),
{
    lemma_field_names(names, texts, paired(names, texts));
}

} // verus!
