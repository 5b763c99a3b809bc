//! The grammar of queries and the trees it yields.
//!
//! ```text
//! query       := expression
//! expression  := term ( "||" expression )?
//! term        := atom ( "&&" term )?
//! atom        := key "=" '"' value '"'
//! ```
//!
//! A key runs up to the next `=`. A value runs up to the next quote that no
//! backslash escapes. Blanks may stand before and after an operator.

use vstd::prelude::*;
use vstd::slice::*;
use vstd::utf8::*;

verus! {

/// A relationship that a key must have to a value.
#[derive(Debug, Eq, PartialEq, Clone)]
pub struct QueryAtom<B> {
    pub query_key: B,
    pub query_constraint: QueryConstraint,
    pub query_value: B,
}

/// The relationship between the key and the value of an atom.
#[derive(Debug, Eq, PartialEq, Clone)]
pub enum QueryConstraint {
    EQ,
}

#[derive(Debug, Eq, PartialEq, Clone)]
pub enum QueryOpTerm {
    AND,
}

#[derive(Debug, Eq, PartialEq, Clone)]
pub enum QueryOpExpression {
    OR,
}

/// A chain of atoms joined by `&&`, nested to the right.
#[derive(Debug, Eq, PartialEq)]
pub enum QueryTerm<T> {
    Unary(QueryAtom<T>),
    Binary(QueryAtom<T>, QueryOpTerm, Box<QueryTerm<T>>),
}

/// A chain of terms joined by `||`, nested to the right.
#[derive(Debug, Eq, PartialEq)]
pub enum QueryExpression<T> {
    Unary(QueryTerm<T>),
    Binary(QueryTerm<T>, QueryOpExpression, Box<QueryExpression<T>>),
}

/// The tree of a whole query.
#[derive(Debug, Eq, PartialEq)]
pub struct Query<T> {
    pub tree: QueryExpression<T>,
}

/// Why a text is no query.
#[derive(Debug, Eq, PartialEq, Clone, Copy)]
pub enum QuerySyntaxReason {
    /// A key runs to the end of the input: no `=` follows it. The position
    /// is that of the key.
    MissingEquals,
    /// An `=` stands where a key should begin. The position is that of the
    /// `=`.
    EmptyKey,
    /// No quote opens the value after `=`. The position is the one behind
    /// the `=`.
    MissingQuote,
    /// No quote closes the value. The position is that of the quote that
    /// opens it.
    UnterminatedValue,
    /// A `&` or `|` that is no `&&` or `||` stands behind a complete
    /// expression. The position is that of the symbol.
    MalformedOperator,
    /// Something else is left behind a complete expression. The position is
    /// the one behind the expression.
    TrailingInput,
}

/// A text that is no query: where it goes wrong, counted in bytes, and why.
#[derive(Debug, Eq, PartialEq, Clone, Copy)]
pub struct QuerySyntaxError {
    pub position: usize,
    pub reason: QuerySyntaxReason,
}

impl<B: View> View for QueryAtom<B> {
    type V = QueryAtom<B::V>;

    open spec fn view(&self) -> QueryAtom<B::V> {
        QueryAtom {
            query_key: self.query_key@,
            query_constraint: self.query_constraint,
            query_value: self.query_value@,
        }
    }
}

/// The tree of byte strings that a term stands for.
pub open spec fn term_view<T: View>(term: QueryTerm<T>) -> QueryTerm<T::V>
    decreases term,
{
    match term {
        QueryTerm::Unary(atom) => QueryTerm::Unary(atom@),
        QueryTerm::Binary(atom, op, rest) => QueryTerm::Binary(atom@, op, Box::new(term_view(*rest))),
    }
}

/// The tree of byte strings that an expression stands for.
pub open spec fn expression_view<T: View>(expression: QueryExpression<T>) -> QueryExpression<T::V>
    decreases expression,
{
    match expression {
        QueryExpression::Unary(term) => QueryExpression::Unary(term_view(term)),
        QueryExpression::Binary(term, op, rest) => QueryExpression::Binary(
            term_view(term),
            op,
            Box::new(expression_view(*rest)),
        ),
    }
}

impl<T: View> View for QueryTerm<T> {
    type V = QueryTerm<T::V>;

    open spec fn view(&self) -> QueryTerm<T::V> {
        term_view(*self)
    }
}

impl<T: View> View for QueryExpression<T> {
    type V = QueryExpression<T::V>;

    open spec fn view(&self) -> QueryExpression<T::V> {
        expression_view(*self)
    }
}

impl<T: View> View for Query<T> {
    type V = Query<T::V>;

    open spec fn view(&self) -> Query<T::V> {
        Query { tree: self.tree@ }
    }
}

/// `=`
pub const EQUALS: u8 = 61;

/// `"`
pub const QUOTE: u8 = 34;

/// `\`
pub const BACKSLASH: u8 = 92;

/// `&`
pub const AMPERSAND: u8 = 38;

/// `|`
pub const BAR: u8 = 124;

/// Blank, tab, line feed, vertical tab, form feed and carriage return.
pub open spec fn is_space(byte: u8) -> bool {
    9 <= byte <= 13 || byte == 32
}

/// The error with this reason at this position.
pub open spec fn syntax_error(position: int, reason: QuerySyntaxReason) -> QuerySyntaxError {
    QuerySyntaxError { position: position as usize, reason }
}

/// The place of the first `=` at or after `p`, or the length of `s` without one.
pub open spec fn find_equals(s: Seq<u8>, p: int) -> int
    decreases s.len() - p,
{
    if p < 0 || p >= s.len() {
        s.len() as int
    } else if s[p] == EQUALS {
        p
    } else {
        find_equals(s, p + 1)
    }
}

/// The place of the quote that closes a value whose remainder begins at `p`,
/// or the length of `s` without one. After a backslash the next byte is
/// `escaped`: it closes nothing and escapes nothing.
pub open spec fn value_end(s: Seq<u8>, p: int, escaped: bool) -> int
    decreases s.len() - p,
{
    if p < 0 || p >= s.len() {
        s.len() as int
    } else if escaped {
        value_end(s, p + 1, false)
    } else if s[p] == QUOTE {
        p
    } else {
        value_end(s, p + 1, s[p] == BACKSLASH)
    }
}

/// The first place at or after `p` that holds no blank.
pub open spec fn skip_spaces(s: Seq<u8>, p: int) -> int
    decreases s.len() - p,
{
    if p < 0 || p >= s.len() {
        s.len() as int
    } else if is_space(s[p]) {
        skip_spaces(s, p + 1)
    } else {
        p
    }
}

/// Whether the two bytes at `p` are both `symbol`.
pub open spec fn doubled_at(s: Seq<u8>, p: int, symbol: u8) -> bool {
    0 <= p && p + 2 <= s.len() && s[p] == symbol && s[p + 1] == symbol
}

/// The atom that begins at `p`, and the place after it.
pub open spec fn parse_atom(s: Seq<u8>, p: int) -> Result<(QueryAtom<Seq<u8>>, int), QuerySyntaxError> {
    let e = find_equals(s, p);
    let v = value_end(s, e + 2, false);
    if e >= s.len() {
        Err(syntax_error(p, QuerySyntaxReason::MissingEquals))
    } else if e == p {
        Err(syntax_error(p, QuerySyntaxReason::EmptyKey))
    } else if e + 1 >= s.len() || s[e + 1] != QUOTE {
        Err(syntax_error(e + 1, QuerySyntaxReason::MissingQuote))
    } else if v >= s.len() {
        Err(syntax_error(e + 1, QuerySyntaxReason::UnterminatedValue))
    } else {
        Ok(
            (
                QueryAtom {
                    query_key: s.subrange(p, e),
                    query_constraint: QueryConstraint::EQ,
                    query_value: s.subrange(e + 2, v),
                },
                v + 1,
            ),
        )
    }
}

/// The term that begins at `p`, and the place after it. Where `&&` follows
/// the first atom, the term goes on behind it, and fails where that fails.
pub open spec fn parse_term(s: Seq<u8>, p: int) -> Result<(QueryTerm<Seq<u8>>, int), QuerySyntaxError>
    decreases s.len() - p,
{
    match parse_atom(s, p) {
        Err(error) => Err(error),
        Ok((atom, q)) => {
            let w = skip_spaces(s, q);
            if 0 <= p && doubled_at(s, w, AMPERSAND) {
                proof {
                    lemma_atom_bounds(s, p);
                    lemma_skip_spaces_bounds(s, q);
                    lemma_skip_spaces_bounds(s, w + 2);
                }
                match parse_term(s, skip_spaces(s, w + 2)) {
                    Err(error) => Err(error),
                    Ok((rest, r)) => Ok((QueryTerm::Binary(atom, QueryOpTerm::AND, Box::new(rest)), r)),
                }
            } else {
                Ok((QueryTerm::Unary(atom), q))
            }
        },
    }
}

/// The expression that begins at `p`, and the place after it. A term takes
/// its whole `&&` chain before any `||` is looked for.
pub open spec fn parse_expression(s: Seq<u8>, p: int) -> Result<
    (QueryExpression<Seq<u8>>, int),
    QuerySyntaxError,
>
    decreases s.len() - p,
{
    match parse_term(s, p) {
        Err(error) => Err(error),
        Ok((term, q)) => {
            let w = skip_spaces(s, q);
            if 0 <= p && doubled_at(s, w, BAR) {
                proof {
                    lemma_term_bounds(s, p);
                    lemma_skip_spaces_bounds(s, q);
                    lemma_skip_spaces_bounds(s, w + 2);
                }
                match parse_expression(s, skip_spaces(s, w + 2)) {
                    Err(error) => Err(error),
                    Ok((rest, r)) => Ok(
                        (QueryExpression::Binary(term, QueryOpExpression::OR, Box::new(rest)), r),
                    ),
                }
            } else {
                Ok((QueryExpression::Unary(term), q))
            }
        },
    }
}

/// The query that `s` spells as a whole, or the first thing wrong with it.
pub open spec fn parse_input(s: Seq<u8>) -> Result<Query<Seq<u8>>, QuerySyntaxError> {
    match parse_expression(s, 0) {
        Err(error) => Err(error),
        Ok((tree, q)) => {
            let w = skip_spaces(s, q);
            if q == s.len() {
                Ok(Query { tree })
            } else if w < s.len() && (s[w] == AMPERSAND || s[w] == BAR) {
                Err(syntax_error(w, QuerySyntaxReason::MalformedOperator))
            } else {
                Err(syntax_error(q, QuerySyntaxReason::TrailingInput))
            }
        },
    }
}

pub proof fn lemma_find_equals_bounds(s: Seq<u8>, p: int)
    requires
        0 <= p <= s.len(),
    ensures
        p <= find_equals(s, p) <= s.len(),
        find_equals(s, p) < s.len() ==> s[find_equals(s, p)] == EQUALS,
    decreases s.len() - p,
{
    if p < s.len() && s[p] != EQUALS {
        lemma_find_equals_bounds(s, p + 1);
    }
}

pub proof fn lemma_value_end_bounds(s: Seq<u8>, p: int, escaped: bool)
    requires
        0 <= p <= s.len(),
    ensures
        p <= value_end(s, p, escaped) <= s.len(),
        value_end(s, p, escaped) < s.len() ==> s[value_end(s, p, escaped)] == QUOTE,
    decreases s.len() - p,
{
    if p < s.len() {
        if escaped {
            lemma_value_end_bounds(s, p + 1, false);
        } else if s[p] != QUOTE {
            lemma_value_end_bounds(s, p + 1, s[p] == BACKSLASH);
        }
    }
}

pub proof fn lemma_skip_spaces_bounds(s: Seq<u8>, p: int)
    requires
        0 <= p <= s.len(),
    ensures
        p <= skip_spaces(s, p) <= s.len(),
        p < skip_spaces(s, p) ==> is_space(s[skip_spaces(s, p) - 1]),
    decreases s.len() - p,
{
    if p < s.len() && is_space(s[p]) {
        lemma_skip_spaces_bounds(s, p + 1);
    }
}

/// An atom is not empty, and ends with its closing quote.
pub proof fn lemma_atom_bounds(s: Seq<u8>, p: int)
    requires
        0 <= p,
    ensures
        match parse_atom(s, p) {
            Ok((atom, q)) => p + 4 <= q <= s.len() && s[q - 1] == QUOTE,
            Err(error) => true,
        },
{
    if p <= s.len() {
        lemma_find_equals_bounds(s, p);
        let e = find_equals(s, p);
        if e + 2 <= s.len() {
            lemma_value_end_bounds(s, e + 2, false);
        }
    }
}

/// A term is not empty, and ends with a closing quote.
pub proof fn lemma_term_bounds(s: Seq<u8>, p: int)
    requires
        0 <= p,
    ensures
        match parse_term(s, p) {
            Ok((term, q)) => p + 4 <= q <= s.len() && s[q - 1] == QUOTE,
            Err(error) => true,
        },
    decreases s.len() - p,
{
    lemma_atom_bounds(s, p);
    match parse_atom(s, p) {
        Err(error) => {},
        Ok((atom, q)) => {
            let w = skip_spaces(s, q);
            lemma_skip_spaces_bounds(s, q);
            if doubled_at(s, w, AMPERSAND) {
                lemma_skip_spaces_bounds(s, w + 2);
                lemma_term_bounds(s, skip_spaces(s, w + 2));
            }
        },
    }
}

/// An expression is not empty, and ends with a closing quote.
pub proof fn lemma_expression_bounds(s: Seq<u8>, p: int)
    requires
        0 <= p,
    ensures
        match parse_expression(s, p) {
            Ok((expression, q)) => p + 4 <= q <= s.len() && s[q - 1] == QUOTE,
            Err(error) => true,
        },
    decreases s.len() - p,
{
    lemma_term_bounds(s, p);
    match parse_term(s, p) {
        Err(error) => {},
        Ok((term, q)) => {
            let w = skip_spaces(s, q);
            lemma_skip_spaces_bounds(s, q);
            if doubled_at(s, w, BAR) {
                lemma_skip_spaces_bounds(s, w + 2);
                lemma_expression_bounds(s, skip_spaces(s, w + 2));
            }
        },
    }
}

/// Whether one step of parsing found what the grammar gives: the same tree
/// and the same place after it, or the same error.
pub open spec fn step_matches<T: View>(
    found: Result<(T, usize), QuerySyntaxError>,
    expected: Result<(T::V, int), QuerySyntaxError>,
) -> bool {
    match (found, expected) {
        (Ok((tree, end)), Ok((model, place))) => tree@ == model && end == place,
        (Err(error), Err(model)) => error == model,
        _ => false,
    }
}

/// Whether parsing a whole input found what the grammar gives.
pub open spec fn outcome_matches<T: View>(
    found: Result<T, QuerySyntaxError>,
    expected: Result<T::V, QuerySyntaxError>,
) -> bool {
    match (found, expected) {
        (Ok(tree), Ok(model)) => tree@ == model,
        (Err(error), Err(model)) => error == model,
        _ => false,
    }
}

pub fn is_whitespace(byte: u8) -> (blank: bool)
    ensures
        blank == is_space(byte),
{
    (9 <= byte && byte <= 13) || byte == 32
}

/// Skips the blanks at `p`.
pub fn skip_whitespace(s: &[u8], p: usize) -> (w: usize)
    requires
        p <= s@.len(),
    ensures
        w == skip_spaces(s@, p as int),
        p <= w <= s@.len(),
{
    let mut i: usize = p;
    while i < s.len() && is_whitespace(s[i])
        invariant
            p <= i <= s@.len(),
            skip_spaces(s@, p as int) == skip_spaces(s@, i as int),
        decreases s@.len() - i,
    {
        i += 1;
    }
    i
}

/// Runs over a key: up to the next `=`.
fn scan_key(s: &[u8], p: usize) -> (e: usize)
    requires
        p <= s@.len(),
    ensures
        e == find_equals(s@, p as int),
        p <= e <= s@.len(),
        e < s@.len() ==> s@[e as int] == EQUALS,
{
    let mut i: usize = p;
    while i < s.len() && s[i] != EQUALS
        invariant
            p <= i <= s@.len(),
            find_equals(s@, p as int) == find_equals(s@, i as int),
        decreases s@.len() - i,
    {
        i += 1;
    }
    i
}

/// Runs over a value: up to the next quote that no backslash escapes.
fn scan_value(s: &[u8], p: usize) -> (v: usize)
    requires
        p <= s@.len(),
    ensures
        v == value_end(s@, p as int, false),
        p <= v <= s@.len(),
{
    let mut i: usize = p;
    let mut escaped = false;
    while i < s.len()
        invariant
            p <= i <= s@.len(),
            value_end(s@, p as int, false) == value_end(s@, i as int, escaped),
        decreases s@.len() - i,
    {
        if escaped {
            escaped = false;
        } else if s[i] == QUOTE {
            return i;
        } else {
            escaped = s[i] == BACKSLASH;
        }
        i += 1;
    }
    i
}

/// Reads the relationship `=` at `p`.
pub fn query_constraint(s: &[u8], p: usize) -> (found: Result<
    (QueryConstraint, usize),
    QuerySyntaxError,
>)
    requires
        p <= s@.len(),
    ensures
        match found {
            Ok((relationship, end)) => p < s@.len() && s@[p as int] == EQUALS && relationship
                == QueryConstraint::EQ && end == p + 1,
            Err(error) => !(p < s@.len() && s@[p as int] == EQUALS) && error == syntax_error(
                p as int,
                QuerySyntaxReason::MissingEquals,
            ),
        },
{
    if p < s.len() && s[p] == EQUALS {
        Ok((QueryConstraint::EQ, p + 1))
    } else {
        Err(QuerySyntaxError { position: p, reason: QuerySyntaxReason::MissingEquals })
    }
}

/// Reads the atom `key="value"` that begins at `p`.
pub fn query_atom<'a>(s: &'a [u8], p: usize) -> (found: Result<
    (QueryAtom<&'a [u8]>, usize),
    QuerySyntaxError,
>)
    requires
        p <= s@.len(),
    ensures
        step_matches(found, parse_atom(s@, p as int)),
{
    let e = scan_key(s, p);
    let (query_constraint, opening) = match query_constraint(s, e) {
        Ok(found) => found,
        Err(_) => {
            return Err(QuerySyntaxError { position: p, reason: QuerySyntaxReason::MissingEquals });
        },
    };
    if e == p {
        return Err(QuerySyntaxError { position: p, reason: QuerySyntaxReason::EmptyKey });
    }
    if opening >= s.len() || s[opening] != QUOTE {
        return Err(QuerySyntaxError { position: opening, reason: QuerySyntaxReason::MissingQuote });
    }
    let v = scan_value(s, opening + 1);
    if v >= s.len() {
        return Err(
            QuerySyntaxError { position: opening, reason: QuerySyntaxReason::UnterminatedValue },
        );
    }
    let atom = QueryAtom {
        query_key: slice_subrange(s, p, e),
        query_constraint,
        query_value: slice_subrange(s, opening + 1, v),
    };
    Ok((atom, v + 1))
}

/// Reads the operator `&&` at `p`.
pub fn query_op_term(s: &[u8], p: usize) -> (found: Result<(QueryOpTerm, usize), QuerySyntaxError>)
    requires
        p <= s@.len(),
    ensures
        match found {
            Ok((op, end)) => doubled_at(s@, p as int, AMPERSAND) && op == QueryOpTerm::AND && end
                == p + 2,
            Err(error) => !doubled_at(s@, p as int, AMPERSAND) && error == syntax_error(
                p as int,
                QuerySyntaxReason::MalformedOperator,
            ),
        },
{
    if s.len() - p >= 2 && s[p] == AMPERSAND && s[p + 1] == AMPERSAND {
        Ok((QueryOpTerm::AND, p + 2))
    } else {
        Err(QuerySyntaxError { position: p, reason: QuerySyntaxReason::MalformedOperator })
    }
}

/// Reads the operator `||` at `p`.
pub fn query_op_expression(s: &[u8], p: usize) -> (found: Result<
    (QueryOpExpression, usize),
    QuerySyntaxError,
>)
    requires
        p <= s@.len(),
    ensures
        match found {
            Ok((op, end)) => doubled_at(s@, p as int, BAR) && op == QueryOpExpression::OR && end == p
                + 2,
            Err(error) => !doubled_at(s@, p as int, BAR) && error == syntax_error(
                p as int,
                QuerySyntaxReason::MalformedOperator,
            ),
        },
{
    if s.len() - p >= 2 && s[p] == BAR && s[p + 1] == BAR {
        Ok((QueryOpExpression::OR, p + 2))
    } else {
        Err(QuerySyntaxError { position: p, reason: QuerySyntaxReason::MalformedOperator })
    }
}

/// Reads the term that begins at `p`: an atom, and behind `&&` the rest of
/// the term.
pub fn query_term<'a>(s: &'a [u8], p: usize) -> (found: Result<
    (QueryTerm<&'a [u8]>, usize),
    QuerySyntaxError,
>)
    requires
        p <= s@.len(),
    ensures
        step_matches(found, parse_term(s@, p as int)),
    decreases s@.len() - p,
{
    match query_atom(s, p) {
        Err(error) => Err(error),
        Ok((atom, q)) => {
            proof {
                lemma_atom_bounds(s@, p as int);
            }
            let w = skip_whitespace(s, q);
            match query_op_term(s, w) {
                Err(_) => Ok((QueryTerm::Unary(atom), q)),
                Ok((op, after)) => {
                    let next = skip_whitespace(s, after);
                    match query_term(s, next) {
                        Err(error) => Err(error),
                        Ok((rest, end)) => Ok((QueryTerm::Binary(atom, op, Box::new(rest)), end)),
                    }
                },
            }
        },
    }
}

/// Reads the expression that begins at `p`: a term, and behind `||` the rest
/// of the expression.
pub fn query_expression<'a>(s: &'a [u8], p: usize) -> (found: Result<
    (QueryExpression<&'a [u8]>, usize),
    QuerySyntaxError,
>)
    requires
        p <= s@.len(),
    ensures
        step_matches(found, parse_expression(s@, p as int)),
    decreases s@.len() - p,
{
    match query_term(s, p) {
        Err(error) => Err(error),
        Ok((term, q)) => {
            proof {
                lemma_term_bounds(s@, p as int);
            }
            let w = skip_whitespace(s, q);
            match query_op_expression(s, w) {
                Err(_) => Ok((QueryExpression::Unary(term), q)),
                Ok((op, after)) => {
                    let next = skip_whitespace(s, after);
                    match query_expression(s, next) {
                        Err(error) => Err(error),
                        Ok((rest, end)) => Ok(
                            (QueryExpression::Binary(term, op, Box::new(rest)), end),
                        ),
                    }
                },
            }
        },
    }
}

/// Reads `s` as one query. Nothing may follow the expression.
pub fn query<'a>(s: &'a [u8]) -> (found: Result<Query<&'a [u8]>, QuerySyntaxError>)
    ensures
        outcome_matches(found, parse_input(s@)),
{
    match query_expression(s, 0) {
        Err(error) => Err(error),
        Ok((tree, q)) => {
            proof {
                lemma_expression_bounds(s@, 0);
            }
            if q == s.len() {
                return Ok(Query { tree });
            }
            let w = skip_whitespace(s, q);
            if w < s.len() && (s[w] == AMPERSAND || s[w] == BAR) {
                Err(QuerySyntaxError { position: w, reason: QuerySyntaxReason::MalformedOperator })
            } else {
                Err(QuerySyntaxError { position: q, reason: QuerySyntaxReason::TrailingInput })
            }
        },
    }
}

/// Whether a piece of text can begin at `p`: at the start of the input, or
/// behind a byte that is a character of its own.
pub open spec fn text_begins(s: Seq<u8>, p: int) -> bool {
    p == 0 || (0 < p <= s.len() && s[p - 1] < 0x80)
}

/// Whether the key and the value of an atom are well-formed UTF-8.
pub open spec fn atom_is_text(atom: QueryAtom<Seq<u8>>) -> bool {
    valid_utf8(atom.query_key) && valid_utf8(atom.query_value)
}

/// Whether every key and value of a term is well-formed UTF-8.
pub open spec fn term_is_text(term: QueryTerm<Seq<u8>>) -> bool
    decreases term,
{
    match term {
        QueryTerm::Unary(atom) => atom_is_text(atom),
        QueryTerm::Binary(atom, op, rest) => atom_is_text(atom) && term_is_text(*rest),
    }
}

/// Whether every key and value of an expression is well-formed UTF-8.
pub open spec fn expression_is_text(expression: QueryExpression<Seq<u8>>) -> bool
    decreases expression,
{
    match expression {
        QueryExpression::Unary(term) => term_is_text(term),
        QueryExpression::Binary(term, op, rest) => term_is_text(term) && expression_is_text(*rest),
    }
}

/// Whether every key and value of a query is well-formed UTF-8.
pub open spec fn query_is_text(parsed: Query<Seq<u8>>) -> bool {
    expression_is_text(parsed.tree)
}

/// In well-formed UTF-8, what stands between two bytes that are characters
/// of their own is well-formed UTF-8 too.
pub proof fn lemma_text_between(s: Seq<u8>, i: int, j: int)
    requires
        valid_utf8(s),
        text_begins(s, i),
        0 <= i <= j < s.len(),
        s[j] < 0x80,
    ensures
        valid_utf8(s.subrange(i, j)),
{
    let tail = s.subrange(i, s.len() as int);
    assert(valid_utf8(tail)) by {
        if i == 0 {
            assert(tail =~= s);
        } else {
            is_char_boundary_iff_not_is_continuation_byte(s, i - 1);
            valid_utf8_split(s, i - 1);
            let from_before = s.subrange(i - 1, s.len() as int);
            assert(from_before[0] == s[i - 1]);
            assert(length_of_first_scalar(from_before) == 1);
            assert(pop_first_scalar(from_before) =~= tail);
        }
    }
    assert(tail[j - i] == s[j]);
    is_char_boundary_iff_not_is_continuation_byte(tail, j - i);
    valid_utf8_split(tail, j - i);
    assert(tail.subrange(0, j - i) =~= s.subrange(i, j));
}

/// The key and the value of an atom read from well-formed UTF-8 are
/// well-formed UTF-8.
pub proof fn lemma_atom_is_text(s: Seq<u8>, p: int)
    requires
        valid_utf8(s),
        text_begins(s, p),
        0 <= p,
    ensures
        match parse_atom(s, p) {
            Ok((atom, q)) => atom_is_text(atom),
            Err(error) => true,
        },
{
    if p <= s.len() {
        lemma_find_equals_bounds(s, p);
        let e = find_equals(s, p);
        if e + 2 <= s.len() && s[e + 1] == QUOTE {
            lemma_value_end_bounds(s, e + 2, false);
            let v = value_end(s, e + 2, false);
            if v < s.len() {
                lemma_text_between(s, p, e);
                lemma_text_between(s, e + 2, v);
            }
        }
    }
}

/// Every key and value of a term read from well-formed UTF-8 is well-formed
/// UTF-8.
pub proof fn lemma_term_is_text(s: Seq<u8>, p: int)
    requires
        valid_utf8(s),
        text_begins(s, p),
        0 <= p,
    ensures
        match parse_term(s, p) {
            Ok((term, q)) => term_is_text(term),
            Err(error) => true,
        },
    decreases s.len() - p,
{
    lemma_atom_bounds(s, p);
    lemma_atom_is_text(s, p);
    match parse_atom(s, p) {
        Err(error) => {},
        Ok((atom, q)) => {
            let w = skip_spaces(s, q);
            lemma_skip_spaces_bounds(s, q);
            if doubled_at(s, w, AMPERSAND) {
                lemma_skip_spaces_bounds(s, w + 2);
                lemma_term_is_text(s, skip_spaces(s, w + 2));
            }
        },
    }
}

/// Every key and value of an expression read from well-formed UTF-8 is
/// well-formed UTF-8.
pub proof fn lemma_expression_is_text(s: Seq<u8>, p: int)
    requires
        valid_utf8(s),
        text_begins(s, p),
        0 <= p,
    ensures
        match parse_expression(s, p) {
            Ok((expression, q)) => expression_is_text(expression),
            Err(error) => true,
        },
    decreases s.len() - p,
{
    lemma_term_bounds(s, p);
    lemma_term_is_text(s, p);
    match parse_term(s, p) {
        Err(error) => {},
        Ok((term, q)) => {
            let w = skip_spaces(s, q);
            lemma_skip_spaces_bounds(s, q);
            if doubled_at(s, w, BAR) {
                lemma_skip_spaces_bounds(s, w + 2);
                lemma_expression_is_text(s, skip_spaces(s, w + 2));
            }
        },
    }
}

/// Parses a query. The keys and values of the tree are pieces of
/// `query_raw`, each of them text.
pub fn parse_query<'a>(query_raw: &'a str) -> (parsed: Result<Query<&'a [u8]>, QuerySyntaxError>)
    ensures
        outcome_matches(parsed, parse_input(encode_utf8(query_raw@))),
        parsed matches Ok(tree) ==> query_is_text(tree@),
{
    proof {
        encode_utf8_valid_utf8(query_raw@);
        lemma_expression_is_text(encode_utf8(query_raw@), 0);
    }
    query(query_raw.as_bytes())
}

} // verus!
