//! The text of a query tree, and the proof that reading it gives the tree
//! back.

use crate::query::query_ast::{
    doubled_at, find_equals, is_space, lemma_atom_bounds, lemma_expression_bounds,
    lemma_find_equals_bounds, lemma_term_bounds, lemma_value_end_bounds, parse_atom,
    parse_expression, parse_input, parse_term, skip_spaces, value_end, Query, QueryAtom,
    QueryExpression, QueryOpExpression, QueryOpTerm, QuerySyntaxError, QueryTerm, AMPERSAND,
    BACKSLASH, BAR, EQUALS, QUOTE,
};
use vstd::prelude::*;

verus! {

/// `key="value"`.
pub open spec fn atom_text(atom: QueryAtom<Seq<u8>>) -> Seq<u8> {
    atom.query_key + seq![EQUALS, QUOTE] + atom.query_value + seq![QUOTE]
}

/// The atoms of the term, with `&&` between them.
pub open spec fn term_text(term: QueryTerm<Seq<u8>>) -> Seq<u8>
    decreases term,
{
    match term {
        QueryTerm::Unary(atom) => atom_text(atom),
        QueryTerm::Binary(atom, op, rest) => atom_text(atom) + seq![AMPERSAND, AMPERSAND] + term_text(
            *rest,
        ),
    }
}

/// The terms of the expression, with `||` between them.
pub open spec fn expression_text(expression: QueryExpression<Seq<u8>>) -> Seq<u8>
    decreases expression,
{
    match expression {
        QueryExpression::Unary(term) => term_text(term),
        QueryExpression::Binary(term, op, rest) => term_text(term) + seq![BAR, BAR] + expression_text(
            *rest,
        ),
    }
}

/// Whether the byte at `i` is escaped: a backslash stands before it that is
/// not escaped itself.
pub open spec fn is_escaped(text: Seq<u8>, i: int) -> bool
    decreases i,
{
    0 < i <= text.len() && text[i - 1] == BACKSLASH && !is_escaped(text, i - 1)
}

/// Whether a quote behind the value closes it, and none before: every quote
/// in the value is escaped, and its last byte escapes nothing.
pub open spec fn value_is_closed(value: Seq<u8>) -> bool {
    &&& forall|i: int| 0 <= i < value.len() && #[trigger] value[i] == QUOTE ==> is_escaped(value, i)
    &&& !is_escaped(value, value.len() as int)
}

/// Whether an atom can be told from its text: its key is not empty and holds
/// no `=`, and its value is closed by the quote behind it and by none inside
/// it.
pub open spec fn atom_is_well_formed(atom: QueryAtom<Seq<u8>>) -> bool {
    &&& atom.query_key.len() > 0
    &&& forall|i: int| 0 <= i < atom.query_key.len() ==> #[trigger] atom.query_key[i] != EQUALS
    &&& value_is_closed(atom.query_value)
}

/// Whether a byte is escaped depends on the bytes before it alone.
pub proof fn lemma_is_escaped_of_prefix(text: Seq<u8>, longer: Seq<u8>, i: int)
    requires
        0 <= i <= text.len() <= longer.len(),
        forall|j: int| 0 <= j < text.len() ==> #[trigger] longer[j] == text[j],
    ensures
        is_escaped(longer, i) == is_escaped(text, i),
    decreases i,
{
    if i > 0 {
        assert(longer[i - 1] == text[i - 1]);
        lemma_is_escaped_of_prefix(text, longer, i - 1);
    }
}

/// Where every quote before `i` is escaped, the run over the value gets to
/// `i`, and knows there whether the byte at `i` is escaped.
pub proof fn lemma_value_end_from(text: Seq<u8>, i: int)
    requires
        0 <= i <= text.len(),
        forall|j: int| 0 <= j < i && #[trigger] text[j] == QUOTE ==> is_escaped(text, j),
    ensures
        value_end(text, 0, false) == value_end(text, i, is_escaped(text, i)),
    decreases i,
{
    if i > 0 {
        lemma_value_end_from(text, i - 1);
        if text[i - 1] == QUOTE {
            assert(is_escaped(text, i - 1));
        }
    }
}

/// Every quote before the one that closes the value is escaped.
pub proof fn lemma_quotes_before_end(text: Seq<u8>, i: int)
    requires
        0 <= i <= value_end(text, 0, false) <= text.len(),
    ensures
        forall|j: int| 0 <= j < i && #[trigger] text[j] == QUOTE ==> is_escaped(text, j),
    decreases i,
{
    if i > 0 {
        lemma_quotes_before_end(text, i - 1);
        lemma_value_end_from(text, i - 1);
    }
}

/// A value is closed exactly if a run over it, with a quote behind it, ends
/// at that quote.
pub proof fn lemma_value_is_closed(value: Seq<u8>)
    ensures
        value_is_closed(value) <==> value_end(value.push(QUOTE), 0, false) == value.len(),
{
    let text = value.push(QUOTE);
    let n = value.len() as int;
    assert forall|j: int| 0 <= j <= n implies is_escaped(text, j) == is_escaped(value, j) by {
        lemma_is_escaped_of_prefix(value, text, j);
    }
    if value_is_closed(value) {
        assert forall|j: int| 0 <= j < n && #[trigger] text[j] == QUOTE implies is_escaped(
            text,
            j,
        ) by {
            assert(value[j] == QUOTE);
        }
        lemma_value_end_from(text, n);
    }
    if value_end(text, 0, false) == n {
        lemma_quotes_before_end(text, n);
        lemma_value_end_from(text, n);
        lemma_value_end_bounds(text, n + 1, false);
        assert forall|j: int| 0 <= j < n && #[trigger] value[j] == QUOTE implies is_escaped(
            value,
            j,
        ) by {
            assert(text[j] == QUOTE);
        }
    }
}

pub open spec fn term_is_well_formed(term: QueryTerm<Seq<u8>>) -> bool
    decreases term,
{
    match term {
        QueryTerm::Unary(atom) => atom_is_well_formed(atom),
        QueryTerm::Binary(atom, op, rest) => atom_is_well_formed(atom) && term_is_well_formed(*rest),
    }
}

pub open spec fn expression_is_well_formed(expression: QueryExpression<Seq<u8>>) -> bool
    decreases expression,
{
    match expression {
        QueryExpression::Unary(term) => term_is_well_formed(term),
        QueryExpression::Binary(term, op, rest) => term_is_well_formed(term)
            && expression_is_well_formed(*rest),
    }
}

/// Whether an atom can be told from its text wherever it stands in a query:
/// it is well-formed, and its key begins with no blank.
pub open spec fn atom_is_plain(atom: QueryAtom<Seq<u8>>) -> bool {
    atom_is_well_formed(atom) && !is_space(atom.query_key[0])
}

pub open spec fn term_is_plain(term: QueryTerm<Seq<u8>>) -> bool
    decreases term,
{
    match term {
        QueryTerm::Unary(atom) => atom_is_plain(atom),
        QueryTerm::Binary(atom, op, rest) => atom_is_plain(atom) && term_is_plain(*rest),
    }
}

pub open spec fn expression_is_plain(expression: QueryExpression<Seq<u8>>) -> bool
    decreases expression,
{
    match expression {
        QueryExpression::Unary(term) => term_is_plain(term),
        QueryExpression::Binary(term, op, rest) => term_is_plain(term) && expression_is_plain(*rest),
    }
}

/// Whether `text` stands in `s` at `p`.
pub open spec fn occurs_at(s: Seq<u8>, p: int, text: Seq<u8>) -> bool {
    &&& 0 <= p
    &&& p + text.len() <= s.len()
    &&& forall|i: int| 0 <= i < text.len() ==> s[p + i] == #[trigger] text[i]
}

/// Where two texts stand one behind the other, each of them stands there.
pub proof fn lemma_occurs_split(s: Seq<u8>, p: int, first: Seq<u8>, second: Seq<u8>)
    requires
        occurs_at(s, p, first + second),
    ensures
        occurs_at(s, p, first),
        occurs_at(s, p + first.len(), second),
{
    let both = first + second;
    assert forall|i: int| 0 <= i < first.len() implies s[p + i] == #[trigger] first[i] by {
        assert(both[i] == first[i]);
    }
    assert forall|i: int| 0 <= i < second.len() implies s[p + first.len() + i]
        == #[trigger] second[i] by {
        assert(both[first.len() + i] == second[i]);
    }
}

/// A key without `=` is run over up to the `=` behind it.
pub proof fn lemma_find_equals_behind_key(s: Seq<u8>, p: int, key: Seq<u8>)
    requires
        occurs_at(s, p, key.push(EQUALS)),
        forall|i: int| 0 <= i < key.len() ==> #[trigger] key[i] != EQUALS,
    ensures
        find_equals(s, p) == p + key.len(),
    decreases key.len(),
{
    let text = key.push(EQUALS);
    if key.len() == 0 {
        assert(text[0] == EQUALS);
    } else {
        assert(text[0] == key[0]);
        let shorter = key.subrange(1, key.len() as int);
        assert forall|i: int| 0 <= i < shorter.push(EQUALS).len() implies s[p + 1 + i]
            == #[trigger] shorter.push(EQUALS)[i] by {
            assert(text[i + 1] == shorter.push(EQUALS)[i]);
        }
        assert forall|i: int| 0 <= i < shorter.len() implies #[trigger] shorter[i] != EQUALS by {
            assert(key[i + 1] == shorter[i]);
        }
        lemma_find_equals_behind_key(s, p + 1, shorter);
    }
}

/// A quote that closes a value closes it wherever the value stands.
pub proof fn lemma_value_end_in_place(s: Seq<u8>, p: int, text: Seq<u8>, i: int, escaped: bool)
    requires
        occurs_at(s, p, text),
        0 <= i <= text.len(),
        value_end(text, i, escaped) < text.len(),
    ensures
        value_end(s, p + i, escaped) == p + value_end(text, i, escaped),
    decreases text.len() - i,
{
    if i < text.len() {
        assert(s[p + i] == text[i]);
        if escaped {
            lemma_value_end_in_place(s, p, text, i + 1, false);
        } else if text[i] != QUOTE {
            lemma_value_end_in_place(s, p, text, i + 1, text[i] == BACKSLASH);
        }
    }
}

/// Reading the text of a well-formed atom gives the atom.
pub proof fn lemma_parse_atom_text(s: Seq<u8>, p: int, atom: QueryAtom<Seq<u8>>)
    requires
        atom_is_well_formed(atom),
        occurs_at(s, p, atom_text(atom)),
    ensures
        parse_atom(s, p) == Ok::<(QueryAtom<Seq<u8>>, int), QuerySyntaxError>((atom, p + atom_text(atom).len())),
{
    let key = atom.query_key;
    let value = atom.query_value;
    let text = atom_text(atom);
    let e = p + key.len();
    assert(text =~= key.push(EQUALS) + (seq![QUOTE] + value.push(QUOTE)));
    lemma_occurs_split(s, p, key.push(EQUALS), seq![QUOTE] + value.push(QUOTE));
    lemma_occurs_split(s, e + 1, seq![QUOTE], value.push(QUOTE));
    lemma_find_equals_behind_key(s, p, key);
    lemma_value_is_closed(value);
    assert(seq![QUOTE][0] == QUOTE);
    assert(s[e + 1] == QUOTE);
    lemma_value_end_in_place(s, e + 2, value.push(QUOTE), 0, false);
    let v = e + 2 + value.len();
    assert(value_end(s, e + 2, false) == v);
    assert(s.subrange(p, e) =~= key) by {
        assert forall|i: int| 0 <= i < key.len() implies s[p + i] == key[i] by {
            assert(key.push(EQUALS)[i] == key[i]);
        }
    }
    assert(s.subrange(e + 2, v) =~= value) by {
        assert forall|i: int| 0 <= i < value.len() implies s[e + 2 + i] == value[i] by {
            assert(value.push(QUOTE)[i] == value[i]);
        }
    }
    assert(text.len() == key.len() + value.len() + 3);
}

/// The text of a plain term is not empty and begins with no blank.
pub proof fn lemma_term_text_begins(term: QueryTerm<Seq<u8>>)
    requires
        term_is_plain(term),
    ensures
        term_text(term).len() > 0,
        !is_space(term_text(term)[0]),
    decreases term,
{
    match term {
        QueryTerm::Unary(atom) => {
            assert(atom_text(atom)[0] == atom.query_key[0]);
        },
        QueryTerm::Binary(atom, op, rest) => {
            assert(atom_text(atom)[0] == atom.query_key[0]);
            assert(term_text(term)[0] == atom_text(atom)[0]);
        },
    }
}

/// The text of a plain expression is not empty and begins with no blank.
pub proof fn lemma_expression_text_begins(expression: QueryExpression<Seq<u8>>)
    requires
        expression_is_plain(expression),
    ensures
        expression_text(expression).len() > 0,
        !is_space(expression_text(expression)[0]),
    decreases expression,
{
    match expression {
        QueryExpression::Unary(term) => {
            lemma_term_text_begins(term);
        },
        QueryExpression::Binary(term, op, rest) => {
            lemma_term_text_begins(term);
            assert(expression_text(expression)[0] == term_text(term)[0]);
        },
    }
}

/// Reading the text of a plain term gives the term, where no `&&` follows
/// the text.
pub proof fn lemma_parse_term_text(s: Seq<u8>, p: int, term: QueryTerm<Seq<u8>>)
    requires
        term_is_plain(term),
        occurs_at(s, p, term_text(term)),
        !doubled_at(s, skip_spaces(s, p + term_text(term).len()), AMPERSAND),
    ensures
        parse_term(s, p) == Ok::<(QueryTerm<Seq<u8>>, int), QuerySyntaxError>((term, p + term_text(term).len())),
    decreases term,
{
    match term {
        QueryTerm::Unary(atom) => {
            lemma_parse_atom_text(s, p, atom);
        },
        QueryTerm::Binary(atom, op, rest) => {
            let q = p + atom_text(atom).len();
            let operator = seq![AMPERSAND, AMPERSAND];
            assert(term_text(term) =~= atom_text(atom) + (operator + term_text(*rest)));
            lemma_occurs_split(s, p, atom_text(atom), operator + term_text(*rest));
            lemma_occurs_split(s, q, operator, term_text(*rest));
            lemma_parse_atom_text(s, p, atom);
            assert(operator[0] == AMPERSAND && operator[1] == AMPERSAND);
            assert(s[q + 0] == AMPERSAND && s[q + 1] == AMPERSAND);
            assert(skip_spaces(s, q) == q);
            lemma_term_text_begins(*rest);
            assert(s[q + 2 + 0] == term_text(*rest)[0]);
            assert(skip_spaces(s, q + 2) == q + 2);
            lemma_parse_term_text(s, q + 2, *rest);
            assert(op == QueryOpTerm::AND);
        },
    }
}

/// Reading the text of a plain expression gives the expression, where
/// neither `&&` nor `||` follows the text.
pub proof fn lemma_parse_expression_text(s: Seq<u8>, p: int, expression: QueryExpression<Seq<u8>>)
    requires
        expression_is_plain(expression),
        occurs_at(s, p, expression_text(expression)),
        !doubled_at(s, skip_spaces(s, p + expression_text(expression).len()), AMPERSAND),
        !doubled_at(s, skip_spaces(s, p + expression_text(expression).len()), BAR),
    ensures
        parse_expression(s, p) == Ok::<(QueryExpression<Seq<u8>>, int), QuerySyntaxError>(
            (expression, p + expression_text(expression).len()),
        ),
    decreases expression,
{
    match expression {
        QueryExpression::Unary(term) => {
            lemma_parse_term_text(s, p, term);
        },
        QueryExpression::Binary(term, op, rest) => {
            let q = p + term_text(term).len();
            let operator = seq![BAR, BAR];
            assert(expression_text(expression) =~= term_text(term) + (operator + expression_text(
                *rest,
            )));
            lemma_occurs_split(s, p, term_text(term), operator + expression_text(*rest));
            lemma_occurs_split(s, q, operator, expression_text(*rest));
            assert(operator[0] == BAR && operator[1] == BAR);
            assert(s[q + 0] == BAR && s[q + 1] == BAR);
            assert(skip_spaces(s, q) == q);
            lemma_parse_term_text(s, p, term);
            lemma_expression_text_begins(*rest);
            assert(s[q + 2 + 0] == expression_text(*rest)[0]);
            assert(skip_spaces(s, q + 2) == q + 2);
            lemma_parse_expression_text(s, q + 2, *rest);
            assert(op == QueryOpExpression::OR);
        },
    }
}

/// Reading the text of a query whose atoms are plain gives the query back:
/// the chains of `&&` as terms, and the terms as the members of the chain of
/// `||`.
pub proof fn lemma_parse_query_text(parsed: Query<Seq<u8>>)
    requires
        expression_is_plain(parsed.tree),
    ensures
        parse_input(expression_text(parsed.tree)) == Ok::<Query<Seq<u8>>, QuerySyntaxError>(parsed),
{
    let s = expression_text(parsed.tree);
    lemma_parse_expression_text(s, 0, parsed.tree);
}

/// Whether `gap` is an operator as it may be written: the symbol twice,
/// with nothing but blanks before and behind.
pub open spec fn is_operator(gap: Seq<u8>, symbol: u8) -> bool {
    exists|w: int|
        0 <= w && w + 2 <= gap.len() && #[trigger] gap[w] == symbol && gap[w + 1] == symbol && (
        forall|i: int| 0 <= i < w ==> is_space(#[trigger] gap[i])) && (forall|i: int|
            w + 2 <= i < gap.len() ==> is_space(#[trigger] gap[i]))
}

/// Whether `s` spells the term from `p` to `q`: the texts of its atoms, with
/// the operator `&&` between them. The blanks behind an operator are no part
/// of the key that follows.
pub open spec fn spells_term(s: Seq<u8>, p: int, q: int, term: QueryTerm<Seq<u8>>) -> bool
    decreases term,
{
    match term {
        QueryTerm::Unary(atom) => 0 <= p <= q <= s.len() && s.subrange(p, q) == atom_text(atom),
        QueryTerm::Binary(atom, op, rest) => exists|m: int, n: int|
            0 <= p <= m <= n < q <= s.len() && s.subrange(p, m) == atom_text(atom) && is_operator(
                #[trigger] s.subrange(m, n),
                AMPERSAND,
            ) && !is_space(s[n]) && spells_term(s, n, q, *rest),
    }
}

/// Whether `s` spells the expression from `p` to `q`: its terms as they may
/// be written, with the operator `||` between them. The blanks behind an
/// operator are no part of the key that follows.
pub open spec fn spells_expression(
    s: Seq<u8>,
    p: int,
    q: int,
    expression: QueryExpression<Seq<u8>>,
) -> bool
    decreases expression,
{
    match expression {
        QueryExpression::Unary(term) => spells_term(s, p, q, term),
        QueryExpression::Binary(term, op, rest) => exists|m: int, n: int|
            0 <= p <= m <= n < q <= s.len() && spells_term(s, p, m, term) && is_operator(
                #[trigger] s.subrange(m, n),
                BAR,
            ) && !is_space(s[n]) && spells_expression(s, n, q, *rest),
    }
}

/// Blanks are skipped, all that there are, and nothing else.
pub proof fn lemma_skipped_are_spaces(s: Seq<u8>, p: int)
    requires
        0 <= p <= s.len(),
    ensures
        p <= skip_spaces(s, p) <= s.len(),
        forall|i: int| p <= i < skip_spaces(s, p) ==> is_space(#[trigger] s[i]),
        skip_spaces(s, p) < s.len() ==> !is_space(s[skip_spaces(s, p)]),
    decreases s.len() - p,
{
    if p < s.len() && is_space(s[p]) {
        lemma_skipped_are_spaces(s, p + 1);
    }
}

/// What stands between a part of a chain and the next, where the chain goes
/// on, is the operator as it may be written.
pub proof fn lemma_operator_between(s: Seq<u8>, q: int, symbol: u8)
    requires
        0 <= q <= s.len(),
        doubled_at(s, skip_spaces(s, q), symbol),
    ensures
        q <= skip_spaces(s, skip_spaces(s, q) + 2) <= s.len(),
        is_operator(s.subrange(q, skip_spaces(s, skip_spaces(s, q) + 2)), symbol),
{
    let w = skip_spaces(s, q);
    lemma_skipped_are_spaces(s, q);
    lemma_skipped_are_spaces(s, w + 2);
    let n = skip_spaces(s, w + 2);
    let gap = s.subrange(q, n);
    assert(gap[w - q] == symbol && gap[w - q + 1] == symbol);
    assert forall|i: int| 0 <= i < w - q implies is_space(#[trigger] gap[i]) by {
        assert(is_space(s[q + i]));
    }
    assert forall|i: int| w - q + 2 <= i < gap.len() implies is_space(#[trigger] gap[i]) by {
        assert(is_space(s[q + i]));
    }
}

/// No `=` stands before the first one.
pub proof fn lemma_no_equals_in_key(s: Seq<u8>, p: int)
    requires
        0 <= p <= s.len(),
    ensures
        forall|i: int| p <= i < find_equals(s, p) ==> #[trigger] s[i] != EQUALS,
    decreases s.len() - p,
{
    if p < s.len() && s[p] != EQUALS {
        lemma_no_equals_in_key(s, p + 1);
    }
}

/// The quote that closes a value where it stands closes it in every copy.
pub proof fn lemma_value_end_of_copy(s: Seq<u8>, p: int, text: Seq<u8>, i: int, escaped: bool)
    requires
        occurs_at(s, p, text),
        0 <= i <= text.len(),
        value_end(s, p + i, escaped) < p + text.len(),
    ensures
        value_end(text, i, escaped) == value_end(s, p + i, escaped) - p,
    decreases text.len() - i,
{
    lemma_value_end_bounds(s, p + i, escaped);
    if i < text.len() {
        assert(s[p + i] == text[i]);
        if escaped {
            lemma_value_end_of_copy(s, p, text, i + 1, false);
        } else if text[i] != QUOTE {
            lemma_value_end_of_copy(s, p, text, i + 1, text[i] == BACKSLASH);
        }
    }
}

/// An atom is read from nothing but its own text, and is well-formed.
pub proof fn lemma_atom_is_spelled(s: Seq<u8>, p: int)
    requires
        0 <= p,
    ensures
        match parse_atom(s, p) {
            Ok((atom, q)) => p <= q <= s.len() && s.subrange(p, q) == atom_text(atom)
                && atom_is_well_formed(atom),
            Err(error) => true,
        },
{
    if p <= s.len() {
        lemma_find_equals_bounds(s, p);
        lemma_no_equals_in_key(s, p);
        let e = find_equals(s, p);
        if e + 2 <= s.len() {
            lemma_value_end_bounds(s, e + 2, false);
            let v = value_end(s, e + 2, false);
            if e > p && s[e + 1] == QUOTE && v < s.len() {
                let atom = parse_atom(s, p)->Ok_0.0;
                assert(s.subrange(p, v + 1) =~= atom_text(atom));
                let closed = atom.query_value.push(QUOTE);
                assert(occurs_at(s, e + 2, closed)) by {
                    assert forall|i: int| 0 <= i < closed.len() implies s[e + 2 + i]
                        == #[trigger] closed[i] by {}
                }
                lemma_value_end_of_copy(s, e + 2, closed, 0, false);
                lemma_value_is_closed(atom.query_value);
                assert forall|i: int| 0 <= i < atom.query_key.len() implies #[trigger] atom.query_key[i]
                    != EQUALS by {
                    assert(s[p + i] != EQUALS);
                }
            }
        }
    }
}

/// A term is read from nothing but a text that spells it, and is
/// well-formed.
pub proof fn lemma_term_is_spelled(s: Seq<u8>, p: int)
    requires
        0 <= p,
    ensures
        match parse_term(s, p) {
            Ok((term, q)) => spells_term(s, p, q, term) && term_is_well_formed(term),
            Err(error) => true,
        },
    decreases s.len() - p,
{
    lemma_atom_is_spelled(s, p);
    lemma_atom_bounds(s, p);
    match parse_atom(s, p) {
        Err(error) => {},
        Ok((atom, q)) => {
            let w = skip_spaces(s, q);
            if doubled_at(s, w, AMPERSAND) {
                lemma_operator_between(s, q, AMPERSAND);
                lemma_skipped_are_spaces(s, q);
                lemma_skipped_are_spaces(s, w + 2);
                let n = skip_spaces(s, w + 2);
                lemma_term_is_spelled(s, n);
                lemma_term_bounds(s, n);
                match parse_term(s, n) {
                    Err(error) => {},
                    Ok((rest, r)) => {
                        assert(is_operator(s.subrange(q, n), AMPERSAND));
                        assert(spells_term(s, n, r, rest));
                    },
                }
            }
        },
    }
}

/// An expression is read from nothing but a text that spells it, and is
/// well-formed.
pub proof fn lemma_expression_is_spelled(s: Seq<u8>, p: int)
    requires
        0 <= p,
    ensures
        match parse_expression(s, p) {
            Ok((expression, q)) => spells_expression(s, p, q, expression)
                && expression_is_well_formed(expression),
            Err(error) => true,
        },
    decreases s.len() - p,
{
    lemma_term_is_spelled(s, p);
    lemma_term_bounds(s, p);
    match parse_term(s, p) {
        Err(error) => {},
        Ok((term, q)) => {
            let w = skip_spaces(s, q);
            if doubled_at(s, w, BAR) {
                lemma_operator_between(s, q, BAR);
                lemma_skipped_are_spaces(s, q);
                lemma_skipped_are_spaces(s, w + 2);
                let n = skip_spaces(s, w + 2);
                lemma_expression_is_spelled(s, n);
                lemma_expression_bounds(s, n);
                match parse_expression(s, n) {
                    Err(error) => {},
                    Ok((rest, r)) => {
                        assert(is_operator(s.subrange(q, n), BAR));
                        assert(spells_expression(s, n, r, rest));
                    },
                }
            }
        },
    }
}

/// A text is read as a query only if the whole of it spells the query, and
/// the query is well-formed.
pub proof fn lemma_query_is_spelled(s: Seq<u8>)
    ensures
        parse_input(s) matches Ok(parsed) ==> spells_expression(s, 0, s.len() as int, parsed.tree)
            && expression_is_well_formed(parsed.tree),
{
    lemma_expression_is_spelled(s, 0);
}

/// Where a text equals a piece of `s`, it stands there.
pub proof fn lemma_occurs_in_piece(s: Seq<u8>, p: int, q: int, text: Seq<u8>)
    requires
        0 <= p <= q <= s.len(),
        s.subrange(p, q) == text,
    ensures
        occurs_at(s, p, text),
        p + text.len() == q,
{
    assert forall|i: int| 0 <= i < text.len() implies s[p + i] == #[trigger] text[i] by {
        assert(s.subrange(p, q)[i] == s[p + i]);
    }
}

/// Blanks that end at `r` are skipped up to `r`.
pub proof fn lemma_skip_spaces_to(s: Seq<u8>, p: int, r: int)
    requires
        0 <= p <= r <= s.len(),
        forall|i: int| p <= i < r ==> is_space(#[trigger] s[i]),
        r < s.len() ==> !is_space(s[r]),
    ensures
        skip_spaces(s, p) == r,
    decreases r - p,
{
    if p < r {
        assert(is_space(s[p]));
        lemma_skip_spaces_to(s, p + 1, r);
    }
}

/// An operator as it may be written is read as the operator, with the
/// blanks around it.
pub proof fn lemma_operator_is_read(s: Seq<u8>, m: int, n: int, symbol: u8)
    requires
        0 <= m <= n < s.len(),
        is_operator(s.subrange(m, n), symbol),
        !is_space(s[n]),
        !is_space(symbol),
    ensures
        doubled_at(s, skip_spaces(s, m), symbol),
        skip_spaces(s, skip_spaces(s, m) + 2) == n,
{
    let gap = s.subrange(m, n);
    let w = choose|w: int|
        0 <= w && w + 2 <= gap.len() && #[trigger] gap[w] == symbol && gap[w + 1] == symbol && (
        forall|i: int| 0 <= i < w ==> is_space(#[trigger] gap[i])) && (forall|i: int|
            w + 2 <= i < gap.len() ==> is_space(#[trigger] gap[i]));
    assert(s[m + w] == gap[w] && s[m + w + 1] == gap[w + 1]);
    assert forall|i: int| m <= i < m + w implies is_space(#[trigger] s[i]) by {
        assert(is_space(gap[i - m]));
    }
    lemma_skip_spaces_to(s, m, m + w);
    assert forall|i: int| m + w + 2 <= i < n implies is_space(#[trigger] s[i]) by {
        assert(is_space(gap[i - m]));
    }
    lemma_skip_spaces_to(s, m + w + 2, n);
}

/// Reading a text that spells a well-formed term gives the term, where no
/// `&&` follows the text.
pub proof fn lemma_parse_term_spelled(s: Seq<u8>, p: int, q: int, term: QueryTerm<Seq<u8>>)
    requires
        term_is_well_formed(term),
        spells_term(s, p, q, term),
        !doubled_at(s, skip_spaces(s, q), AMPERSAND),
    ensures
        parse_term(s, p) == Ok::<(QueryTerm<Seq<u8>>, int), QuerySyntaxError>((term, q)),
    decreases term,
{
    match term {
        QueryTerm::Unary(atom) => {
            lemma_occurs_in_piece(s, p, q, atom_text(atom));
            lemma_parse_atom_text(s, p, atom);
        },
        QueryTerm::Binary(atom, op, rest) => {
            let (m, n) = choose|m: int, n: int|
                0 <= p <= m <= n < q <= s.len() && s.subrange(p, m) == atom_text(atom)
                    && is_operator(#[trigger] s.subrange(m, n), AMPERSAND) && !is_space(s[n])
                    && spells_term(s, n, q, *rest);
            lemma_occurs_in_piece(s, p, m, atom_text(atom));
            lemma_parse_atom_text(s, p, atom);
            lemma_operator_is_read(s, m, n, AMPERSAND);
            lemma_parse_term_spelled(s, n, q, *rest);
            assert(op == QueryOpTerm::AND);
        },
    }
}

/// Reading a text that spells a well-formed expression gives the expression,
/// where neither `&&` nor `||` follows the text.
pub proof fn lemma_parse_expression_spelled(
    s: Seq<u8>,
    p: int,
    q: int,
    expression: QueryExpression<Seq<u8>>,
)
    requires
        expression_is_well_formed(expression),
        spells_expression(s, p, q, expression),
        !doubled_at(s, skip_spaces(s, q), AMPERSAND),
        !doubled_at(s, skip_spaces(s, q), BAR),
    ensures
        parse_expression(s, p) == Ok::<(QueryExpression<Seq<u8>>, int), QuerySyntaxError>(
            (expression, q),
        ),
    decreases expression,
{
    match expression {
        QueryExpression::Unary(term) => {
            lemma_parse_term_spelled(s, p, q, term);
        },
        QueryExpression::Binary(term, op, rest) => {
            let (m, n) = choose|m: int, n: int|
                0 <= p <= m <= n < q <= s.len() && spells_term(s, p, m, term) && is_operator(
                    #[trigger] s.subrange(m, n),
                    BAR,
                ) && !is_space(s[n]) && spells_expression(s, n, q, *rest);
            lemma_operator_is_read(s, m, n, BAR);
            lemma_parse_term_spelled(s, p, m, term);
            lemma_parse_expression_spelled(s, n, q, *rest);
            assert(op == QueryOpExpression::OR);
        },
    }
}

/// The queries of the grammar: a text is read as a query exactly if the
/// whole of it spells the query and the query is well-formed.
pub proof fn lemma_grammar(s: Seq<u8>, parsed: Query<Seq<u8>>)
    ensures
        parse_input(s) == Ok::<Query<Seq<u8>>, QuerySyntaxError>(parsed) <==> spells_expression(
            s,
            0,
            s.len() as int,
            parsed.tree,
        ) && expression_is_well_formed(parsed.tree),
{
    lemma_query_is_spelled(s);
    if spells_expression(s, 0, s.len() as int, parsed.tree) && expression_is_well_formed(
        parsed.tree,
    ) {
        lemma_parse_expression_spelled(s, 0, s.len() as int, parsed.tree);
    }
}

} // verus!
