use log_query::query::constraint::{Constraint, ConstraintTree};
use log_query::query::constraint_factory::{atom_converter, constraint_factory, expr_converter, term_converter};
use log_query::query::query_ast::{
    parse_query, query, query_atom, query_constraint, query_expression, query_op_expression, query_op_term, query_term,
    skip_whitespace, Query as QueryTree, QueryAtom, QueryConstraint, QueryExpression, QueryOpExpression,
    QueryOpTerm, QuerySyntaxError, QuerySyntaxReason, QueryTerm,
};
use log_query::{DefaultLogLineParseResult, FieldMap, Query};

fn line_of(pairs: &[(&str, &str)]) -> DefaultLogLineParseResult {
    let owned: Vec<(String, String)> =
        pairs.iter().map(|(k, v)| (String::from(*k), String::from(*v))).collect();
    DefaultLogLineParseResult::new(FieldMap::from_pairs(&owned))
}

fn atom<'a>(key: &'a str, value: &'a str) -> QueryAtom<&'a [u8]> {
    QueryAtom { query_key: key.as_bytes(), query_constraint: QueryConstraint::EQ, query_value: value.as_bytes() }
}

fn error_of(text: &str) -> QuerySyntaxError {
    let from_tree = parse_query(text).err().unwrap();
    assert_eq!(Query::new(text).err(), Some(from_tree));
    from_tree
}

fn passes(text: &str, pairs: &[(&str, &str)]) -> bool {
    Query::new(text).unwrap().check(&line_of(pairs))
}

#[test]
fn test_parse_atom() {
    let parse_result = query_atom(b"key=\"value\"", 0).unwrap();
    assert!(
        parse_result.0
            == QueryAtom {
                query_key: "key".as_bytes(),
                query_constraint: QueryConstraint::EQ,
                query_value: "value".as_bytes()
            }
    );
    assert_eq!(parse_result.1, 11);
}

#[test]
fn test_parse_operator() {
    let and = query_op_term(b"&&", 0).unwrap();
    assert_eq!(and.0, QueryOpTerm::AND);
    assert_eq!(and.1, 2);
}

#[test]
fn test_parse_tree() {
    let query = query(b"a=\"test\"&&b=\"what\"").unwrap();
    assert_eq!(
        query,
        QueryTree {
            tree: QueryExpression::Unary(QueryTerm::Binary(
                QueryAtom {
                    query_key: "a".as_bytes(),
                    query_constraint: QueryConstraint::EQ,
                    query_value: "test".as_bytes()
                },
                QueryOpTerm::AND,
                Box::new(QueryTerm::Unary(QueryAtom {
                    query_key: "b".as_bytes(),
                    query_constraint: QueryConstraint::EQ,
                    query_value: "what".as_bytes()
                })),
            ))
        }
    );
}

#[test]
fn operators_must_be_doubled() {
    assert_eq!(query_op_expression(b"||", 0), Ok((QueryOpExpression::OR, 2)));
    assert_eq!(query_op_expression(b"x||", 1), Ok((QueryOpExpression::OR, 3)));
    let malformed = |position| QuerySyntaxError { position, reason: QuerySyntaxReason::MalformedOperator };
    assert_eq!(query_op_expression(b"|", 0), Err(malformed(0)));
    assert_eq!(query_op_expression(b"&&", 0), Err(malformed(0)));
    assert_eq!(query_op_term(b"&|", 0), Err(malformed(0)));
    assert_eq!(query_op_term(b"&&", 1), Err(malformed(1)));
    assert_eq!(query_op_term(b"", 0), Err(malformed(0)));
}

#[test]
fn relationship_is_the_equals_sign() {
    assert_eq!(query_constraint(b"a=b", 1), Ok((QueryConstraint::EQ, 2)));
    let missing = |position| QuerySyntaxError { position, reason: QuerySyntaxReason::MissingEquals };
    assert_eq!(query_constraint(b"a=b", 0), Err(missing(0)));
    assert_eq!(query_constraint(b"a=b", 3), Err(missing(3)));
}

#[test]
fn blanks_are_skipped() {
    assert_eq!(skip_whitespace(b" \t\r\n\x0b\x0cx ", 0), 6);
    assert_eq!(skip_whitespace(b"x  ", 0), 0);
    assert_eq!(skip_whitespace(b"x  ", 1), 3);
    assert_eq!(skip_whitespace(b"", 0), 0);
}

#[test]
fn and_binds_tighter_than_or() {
    let parsed = query(b"a=\"1\"&&b=\"2\"||c=\"3\"").unwrap();
    assert_eq!(
        parsed.tree,
        QueryExpression::Binary(
            QueryTerm::Binary(atom("a", "1"), QueryOpTerm::AND, Box::new(QueryTerm::Unary(atom("b", "2")))),
            QueryOpExpression::OR,
            Box::new(QueryExpression::Unary(QueryTerm::Unary(atom("c", "3")))),
        )
    );
    let parsed = query(b"a=\"1\"||b=\"2\"&&c=\"3\"").unwrap();
    assert_eq!(
        parsed.tree,
        QueryExpression::Binary(
            QueryTerm::Unary(atom("a", "1")),
            QueryOpExpression::OR,
            Box::new(QueryExpression::Unary(QueryTerm::Binary(
                atom("b", "2"),
                QueryOpTerm::AND,
                Box::new(QueryTerm::Unary(atom("c", "3")))
            ))),
        )
    );
}

#[test]
fn precedence() {
    let text = "a=\"1\"&&b=\"2\"||c=\"3\"";
    assert_eq!(passes(text, &[("a", "1"), ("b", "9"), ("c", "3")]), true);
    assert_eq!(passes(text, &[("a", "1"), ("b", "9")]), false);
}

#[test]
fn chains_nest_to_the_right() {
    let (term, end) = query_term(b"a=\"1\" && b=\"2\"&&c=\"3\"||d=\"4\"", 0).unwrap();
    assert_eq!(end, 21);
    assert_eq!(
        term,
        QueryTerm::Binary(
            atom("a", "1"),
            QueryOpTerm::AND,
            Box::new(QueryTerm::Binary(
                atom("b", "2"),
                QueryOpTerm::AND,
                Box::new(QueryTerm::Unary(atom("c", "3")))
            ))
        )
    );
    let (expression, end) = query_expression(b"a=\"1\"||b=\"2\" || c=\"3\"", 0).unwrap();
    assert_eq!(end, 21);
    assert_eq!(
        expression,
        QueryExpression::Binary(
            QueryTerm::Unary(atom("a", "1")),
            QueryOpExpression::OR,
            Box::new(QueryExpression::Binary(
                QueryTerm::Unary(atom("b", "2")),
                QueryOpExpression::OR,
                Box::new(QueryExpression::Unary(QueryTerm::Unary(atom("c", "3"))))
            ))
        )
    );
}

#[test]
fn blanks_around_operators() {
    let spaced = query(b"a=\"1\" \t&&\n b=\"2\"  ||  c=\"3\"").unwrap();
    let dense = query(b"a=\"1\"&&b=\"2\"||c=\"3\"").unwrap();
    assert_eq!(spaced, dense);
}

#[test]
fn blanks_belong_to_keys_and_values() {
    let (found, _) = query_atom(b" k ey=\" v \"", 0).unwrap();
    assert_eq!(found, atom(" k ey", " v "));
}

#[test]
fn escaped_quotes_stay_in_the_value() {
    let (found, end) = query_atom(b"k=\"a\\\"b\"", 0).unwrap();
    assert_eq!(found, atom("k", "a\\\"b"));
    assert_eq!(end, 8);
    let (found, end) = query_atom(b"k=\"a\\\\\"", 0).unwrap();
    assert_eq!(found, atom("k", "a\\\\"));
    assert_eq!(end, 7);
    assert_eq!(passes("k=\"a\\\"b\"", &[("k", "a\\\"b")]), true);
    assert_eq!(passes("k=\"a\\\"b\"", &[("k", "a\"b")]), false);
}

#[test]
fn empty_value_is_a_value() {
    let (found, end) = query_atom(b"k=\"\"", 0).unwrap();
    assert_eq!(found, atom("k", ""));
    assert_eq!(end, 4);
    assert_eq!(passes("k=\"\"", &[("k", "")]), true);
    assert_eq!(passes("k=\"\"", &[]), false);
}

#[test]
fn atom_from_the_middle() {
    let (found, end) = query_atom(b"a=\"1\"&&bb=\"22\"", 7).unwrap();
    assert_eq!(found, atom("bb", "22"));
    assert_eq!(end, 14);
}

#[test]
fn syntax_errors() {
    let error = |position, reason| QuerySyntaxError { position, reason };
    assert_eq!(error_of(""), error(0, QuerySyntaxReason::MissingEquals));
    assert_eq!(error_of("abc"), error(0, QuerySyntaxReason::MissingEquals));
    assert_eq!(error_of("=\"v\""), error(0, QuerySyntaxReason::EmptyKey));
    assert_eq!(error_of("a=v"), error(2, QuerySyntaxReason::MissingQuote));
    assert_eq!(error_of("a="), error(2, QuerySyntaxReason::MissingQuote));
    assert_eq!(error_of("a= \"v\""), error(2, QuerySyntaxReason::MissingQuote));
    assert_eq!(error_of("a=\"v"), error(2, QuerySyntaxReason::UnterminatedValue));
    assert_eq!(error_of("a=\""), error(2, QuerySyntaxReason::UnterminatedValue));
    assert_eq!(error_of("a=\"v\\\""), error(2, QuerySyntaxReason::UnterminatedValue));
    assert_eq!(error_of("a=\"1\"&b=\"2\""), error(5, QuerySyntaxReason::MalformedOperator));
    assert_eq!(error_of("a=\"1\" |b=\"2\""), error(6, QuerySyntaxReason::MalformedOperator));
    assert_eq!(error_of("a=\"1\"|&b=\"2\""), error(5, QuerySyntaxReason::MalformedOperator));
    assert_eq!(error_of("a=\"1\"b=\"2\""), error(5, QuerySyntaxReason::TrailingInput));
    assert_eq!(error_of("a=\"1\" "), error(5, QuerySyntaxReason::TrailingInput));
    assert_eq!(error_of("a=\"1\"&&"), error(7, QuerySyntaxReason::MissingEquals));
    assert_eq!(error_of("a=\"1\"&& =\"2\""), error(8, QuerySyntaxReason::EmptyKey));
    assert_eq!(error_of("a=\"1\"||b=\"2"), error(9, QuerySyntaxReason::UnterminatedValue));
    assert_eq!(error_of("a=\"1\"&&b=\"2\"||"), error(14, QuerySyntaxReason::MissingEquals));
    assert_eq!(
        error_of("class=ImageManagerImpl&thread=ImageManagerImpl-dispatcher"),
        error(6, QuerySyntaxReason::MissingQuote)
    );
}

#[test]
fn keys_and_values_may_hold_any_text() {
    let text = "schlüssel=\"wert ✓\"&&k=\"é\"";
    let parsed = parse_query(text).unwrap();
    assert_eq!(
        parsed.tree,
        QueryExpression::Unary(QueryTerm::Binary(
            atom("schlüssel", "wert ✓"),
            QueryOpTerm::AND,
            Box::new(QueryTerm::Unary(atom("k", "é")))
        ))
    );
    assert_eq!(passes(text, &[("schlüssel", "wert ✓"), ("k", "é")]), true);
    assert_eq!(passes(text, &[("schlüssel", "wert ✓"), ("k", "e")]), false);
}

#[test]
fn converters_follow_the_tree() {
    let line = line_of(&[("a", "1"), ("b", "2")]);
    match atom_converter(atom("a", "1")) {
        ConstraintTree::Equality(equality) => {
            assert_eq!(equality.field_name, "a");
            assert_eq!(equality.field_value, "1");
        },
        _ => panic!("an atom gives an equality"),
    }
    let term =
        || QueryTerm::Binary(atom("a", "1"), QueryOpTerm::AND, Box::new(QueryTerm::Unary(atom("b", "3"))));
    match term_converter(term()) {
        ConstraintTree::Conjunction(left, right) => {
            assert_eq!(left.check(&line), true);
            assert_eq!(right.check(&line), false);
        },
        _ => panic!("a chain of atoms gives a conjunction"),
    }
    let expression = QueryExpression::Binary(
        term(),
        QueryOpExpression::OR,
        Box::new(QueryExpression::Unary(QueryTerm::Unary(atom("b", "2")))),
    );
    match expr_converter(expression) {
        ConstraintTree::Disjunction(left, right) => {
            assert_eq!(left.check(&line), false);
            assert_eq!(right.check(&line), true);
        },
        _ => panic!("a chain of terms gives a disjunction"),
    }
    let unary = QueryTree { tree: QueryExpression::Unary(QueryTerm::Unary(atom("a", "1"))) };
    assert!(matches!(constraint_factory(unary), ConstraintTree::Equality(_)));
}

#[test]
fn round_trip() {
    let values = ["1", "2"];
    let suite: [(&str, fn(bool, bool, bool) -> bool); 9] = [
        ("a=\"1\"", |a, _, _| a),
        ("a=\"1\"&&b=\"1\"", |a, b, _| a && b),
        ("a=\"1\"||b=\"1\"", |a, b, _| a || b),
        ("a=\"1\"&&b=\"1\"&&c=\"1\"", |a, b, c| a && b && c),
        ("a=\"1\"||b=\"1\"||c=\"1\"", |a, b, c| a || b || c),
        ("a=\"1\"&&b=\"1\"||c=\"1\"", |a, b, c| (a && b) || c),
        ("a=\"1\"||b=\"1\"&&c=\"1\"", |a, b, c| a || (b && c)),
        ("a=\"1\" && b=\"1\" || c=\"1\"", |a, b, c| (a && b) || c),
        ("c=\"1\" || a=\"1\" && b=\"1\"", |a, b, c| c || (a && b)),
    ];
    for (text, reference) in suite {
        let query = Query::new(text).unwrap();
        for a in 0..3 {
            for b in 0..3 {
                for c in 0..3 {
                    let mut pairs = Vec::new();
                    if a < 2 {
                        pairs.push(("a", values[a]));
                    }
                    if b < 2 {
                        pairs.push(("b", values[b]));
                    }
                    if c < 2 {
                        pairs.push(("c", values[c]));
                    }
                    let expected = reference(a == 0, b == 0, c == 0);
                    assert_eq!(query.check(&line_of(&pairs)), expected, "{} on {:?}", text, pairs);
                }
            }
        }
    }
}
