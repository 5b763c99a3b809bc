//! From a parsed query to the constraint it states.

use crate::query::constraint::{
    field_equals, model_holds, ConstraintModel, ConstraintTree, SimpleEqualityConstraint,
};
use crate::query::query_ast::{
    atom_is_text, expression_is_text, query_is_text, term_is_text, Query, QueryAtom, QueryConstraint,
    QueryExpression, QueryOpExpression, QueryOpTerm, QueryTerm,
};
use vstd::prelude::*;
use vstd::utf8::*;

verus! {

/// `core::str::from_utf8`: the bytes as text, where they are well-formed
/// UTF-8, and nothing where they are not.
#[verifier::external_body]
fn text_of(bytes: &[u8]) -> (text: Option<&str>)
    ensures
        text is Some <==> valid_utf8(bytes@),
        text matches Some(t) ==> t@ == decode_utf8(bytes@),
{
    match core::str::from_utf8(bytes) {
        Ok(text) => Some(text),
        Err(_) => None,
    }
}

/// The equality that an atom states.
pub open spec fn compile_atom(atom: QueryAtom<Seq<u8>>) -> ConstraintModel {
    ConstraintModel::Equality(decode_utf8(atom.query_key), decode_utf8(atom.query_value))
}

/// The constraint that a term states: its atom alone, or the conjunction of
/// its atom and the rest of the term.
pub open spec fn compile_term(term: QueryTerm<Seq<u8>>) -> ConstraintModel
    decreases term,
{
    match term {
        QueryTerm::Unary(atom) => compile_atom(atom),
        QueryTerm::Binary(atom, op, rest) => ConstraintModel::Conjunction(
            Box::new(compile_atom(atom)),
            Box::new(compile_term(*rest)),
        ),
    }
}

/// The constraint that an expression states: its term alone, or the
/// disjunction of its term and the rest of the expression.
pub open spec fn compile_expression(expression: QueryExpression<Seq<u8>>) -> ConstraintModel
    decreases expression,
{
    match expression {
        QueryExpression::Unary(term) => compile_term(term),
        QueryExpression::Binary(term, op, rest) => ConstraintModel::Disjunction(
            Box::new(compile_term(term)),
            Box::new(compile_expression(*rest)),
        ),
    }
}

/// The constraint that a query states.
pub open spec fn compile_query(parse_tree: Query<Seq<u8>>) -> ConstraintModel {
    compile_expression(parse_tree.tree)
}

pub fn atom_converter(atom: QueryAtom<&[u8]>) -> (constraint: ConstraintTree<SimpleEqualityConstraint>)
    requires
        atom_is_text(atom@),
    ensures
        constraint@ == compile_atom(atom@),
{
    match atom.query_constraint {
        QueryConstraint::EQ => {
            let key = text_of(atom.query_key).unwrap();
            let value = text_of(atom.query_value).unwrap();
            ConstraintTree::Equality(SimpleEqualityConstraint::new(key, value))
        },
    }
}

pub fn term_converter(term: QueryTerm<&[u8]>) -> (constraint: ConstraintTree<SimpleEqualityConstraint>)
    requires
        term_is_text(term@),
    ensures
        constraint@ == compile_term(term@),
    decreases term,
{
    match term {
        QueryTerm::Unary(atom) => atom_converter(atom),
        QueryTerm::Binary(atom, op, rest) => match op {
            QueryOpTerm::AND => ConstraintTree::Conjunction(
                Box::new(atom_converter(atom)),
                Box::new(term_converter(*rest)),
            ),
        },
    }
}

pub fn expr_converter(expr: QueryExpression<&[u8]>) -> (constraint: ConstraintTree<SimpleEqualityConstraint>)
    requires
        expression_is_text(expr@),
    ensures
        constraint@ == compile_expression(expr@),
    decreases expr,
{
    match expr {
        QueryExpression::Unary(term) => term_converter(term),
        QueryExpression::Binary(term, op, rest) => match op {
            QueryOpExpression::OR => ConstraintTree::Disjunction(
                Box::new(term_converter(term)),
                Box::new(expr_converter(*rest)),
            ),
        },
    }
}

/// Constructs the root constraint of a parse tree, with its subconstraints.
pub fn constraint_factory(parse_tree: Query<&[u8]>) -> (constraint: ConstraintTree<SimpleEqualityConstraint>)
    requires
        query_is_text(parse_tree@),
    ensures
        constraint@ == compile_query(parse_tree@),
{
    expr_converter(parse_tree.tree)
}

/// Whether a line with these fields has the key of the atom with the value
/// of the atom.
pub open spec fn atom_holds(atom: QueryAtom<Seq<u8>>, fields: Map<Seq<char>, Seq<char>>) -> bool {
    field_equals(fields, decode_utf8(atom.query_key), decode_utf8(atom.query_value))
}

/// The atoms of a term, from left to right.
pub open spec fn term_atoms(term: QueryTerm<Seq<u8>>) -> Seq<QueryAtom<Seq<u8>>>
    decreases term,
{
    match term {
        QueryTerm::Unary(atom) => seq![atom],
        QueryTerm::Binary(atom, op, rest) => seq![atom] + term_atoms(*rest),
    }
}

/// The terms of an expression, from left to right.
pub open spec fn expression_terms(expression: QueryExpression<Seq<u8>>) -> Seq<QueryTerm<Seq<u8>>>
    decreases expression,
{
    match expression {
        QueryExpression::Unary(term) => seq![term],
        QueryExpression::Binary(term, op, rest) => seq![term] + expression_terms(*rest),
    }
}

/// Whether every atom of a term holds of the fields.
pub open spec fn all_atoms_hold(term: QueryTerm<Seq<u8>>, fields: Map<Seq<char>, Seq<char>>) -> bool {
    forall|i: int| 0 <= i < term_atoms(term).len() ==> atom_holds(#[trigger] term_atoms(term)[i], fields)
}

/// Whether all atoms of some term of an expression hold of the fields.
pub open spec fn some_term_holds(
    expression: QueryExpression<Seq<u8>>,
    fields: Map<Seq<char>, Seq<char>>,
) -> bool {
    exists|j: int|
        0 <= j < expression_terms(expression).len() && all_atoms_hold(
            #[trigger] expression_terms(expression)[j],
            fields,
        )
}

/// A line passes a compiled term exactly if every atom of the term holds of
/// it.
pub proof fn lemma_term_is_conjunction(term: QueryTerm<Seq<u8>>, fields: Map<Seq<char>, Seq<char>>)
    ensures
        model_holds(compile_term(term), fields) <==> all_atoms_hold(term, fields),
    decreases term,
{
    match term {
        QueryTerm::Unary(atom) => {
            let atoms = term_atoms(term);
            assert(atoms.len() == 1 && atoms[0] == atom);
            if all_atoms_hold(term, fields) {
                assert(atom_holds(atoms[0], fields));
            }
        },
        QueryTerm::Binary(atom, op, rest) => {
            lemma_term_is_conjunction(*rest, fields);
            assert(model_holds(compile_atom(atom), fields) == atom_holds(atom, fields));
            let atoms = term_atoms(term);
            let others = term_atoms(*rest);
            assert(atoms[0] == atom);
            assert forall|i: int| 0 <= i < others.len() implies others[i] == atoms[i + 1] by {}
            if all_atoms_hold(term, fields) {
                assert forall|i: int| 0 <= i < others.len() implies atom_holds(
                    #[trigger] others[i],
                    fields,
                ) by {
                    assert(atom_holds(atoms[i + 1], fields));
                }
                assert(atom_holds(atoms[0], fields));
            }
            if atom_holds(atom, fields) && all_atoms_hold(*rest, fields) {
                assert forall|i: int| 0 <= i < atoms.len() implies atom_holds(
                    #[trigger] atoms[i],
                    fields,
                ) by {
                    if i > 0 {
                        assert(atom_holds(others[i - 1], fields));
                    }
                }
            }
        },
    }
}

/// A line passes a compiled query exactly if, of some term between two `||`,
/// every atom holds of it: `&&` binds tighter than `||`.
pub proof fn lemma_expression_is_disjunction(
    expression: QueryExpression<Seq<u8>>,
    fields: Map<Seq<char>, Seq<char>>,
)
    ensures
        model_holds(compile_expression(expression), fields) <==> some_term_holds(expression, fields),
    decreases expression,
{
    let terms = expression_terms(expression);
    match expression {
        QueryExpression::Unary(term) => {
            lemma_term_is_conjunction(term, fields);
            assert(terms.len() == 1 && terms[0] == term);
        },
        QueryExpression::Binary(term, op, rest) => {
            lemma_term_is_conjunction(term, fields);
            lemma_expression_is_disjunction(*rest, fields);
            let others = expression_terms(*rest);
            assert(terms[0] == term);
            assert forall|j: int| 0 <= j < others.len() implies others[j] == terms[j + 1] by {}
            if some_term_holds(*rest, fields) {
                let j = choose|j: int|
                    0 <= j < others.len() && all_atoms_hold(#[trigger] others[j], fields);
                assert(all_atoms_hold(terms[j + 1], fields));
            }
            if some_term_holds(expression, fields) {
                let j = choose|j: int| 0 <= j < terms.len() && all_atoms_hold(#[trigger] terms[j], fields);
                if j > 0 {
                    assert(all_atoms_hold(others[j - 1], fields));
                }
            }
        },
    }
}

} // verus!
