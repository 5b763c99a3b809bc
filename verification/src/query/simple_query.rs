//! Queries: a user's filter on parsed log lines.
//!
//! A query is a disjunction of conjunctions of equalities:
//! `field1="value1" && field2="value2" || field3="value3"`.
//! Conjunctions bind tighter than disjunctions.

use crate::parser::log_line_parse_result::LogLineParseResult;
use crate::query::constraint::{
    lemma_tree_of_equalities, model_holds, Constraint, ConstraintModel, ConstraintTree,
    SimpleEqualityConstraint,
};
use crate::query::constraint_factory::{
    compile_query, constraint_factory, lemma_expression_is_disjunction, some_term_holds,
};
use crate::query::query_ast;
use crate::query::query_ast::{parse_input, parse_query, QueryExpression, QuerySyntaxError};
use crate::query::query_text::{expression_is_well_formed, lemma_grammar, spells_expression};
use vstd::prelude::*;
use vstd::utf8::*;

verus! {

/// A parsed query: the constraint that a line must pass.
pub struct Query {
    constraints: ConstraintTree<SimpleEqualityConstraint>,
}

impl View for Query {
    type V = ConstraintModel;

    closed spec fn view(&self) -> ConstraintModel {
        self.constraints@
    }
}

/// What `Query::new` owes for a query text: the constraint that the text
/// states, or what is wrong with the text.
pub open spec fn query_of_text(raw_query: Seq<char>) -> Result<ConstraintModel, QuerySyntaxError> {
    match parse_input(encode_utf8(raw_query)) {
        Ok(parse_tree) => Ok(compile_query(parse_tree)),
        Err(error) => Err(error),
    }
}

impl Query {
    /// Parses a query and compiles it to a constraint.
    pub fn new(raw_query: &str) -> (query: Result<Self, QuerySyntaxError>)
        ensures
            match (query, query_of_text(raw_query@)) {
                (Ok(made), Ok(model)) => made@ == model,
                (Err(error), Err(expected)) => error == expected,
                _ => false,
            },
    {
        match parse_query(raw_query) {
            Ok(parse_tree) => Ok(Self { constraints: Self::generate_constraints(parse_tree) }),
            Err(error) => Err(error),
        }
    }

    /// Maps a parse tree to the constraint it states.
    fn generate_constraints(parse_tree: query_ast::Query<&[u8]>) -> (constraint: ConstraintTree<SimpleEqualityConstraint>)
        requires
            query_ast::query_is_text(parse_tree@),
        ensures
            constraint@ == compile_query(parse_tree@),
    {
        constraint_factory(parse_tree)
    }

    /// Whether the given log line passes the constraints of the query.
    pub fn check<L: LogLineParseResult>(&self, log_line: &L) -> (passed: bool)
        ensures
            passed == model_holds(self@, log_line.fields()),
    {
        proof {
            lemma_tree_of_equalities(self.constraints, log_line.fields());
        }
        self.constraints.check(log_line)
    }
}

/// A line passes the query of a text exactly if, of some term that the text
/// spells between two `||`, every atom holds of it.
pub proof fn lemma_query_of_spelled_text(
    raw_query: Seq<char>,
    tree: QueryExpression<Seq<u8>>,
    fields: Map<Seq<char>, Seq<char>>,
)
    requires
        spells_expression(encode_utf8(raw_query), 0, encode_utf8(raw_query).len() as int, tree),
        expression_is_well_formed(tree),
    ensures
        query_of_text(raw_query) matches Ok(model) && (model_holds(model, fields) <==> some_term_holds(
            tree,
            fields,
        )),
{
    lemma_grammar(encode_utf8(raw_query), query_ast::Query { tree });
    lemma_expression_is_disjunction(tree, fields);
}

} // verus!
