//! The query language: its grammar, its constraints and their evaluation.

pub mod constraint;
pub mod constraint_factory;
pub mod query_ast;
pub mod query_text;
pub mod simple_query;
