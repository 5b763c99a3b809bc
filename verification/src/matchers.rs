//! Predicates on log lines of a fixed layout.

pub mod matcher;
pub mod thread_matcher;
