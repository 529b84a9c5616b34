//! Plans: the plan file grammar, the dependency graph, status markers and
//! plan validation.
pub mod grammar;
pub mod parser;
pub mod graph;
pub mod validator;
pub mod tracker;
