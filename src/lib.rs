//! A pipe-oriented table manipulation language: a chain of verbs is checked
//! against a simulated schema, then evaluated verb by verb over an in-memory
//! table, with sinks that render the table as aligned text.
pub mod table;
pub mod text;
pub mod select;
pub mod unnest;
pub mod verbs;
pub mod typing;
pub mod engine;
pub mod interpreter;
