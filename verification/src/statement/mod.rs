//! Statements: prepared statements, the binding of values to them, and
//! bound statements.

pub mod bound;
pub mod prepared;
