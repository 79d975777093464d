//! Declarative schema management for PostgreSQL-family databases: the SQL
//! tokenizer, publish profiles and their drop policies, server capabilities,
//! the grouping of publish statements into transactions, and the error kinds.

pub mod capabilities;
pub mod errors;
pub mod lexer;
pub mod profiles;
pub mod publish;
