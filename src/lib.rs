//! Data layer of a personal finance tracker: categories, transaction
//! records, schema migrations and the command facade above them.

pub mod amount;
pub mod error;
pub mod time;
pub mod entities;
pub mod migration;
pub mod paths;
pub mod database;
pub mod commands;
pub mod laws;
