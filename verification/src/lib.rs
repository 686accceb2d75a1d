//! A store for a personal recipe catalog kept in an SQLite database.

pub mod auth;
pub mod engine;
pub mod ingredients;
pub mod laws;
pub mod recipe;
pub mod statement;
pub mod tables;
