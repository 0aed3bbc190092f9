//! The stored records of meetings and the schema migrations.
pub mod models;
pub mod migrations;
