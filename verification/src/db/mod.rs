//! Schema plumbing the database layer runs.

pub mod migrations;
