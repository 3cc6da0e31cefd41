//! Loading JSON records into a relational table.
//!
//! A path expression selects the records of a document, a mapping turns each
//! record into column values, and the batch loader and the batch updater
//! decide, step by step, what is run against the table and what is reported.
//! Files and database connections stay with the caller: the library takes a
//! parsed document and the database's answers, and gives back what to do next.

pub mod ambient;
pub mod discovery;
pub mod failure;
pub mod insert;
pub mod laws;
pub mod names;
pub mod path;
pub mod progress;
pub mod render;
pub mod row;
pub mod schema;
pub mod storage;
pub mod synth;
pub mod text;
pub mod update;
pub mod value;
