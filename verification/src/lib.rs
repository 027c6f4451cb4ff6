//! A single-table key-value engine behind a small SQL-like command surface.
//!
//! The crate holds the command-to-storage pipeline: statements are turned
//! into typed [`cmd::Command`] values, routed by [`dispatch`], validated by a
//! schema-bound [`table::Table`] and kept in a key-ordered
//! [`sstable::SSTable`].
pub mod data;
pub mod keyorder;
pub mod sstable;
pub mod table;
pub mod ast;
pub mod number;
pub mod sql;
pub mod cmd;
pub mod dispatch;
