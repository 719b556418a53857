//! Inspection views over a columnar table file: a metadata summary, the row
//! count, the schema tree, and a bounded window of rows as CSV or JSON text.
//!
//! The reader that decodes the file is an outside collaborator. This library
//! holds what is decided and rendered around it: which view an invocation
//! selects, how many rows a view may show, and the exact text of each view.

pub mod command;
pub mod csv;
pub mod display;
pub mod error;
pub mod json;
pub mod limit;
pub mod options;
pub mod reader;
pub mod row;
pub mod summary;
pub mod text;
