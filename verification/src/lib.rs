//! The filter language of a markdown document index: a filter expression is
//! scanned into tokens, parsed into a tree, and compiled into the text of a
//! SQL query; the rows that come back are rendered as a table, as JSON or as a
//! list. Beside it stand what the index reads from a note and what it hands to
//! its store.

pub mod db;
pub mod extractor;
pub mod json;
pub mod query;
pub mod scanner;
pub mod text;
