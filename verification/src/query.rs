//! The filter language: scanner, parser and compiler, and the rendering of
//! result rows.

pub mod compiler;
pub mod output;
pub mod parser;
pub mod tokenizer;

pub use compiler::build_sql;
pub use output::output_results;
