//! Finds the calls of WordPress hook functions in PHP sources, classifies
//! them, and renders what was found as Markdown, as CSV and as a summary.

pub mod analyzer;
pub mod catalog;
pub mod csv_export;
pub mod decimal;
pub mod grouping;
pub mod laws;
pub mod lines;
pub mod markdown;
pub mod matcher;
pub mod record;
pub mod search;
pub mod sources;
pub mod summary;
pub mod text;
pub mod trim;
