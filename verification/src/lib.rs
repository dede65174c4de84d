//! License-header engine: detects, inserts, replaces and removes license
//! headers in text files, framed by configurable comment styles.
//!
//! The engine operates on a file's full decoded text. A scan locates the
//! offset where a header may begin (after any skippable prologue such as a
//! shebang line), decides whether an existing header is present, and if so
//! computes the exact span it occupies. Splice operations then insert or
//! delete header text by absolute offset, leaving the remainder of the file
//! untouched.

pub mod config;
pub mod document;
pub mod laws;
pub mod matcher;
pub mod parser;
pub mod pattern;
pub mod scan;
pub mod style;
pub mod text;
