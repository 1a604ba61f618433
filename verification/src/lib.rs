//! A small line-oriented text search library.
//!
//! Given the full contents of a text file and a query — a literal substring
//! or a regular-expression pattern — the library finds the lines that match,
//! numbered from 1 in file order, and renders each match with the matched
//! spans wrapped in caller-chosen emphasis markers.

pub mod args;
pub mod config;
pub mod format;
pub mod lines;
pub mod matcher;
pub mod pattern;
pub mod scanner;

pub use args::Args;
pub use args::ArgError;
pub use args::ArgEvent;
pub use args::ParsedArgs;
pub use args::parse_args;
pub use config::Config;
pub use config::ConfigBuilder;
pub use matcher::CaseMode;
pub use scanner::search;
pub use scanner::search_literal;
pub use scanner::try_search;
