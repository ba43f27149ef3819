//! A small line-oriented text filter: split a text into lines, find the
//! lines that contain a query substring (case-sensitively or after case
//! folding), and build the report that a command-line front end prints and
//! writes to a file.

pub mod config;
pub mod engine;
pub mod search;
pub mod text;

pub use config::Config;
pub use engine::run_engine;
pub use engine::Outcome;
pub use search::search;
pub use search::search_case_insensitive;
