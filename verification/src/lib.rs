//! Configuration parsing for a terminal diff-highlighting tool.
//!
//! The library turns the values of a handful of command-line flags into a
//! validated configuration: four independently styled "faces" (added and
//! removed lines, and their word-level refinements) and a line-number display
//! mode. Its heart is the parser of the `--colors` mini-grammar
//! (`face:attribute:attribute...`), with exact contracts for what every token
//! sequence does to the configuration and for the message of every error.

pub mod config;
pub mod laws;
pub mod cli_args;
pub mod strutil;

pub use config::AppConfig;
pub use config::ColorValue;
pub use config::FaceName;
pub use config::LineNumberStyle;
pub use config::StyleRecord;
