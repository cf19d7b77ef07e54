//! A minimal line-search library: a validated search configuration and two
//! substring search modes (case-sensitive and case-insensitive) over the full
//! text of a file, returning the matching lines in their original order.

pub mod config;
pub mod laws;
pub mod lines;
pub mod matching;
pub mod search;

pub use config::Config;
pub use config::ConfigError;
pub use config::IOError;
pub use search::search;
pub use search::search_case_insensitive;
pub use search::search_with_config;
