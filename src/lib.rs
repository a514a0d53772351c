//! A small line filter: keeps the lines of a text that contain a query,
//! exactly or after lowercasing, and decides where the text comes from.

pub mod config;
pub mod laws;
pub mod lines;
pub mod matcher;
pub mod text;

pub use config::{
    is_listed_command, search_command_output, search_contents, Argument, Config, ConfigError,
};
pub use lines::next_line;
pub use matcher::{search, search_case_insensitive};
pub use text::{line_contains, same_text};
