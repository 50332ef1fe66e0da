//! Menu navigation, validated prompts and editing forms of a terminal
//! front-end for a password manager.
pub mod model;
pub mod text;
pub mod prompt;
pub mod edit;
pub mod menu;
pub mod password;
pub mod config;
pub mod message;
pub mod session;
pub mod logger;

pub use logger::ShellLoggerError;
pub use session::{new, EditorImpl};
