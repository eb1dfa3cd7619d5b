//! The request handlers and the values they exchange.

pub mod common;
pub mod dump_handler;
pub mod editor_handler;
pub mod editor_page;
pub mod encoding;
pub mod file;
pub mod listing;
pub mod percent;
pub mod repo_path;
pub mod slow_handler;
pub mod status_code;
pub mod status_handler;
pub mod token_store;
