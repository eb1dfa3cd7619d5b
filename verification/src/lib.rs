//! Request handling for a small local HTTP server: static files confined to a
//! root directory, directory listings, diagnostic endpoints and a
//! token-protected "open in editor" workflow.

pub mod config;
pub mod sticky;
pub mod text;
pub mod web;
pub mod web_server;
pub mod window_state;
