//! Configuration handling for a CSS custom-property language server.
//!
//! The crate merges a fixed default configuration tree with an optional
//! user-supplied overlay and derives the command-line flags for a server
//! variant that takes its configuration through arguments.

pub mod args;
pub mod laws;
pub mod resolver;
pub mod server;
pub mod value;
