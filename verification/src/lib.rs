//! Verified core of `rivet`, a command-line and terminal client for saved HTTP requests.
pub mod text;
pub mod request_path;
pub mod types;
pub mod placeholders;
pub mod collections;
pub mod listing;
pub mod sidebar;
pub mod tui;
pub mod send;
pub mod report;
pub mod rivet_folder;
pub mod laws;
