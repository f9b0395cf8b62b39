//! Verified core of the DeepSeek Harness desktop runtime.
//!
//! Everything that the runtime decides is here; what it does to the disk, the network, other
//! programs and the window, the application does. A procedure that alternates between the two
//! is a value that says what it wants done next and takes note of what that came to: its
//! contract fixes every step, and the laws beside it say what the steps amount to.

pub mod text;
pub mod path;
pub mod json;
pub mod i18n;
pub mod config;
pub mod http_util;
pub mod extract;
pub mod node_manager;
pub mod repo_manager;
pub mod repo_rebuild;
pub mod command;
pub mod builder;
pub mod host_runner;
pub mod watcher;
pub mod webview_app;
pub mod ui;
pub mod bootstrap;
