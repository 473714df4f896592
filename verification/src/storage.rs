//! What is stored: the command history and the interface's settings.
pub mod config;
pub mod db;
pub mod history;
