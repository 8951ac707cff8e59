//! A small todo-list library: a task store backed by a local SQLite
//! database, a command-line dispatcher, and a table renderer.
pub mod cli;
pub mod digits;
pub mod render;
pub mod store;
