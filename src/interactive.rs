//! State of the interactive front end: list selections, tabs, the command
//! table, completion and command-line parsing.

pub mod app;
pub mod commands;
pub mod completer;
pub mod console;
pub mod context;
pub mod tabs;
pub mod text;
