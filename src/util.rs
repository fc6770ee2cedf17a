//! Facts about the machine the debugger runs on.

pub mod host;
