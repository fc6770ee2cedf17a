//! Word-level memory patching and breakpoint records.

pub mod breakpoint;
pub mod word;
