//! A native process debugger core: breakpoint patching, stop-event
//! classification and the tracee lifecycle, with the kernel calls left to
//! the caller; and the state of its interactive views.

pub mod debug;
pub mod inferior;
pub mod interactive;
pub mod util;
