//! Crash and hang reporting: the decisions of the fault handler, the stall watchdog and
//! the upload passes, each a verified function over plain values.

pub mod crash_pass;
pub mod fault;
pub mod panic_pass;
pub mod report;
pub mod symbols;
pub mod text;
pub mod watchdog;
