//! A controlled memory-exhaustion stress tool, verified.
//!
//! The library holds the logic of the tool: the leak accounting, the
//! parsing of the system memory-status text, the monitor state machine
//! with its termination latch, and the exact text of every line the tool
//! writes to its log file. The surrounding program (threads, files,
//! console) lives outside the library and only moves plain values in
//! and out.

pub mod clock;
pub mod monitor;
pub mod numfmt;
pub mod probe;
pub mod producer;
pub mod report;
pub mod tracker;
