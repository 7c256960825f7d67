//! Capture keyboard and mouse activity on one host and replay it on another.
//!
//! The verified core: the fixed-layout wire record, the exit-hotkey monitor
//! shared by the capture threads, and the decisions of the capture and replay
//! loops.

pub mod hotkey;
pub mod protocol;
pub mod relay;
