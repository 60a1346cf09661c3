//! The terminal session manager: the commands that open, feed, resize and
//! close sessions, the rules they follow, and the steps of the task that
//! reads a session's output.

pub mod commands;
pub mod protocol;
pub mod reader;
