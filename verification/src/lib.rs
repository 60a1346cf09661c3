//! Session and caching core of a desktop developer tool that combines an
//! interactive terminal with a file and git explorer.
//!
//! - [`state`] holds the session store: the live terminal sessions by
//!   identifier, and every identifier that was ever handed out.
//! - [`pty`] holds the session manager: the commands that open, feed, resize
//!   and close sessions, the rules they follow with what holds of every
//!   sequence of them, and the steps of the task that reads a session's
//!   output.
//! - [`git_cache`] holds the git status cache: entries that are served for a
//!   bounded time, and the registry of the watches that evict them.
//! - [`fs`] and [`listing`] hold what the file explorer shows, and in which
//!   order.
//! - [`error`] names the failures, [`text`] holds the text helpers.
//!
//! The core does no input or output of its own. Whoever calls it allocates
//! pseudo-terminals, watches the filesystem and walks directories, and tells
//! the core what came of it.

pub mod error;
pub mod fs;
pub mod git_cache;
pub mod listing;
pub mod pty;
pub mod state;
pub mod text;
