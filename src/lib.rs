//! Ephemeral per-feature development sessions: a working tree, a stable identity (slug,
//! port, database name), an ordered set of lifecycle scripts, and a registry of the
//! sessions that are up.
//!
//! The modules hold the logic, proved against its contracts; reading files, spawning
//! processes and the command line stand outside, and talk to it in plain values.

pub mod config;
pub mod env;
pub mod error;
pub mod runner;
pub mod session;
pub mod state;
pub mod text;
pub mod worktree;
