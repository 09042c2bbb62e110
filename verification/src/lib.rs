//! The decisions behind `cmail`, a command line utility that emails the output
//! of a long running command at a fixed period.
//!
//! Nothing in this crate touches the outside world.  Processes, signals, timers
//! and channels belong to the program around it, which performs the actions that
//! the state machines here ask for and hands back what came of them.

pub mod args;
pub mod error;
pub mod history;
pub mod message;
pub mod muxer;
pub mod passthru;
pub mod sender;
pub mod session;
pub mod shell;
pub mod steps;
pub mod text;

