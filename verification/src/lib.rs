//! The decisions of a system update: which commands to run on which host, in what
//! order, what to make of their output, and when to stop.
//!
//! The library launches nothing. [`plan`] chooses the steps for a host, and a
//! [`runner::Runner`] takes them one launch at a time: it names the command to launch,
//! is told how the launch ended, and names what comes next. [`cargo_list`] reads the
//! listing of installed packages, [`chain`] turns the output of one command into
//! arguments of another, and [`text`] holds the notions of line and token that both
//! rest on.

pub mod cargo_list;
pub mod chain;
pub mod command;
pub mod decode;
pub mod outcome;
pub mod plan;
pub mod runner;
pub mod step;
pub mod text;
