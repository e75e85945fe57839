//! Tail log files backward, pick out the most recent error block, and render
//! it as alert text.
//!
//! The library holds the decisions: how a line is classified, how a block is
//! assembled while reading a file from its end, how the alert text is laid
//! out, and how a set of channels is kept and visited. Watching files,
//! reading them and sending alerts happen around it.

pub mod pattern;

pub mod matcher;
pub mod extract;
pub mod channel;
pub mod supervisor;
