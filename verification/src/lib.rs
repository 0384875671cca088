//! Decision core of the per-pane hooks that track coding agents in tmux.
//!
//! A hook process takes the pane's advisory lock, reads the pane's options,
//! lets a handler of this crate decide, and carries out the writes and the
//! notification that the handler asked for. Everything between the reads and
//! the writes is here, with its contract.

pub mod guarantees;
pub mod lock;
pub mod pane;
pub mod protocol;
pub mod roster;
pub mod subagent;
pub mod teardown;
