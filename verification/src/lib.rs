//! Tracks asynchronous generation jobs ("pollens") announced over two
//! message-bus topics, resolves each job's latest produced artifact, and
//! decides when to persist it and apply it as the active wallpaper while
//! keeping local storage bounded.
//!
//! The crate holds the event-driven core: message screening, topic
//! classification, the per-job state machine with its optional attach mode,
//! latest-artifact selection by embedded frame number, and the storage
//! retention policy. Transport, terminal output and the OS-level apply
//! primitive live outside, in the surrounding application.

pub mod digits;
pub mod message;
pub mod registry;
pub mod resolver;
pub mod storage;
