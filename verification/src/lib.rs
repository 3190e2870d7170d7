//! Core of a local activity tracker: the rules by which a poll of the focused
//! window extends the current activity record or opens a new one, and by which
//! stored records are handed to a remote collector exactly up to a checkpoint.

pub mod config;
pub mod err;
pub mod reconciler;
pub mod record;
pub mod scheduler;
pub mod storage;
pub mod sync_engine;
pub mod wire;
