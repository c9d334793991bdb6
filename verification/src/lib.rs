//! Command scheduling for a transactional key-value store.

pub mod command;
pub mod error;
pub mod hasher;
pub mod key;
pub mod latch;
pub mod laws;
pub mod message;
pub mod process;
pub mod scheduler;
pub mod state;
pub mod storage;
pub mod text;
