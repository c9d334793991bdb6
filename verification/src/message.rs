//! The messages that the scheduler takes in, and what it asks for.

use crate::command::Command;
use crate::error::EngineError;
use crate::process::{Answer, ProcessResult};
use vstd::prelude::*;

verus! {

/// A timer of the scheduler.
#[derive(Debug)]
pub enum Tick {
    /// It is time to report.
    ReportStatistic,
}

/// A message to the scheduler. `S` is a snapshot of the engine; the scheduler does not look into
/// it.
#[derive(Debug)]
pub enum Msg<C, B, S> {
    /// Stop.
    Quit,
    /// A new command.
    RawCmd { cmd: Command<C, B> },
    /// The snapshot that a command asked for, or why there is none.
    SnapshotFinish { cid: u64, snapshot: Result<S, EngineError> },
    /// The engine has stored the changes of a command, or has failed to; `pr` is what the command
    /// had computed.
    WriteFinish { cid: u64, pr: ProcessResult, result: Result<(), EngineError> },
}

/// What is to be done once a message has been taken in.
#[derive(Debug)]
pub enum Action<B, S> {
    /// Stop.
    Shutdown,
    /// Ask the engine for a snapshot for the command.
    GetSnapshot { cid: u64 },
    /// Nothing: the command waits for a latch.
    Wait,
    /// Do the work of the command on its snapshot.
    Process { cid: u64, snapshot: S },
    /// Give the answer to the callback.
    Reply { answer: Answer<B> },
}

/// What a timer asks for.
#[derive(Debug)]
pub struct Report {
    /// How many commands are running.
    pub running_cmd_count: usize,
    /// The timer to set.
    pub next: Tick,
    /// When it is due, in milliseconds from now.
    pub delay: u64,
}

} // verus!
