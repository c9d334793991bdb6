//! The storage: a scheduler that is started, given commands and stopped.
//!
//! Whoever drives the storage runs the event loop of the scheduler in a thread of its own and
//! carries the messages there.

use crate::command::Command;
use crate::error::Error;
use crate::key::{Key, Mutation};
use crate::message::Msg;
use vstd::prelude::*;
use vstd::string::*;

verus! {

/// The storage. `H` is the handle of the thread that runs the scheduler, `L` the event loop that
/// it is to run.
pub struct Storage<H, L> {
    sched_handle: Option<H>,
    sched_event_loop: Option<L>,
}

/// The answer of a running storage to a command, `Error::Closed` of any other.
pub open spec fn sent_if<C, B, S>(running: bool, cmd: Command<C, B>) -> Result<
    Msg<C, B, S>,
    Error,
> {
    if running {
        Ok(Msg::RawCmd { cmd })
    } else {
        Err(Error::Closed)
    }
}

impl<H, L> Storage<H, L> {
    /// The handle of the scheduler's thread, while it runs.
    pub closed spec fn handle(&self) -> Option<H> {
        self.sched_handle
    }

    /// The event loop, until the scheduler has been started.
    pub closed spec fn event_loop(&self) -> Option<L> {
        self.sched_event_loop
    }

    /// A storage whose scheduler has not been started, if its event loop could be made.
    pub fn from_engine(event_loop: Result<L, String>) -> (storage: Result<Storage<H, L>, Error>)
        ensures
            match event_loop {
                Ok(event_loop) => {
                    &&& storage is Ok
                    &&& storage->Ok_0.handle() is None
                    &&& storage->Ok_0.event_loop() == Some(event_loop)
                },
                Err(reason) => storage == Err::<Storage<H, L>, Error>(Error::Io(reason)),
            },
    {
        match event_loop {
            Ok(event_loop) => Ok(
                Storage { sched_handle: None, sched_event_loop: Some(event_loop) },
            ),
            Err(reason) => Err(Error::Io(reason)),
        }
    }

    /// Whether the scheduler runs.
    pub fn is_running(&self) -> (yes: bool)
        ensures
            yes == (self.handle() is Some),
    {
        self.sched_handle.is_some()
    }

    /// Whether the scheduler can still be started: its event loop is there.
    pub fn can_start(&self) -> (yes: bool)
        ensures
            yes == (self.event_loop() is Some),
    {
        self.sched_event_loop.is_some()
    }

    /// Starts the scheduler, unless it runs: its event loop is handed out, to be run in a new
    /// thread.
    pub fn start(&mut self) -> (event_loop: Result<L, Error>)
        requires
            old(self).handle() is None ==> old(self).event_loop() is Some,
        ensures
            final(self).handle() == old(self).handle(),
            match old(self).handle() {
                Some(_) => {
                    &&& event_loop matches Err(Error::Other(reason))
                    &&& reason@ == "scheduler is already running"@
                    &&& final(self).event_loop() == old(self).event_loop()
                },
                None => {
                    &&& event_loop == Ok::<L, Error>(old(self).event_loop()->Some_0)
                    &&& final(self).event_loop() is None
                },
            },
    {
        if self.sched_handle.is_some() {
            return Err(Error::Other(String::from_str("scheduler is already running")));
        }
        Ok(self.sched_event_loop.take().unwrap())
    }

    /// Takes in the thread that runs the event loop, or why there is none.
    pub fn started(&mut self, spawned: Result<H, String>) -> (res: Result<(), Error>)
        ensures
            final(self).event_loop() == old(self).event_loop(),
            match spawned {
                Ok(handle) => res is Ok && final(self).handle() == Some(handle),
                Err(reason) => res == Err::<(), Error>(Error::Io(reason)) && final(self).handle()
                    == old(self).handle(),
            },
    {
        match spawned {
            Ok(handle) => {
                self.sched_handle = Some(handle);
                Ok(())
            },
            Err(reason) => Err(Error::Io(reason)),
        }
    }

    /// The message that stops the scheduler, if it runs.
    pub fn quit_msg<C, B, S>(&self) -> (msg: Option<Msg<C, B, S>>)
        ensures
            msg == if self.handle() is Some {
                Some(Msg::<C, B, S>::Quit)
            } else {
                None
            },
    {
        if self.sched_handle.is_some() {
            Some(Msg::Quit)
        } else {
            None
        }
    }

    /// Stops the scheduler: takes in whether the message that stops it was sent, and hands out the
    /// thread, to be waited for. There is none if the scheduler does not run.
    pub fn stop(&mut self, sent: Result<(), String>) -> (handle: Result<Option<H>, Error>)
        ensures
            final(self).event_loop() == old(self).event_loop(),
            match (old(self).handle(), sent) {
                (None, _) => {
                    &&& handle == Ok::<Option<H>, Error>(None)
                    &&& final(self).handle() is None
                },
                (Some(_), Err(reason)) => {
                    &&& handle == Err::<Option<H>, Error>(Error::Other(reason))
                    &&& final(self).handle() == old(self).handle()
                },
                (Some(_), Ok(())) => {
                    &&& handle == Ok::<Option<H>, Error>(old(self).handle())
                    &&& final(self).handle() is None
                },
            },
    {
        if self.sched_handle.is_none() {
            return Ok(None);
        }
        match sent {
            Ok(()) => Ok(self.sched_handle.take()),
            Err(reason) => Err(Error::Other(reason)),
        }
    }

    /// What stopping the scheduler comes to, once its thread has been waited for.
    pub fn stopped(joined: Result<(), String>) -> (res: Result<(), Error>)
        ensures
            match joined {
                Ok(()) => res is Ok,
                Err(reason) => {
                    &&& res matches Err(Error::Other(text))
                    &&& text@ == "failed to join sched_handle, err:"@ + reason@
                },
            },
    {
        match joined {
            Ok(()) => Ok(()),
            Err(reason) => {
                let mut text: String = String::from_str("failed to join sched_handle, err:");
                text.append(reason.as_str());
                Err(Error::Other(text))
            },
        }
    }

    /// The message that carries a command to the scheduler, while it runs.
    fn send<C, B, S>(&self, cmd: Command<C, B>) -> (msg: Result<Msg<C, B, S>, Error>)
        ensures
            msg == sent_if::<C, B, S>(self.handle() is Some, cmd),
    {
        if self.sched_handle.is_some() {
            Ok(Msg::RawCmd { cmd })
        } else {
            Err(Error::Closed)
        }
    }

    /// Reads `key` as of `start_ts`.
    pub fn async_get<C, B, S>(&self, ctx: C, key: Key, start_ts: u64, callback: B) -> (msg: Result<
        Msg<C, B, S>,
        Error,
    >)
        ensures
            msg == sent_if::<C, B, S>(
                self.handle() is Some,
                (Command::Get { ctx, key, start_ts, callback: Some(callback) }),
            ),
    {
        let cmd = Command::Get { ctx, key, start_ts, callback: Some(callback) };
        self.send(cmd)
    }

    /// Reads `keys` as of `start_ts`.
    pub fn async_batch_get<C, B, S>(
        &self,
        ctx: C,
        keys: Vec<Key>,
        start_ts: u64,
        callback: B,
    ) -> (msg: Result<Msg<C, B, S>, Error>)
        ensures
            msg == sent_if::<C, B, S>(
                self.handle() is Some,
                (Command::BatchGet { ctx, keys, start_ts, callback: Some(callback) }),
            ),
    {
        let cmd = Command::BatchGet { ctx, keys, start_ts, callback: Some(callback) };
        self.send(cmd)
    }

    /// Reads up to `limit` keys from `start_key` on, as of `start_ts`.
    pub fn async_scan<C, B, S>(
        &self,
        ctx: C,
        start_key: Key,
        limit: usize,
        start_ts: u64,
        callback: B,
    ) -> (msg: Result<Msg<C, B, S>, Error>)
        ensures
            msg == sent_if::<C, B, S>(
                self.handle() is Some,
                (Command::Scan { ctx, start_key, limit, start_ts, callback: Some(callback) }),
            ),
    {
        let cmd = Command::Scan { ctx, start_key, limit, start_ts, callback: Some(callback) };
        self.send(cmd)
    }

    /// Locks and stages the mutations of the transaction that started at `start_ts`.
    pub fn async_prewrite<C, B, S>(
        &self,
        ctx: C,
        mutations: Vec<Mutation>,
        primary: Vec<u8>,
        start_ts: u64,
        callback: B,
    ) -> (msg: Result<Msg<C, B, S>, Error>)
        ensures
            msg == sent_if::<C, B, S>(
                self.handle() is Some,
                (Command::Prewrite {
                    ctx,
                    mutations,
                    primary,
                    start_ts,
                    callback: Some(callback),
                }),
            ),
    {
        let cmd = Command::Prewrite {
            ctx,
            mutations,
            primary,
            start_ts,
            callback: Some(callback),
        };
        self.send(cmd)
    }

    /// Commits, at `commit_ts`, keys of the transaction that started at `lock_ts`.
    pub fn async_commit<C, B, S>(
        &self,
        ctx: C,
        keys: Vec<Key>,
        lock_ts: u64,
        commit_ts: u64,
        callback: B,
    ) -> (msg: Result<Msg<C, B, S>, Error>)
        ensures
            msg == sent_if::<C, B, S>(
                self.handle() is Some,
                (Command::Commit { ctx, keys, lock_ts, commit_ts, callback: Some(callback) }),
            ),
    {
        let cmd = Command::Commit { ctx, keys, lock_ts, commit_ts, callback: Some(callback) };
        self.send(cmd)
    }

    /// Commits a key as `async_commit` does, then reads it as of `get_ts`.
    pub fn async_commit_then_get<C, B, S>(
        &self,
        ctx: C,
        key: Key,
        lock_ts: u64,
        commit_ts: u64,
        get_ts: u64,
        callback: B,
    ) -> (msg: Result<Msg<C, B, S>, Error>)
        ensures
            msg == sent_if::<C, B, S>(
                self.handle() is Some,
                (Command::CommitThenGet {
                    ctx,
                    key,
                    lock_ts,
                    commit_ts,
                    get_ts,
                    callback: Some(callback),
                }),
            ),
    {
        let cmd = Command::CommitThenGet {
            ctx,
            key,
            lock_ts,
            commit_ts,
            get_ts,
            callback: Some(callback),
        };
        self.send(cmd)
    }

    /// Rolls a key back for the transaction that started at `start_ts`.
    pub fn async_cleanup<C, B, S>(&self, ctx: C, key: Key, start_ts: u64, callback: B) -> (msg:
        Result<Msg<C, B, S>, Error>)
        ensures
            msg == sent_if::<C, B, S>(
                self.handle() is Some,
                (Command::Cleanup { ctx, key, start_ts, callback: Some(callback) }),
            ),
    {
        let cmd = Command::Cleanup { ctx, key, start_ts, callback: Some(callback) };
        self.send(cmd)
    }

    /// Rolls keys back for the transaction that started at `start_ts`.
    pub fn async_rollback<C, B, S>(
        &self,
        ctx: C,
        keys: Vec<Key>,
        start_ts: u64,
        callback: B,
    ) -> (msg: Result<Msg<C, B, S>, Error>)
        ensures
            msg == sent_if::<C, B, S>(
                self.handle() is Some,
                (Command::Rollback { ctx, keys, start_ts, callback: Some(callback) }),
            ),
    {
        let cmd = Command::Rollback { ctx, keys, start_ts, callback: Some(callback) };
        self.send(cmd)
    }

    /// Rolls a key back for the transaction that started at `lock_ts`, then reads it.
    pub fn async_rollback_then_get<C, B, S>(
        &self,
        ctx: C,
        key: Key,
        lock_ts: u64,
        callback: B,
    ) -> (msg: Result<Msg<C, B, S>, Error>)
        ensures
            msg == sent_if::<C, B, S>(
                self.handle() is Some,
                (Command::RollbackThenGet { ctx, key, lock_ts, callback: Some(callback) }),
            ),
    {
        let cmd = Command::RollbackThenGet { ctx, key, lock_ts, callback: Some(callback) };
        self.send(cmd)
    }
}

} // verus!
