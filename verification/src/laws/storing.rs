//! What the calls of the storage do and return.

use crate::command::Command;
use crate::error::Error;
use crate::key::{Key, Mutation};
use crate::message::Msg;
use crate::storage::Storage;
use vstd::prelude::*;

verus! {

/// A storage is made of its event loop and does not run yet; without an event loop there is none,
/// for the reason given.
pub proof fn law_new_storage<H, L>(
    event_loop: Result<L, String>,
    storage: Result<Storage<H, L>, Error>,
    runs: bool,
    can_start: bool,
)
    requires
        call_ensures(Storage::<H, L>::from_engine, (event_loop,), storage),
        storage matches Ok(storage) ==> call_ensures(
            Storage::<H, L>::is_running,
            (&storage,),
            runs,
        ),
        storage matches Ok(storage) ==> call_ensures(
            Storage::<H, L>::can_start,
            (&storage,),
            can_start,
        ),
    ensures
        event_loop is Ok ==> storage is Ok && !runs && can_start,
        event_loop matches Ok(made) ==> storage->Ok_0.event_loop() == Some(made),
        event_loop matches Err(reason) ==> storage == Err::<Storage<H, L>, Error>(
            Error::Io(reason),
        ),
{
}

/// A storage runs while it has its thread, and can be started while it has its event loop; there is
/// a message to stop it exactly while it runs.
pub proof fn law_runs<H, L, C, B, S>(
    storage: &Storage<H, L>,
    runs: bool,
    can_start: bool,
    msg: Option<Msg<C, B, S>>,
)
    requires
        call_ensures(Storage::<H, L>::is_running, (storage,), runs),
        call_ensures(Storage::<H, L>::can_start, (storage,), can_start),
        call_ensures(Storage::<H, L>::quit_msg::<C, B, S>, (storage,), msg),
    ensures
        runs <==> storage.handle() is Some,
        can_start <==> storage.event_loop() is Some,
        msg is Some <==> runs,
{
}

/// A storage that does not run hands its event loop out when it is started, once; it runs from when
/// it is given the thread.
pub proof fn law_start<H, L>(
    storage: &mut Storage<H, L>,
    started: &mut Storage<H, L>,
    event_loop: Result<L, Error>,
    thread: H,
    res: Result<(), Error>,
    runs: bool,
)
    requires
        storage.handle() is None,
        storage.event_loop() is Some,
        call_ensures(Storage::<H, L>::start, (storage,), event_loop),
        *started == *final(storage),
        call_ensures(Storage::<H, L>::started, (started, Ok(thread)), res),
        call_ensures(Storage::<H, L>::is_running, (final(started),), runs),
    ensures
        event_loop matches Ok(given) && Some(given) == old(storage).event_loop(),
        res is Ok,
        runs,
        final(started).handle() == Some(thread),
        final(started).event_loop() is None,
{
}

/// A storage that runs cannot be started again, and stays as it is.
pub proof fn law_start_again<H, L>(storage: &mut Storage<H, L>, event_loop: Result<L, Error>)
    requires
        storage.handle() is Some,
        call_ensures(Storage::<H, L>::start, (storage,), event_loop),
    ensures
        event_loop matches Err(Error::Other(reason)) && reason@ == "scheduler is already running"@,
        final(storage).handle() == old(storage).handle(),
        final(storage).event_loop() == old(storage).event_loop(),
{
}

/// Without a thread starting fails, for the reason given, and the storage stays as it is.
pub proof fn law_not_started<H, L>(
    storage: &mut Storage<H, L>,
    reason: String,
    res: Result<(), Error>,
)
    requires
        call_ensures(Storage::<H, L>::started, (storage, Err(reason)), res),
    ensures
        res == Err::<(), Error>(Error::Io(reason)),
        final(storage).handle() == old(storage).handle(),
        final(storage).event_loop() == old(storage).event_loop(),
{
}

/// A storage that runs is stopped by a message to quit; its thread is handed out, and it no longer
/// runs. If the message could not be sent it runs on.
pub proof fn law_stop<H, L, C, B, S>(
    storage: &mut Storage<H, L>,
    sent: Result<(), String>,
    msg: Option<Msg<C, B, S>>,
    thread: Result<Option<H>, Error>,
)
    requires
        storage.handle() is Some,
        call_ensures(Storage::<H, L>::quit_msg::<C, B, S>, (&*storage,), msg),
        call_ensures(Storage::<H, L>::stop, (storage, sent), thread),
    ensures
        msg matches Some(Msg::Quit),
        sent is Ok ==> {
            &&& thread == Ok::<Option<H>, Error>(old(storage).handle())
            &&& final(storage).handle() is None
        },
        sent matches Err(reason) ==> {
            &&& thread == Err::<Option<H>, Error>(Error::Other(reason))
            &&& final(storage).handle() == old(storage).handle()
        },
        final(storage).event_loop() == old(storage).event_loop(),
{
}

/// To stop a storage that does not run is to do nothing.
pub proof fn law_stop_stopped<H, L, C, B, S>(
    storage: &mut Storage<H, L>,
    sent: Result<(), String>,
    msg: Option<Msg<C, B, S>>,
    thread: Result<Option<H>, Error>,
)
    requires
        storage.handle() is None,
        call_ensures(Storage::<H, L>::quit_msg::<C, B, S>, (&*storage,), msg),
        call_ensures(Storage::<H, L>::stop, (storage, sent), thread),
    ensures
        msg is None,
        thread == Ok::<Option<H>, Error>(None),
        final(storage).handle() is None,
        final(storage).event_loop() == old(storage).event_loop(),
{
}

/// Stopping succeeds if the thread could be waited for, and says why if not.
pub proof fn law_stopped<H, L>(joined: Result<(), String>, res: Result<(), Error>)
    requires
        call_ensures(Storage::<H, L>::stopped, (joined,), res),
    ensures
        res is Ok <==> joined is Ok,
        joined matches Err(reason) ==> (res matches Err(Error::Other(text)) && text@
            == "failed to join sched_handle, err:"@ + reason@),
{
}

/// A get carries its key and its timestamp. It is sent while the storage runs, and refused when it
/// does not.
pub proof fn law_async_get<H, L, C, B, S>(
    storage: &Storage<H, L>,
    ctx: C,
    key: Key,
    start_ts: u64,
    callback: B,
    msg: Result<Msg<C, B, S>, Error>,
)
    requires
        call_ensures(
            Storage::<H, L>::async_get::<C, B, S>,
            (storage, ctx, key, start_ts, callback),
            msg,
        ),
    ensures
        storage.handle() is None ==> msg == Err::<Msg<C, B, S>, Error>(Error::Closed),
        storage.handle() is Some ==> {
            &&& msg matches Ok(Msg::RawCmd { cmd })
            &&& cmd matches Command::Get {
                ctx: its_ctx,
                key: its_key,
                start_ts: its_start_ts,
                callback: its_callback,
            }
            &&& its_ctx == ctx
            &&& its_key == key
            &&& its_start_ts == start_ts
            &&& its_callback == Some(callback)
        },
{
}

/// A batch get carries its keys and its timestamp. It is sent while the storage runs, and refused
/// when it does not.
pub proof fn law_async_batch_get<H, L, C, B, S>(
    storage: &Storage<H, L>,
    ctx: C,
    keys: Vec<Key>,
    start_ts: u64,
    callback: B,
    msg: Result<Msg<C, B, S>, Error>,
)
    requires
        call_ensures(
            Storage::<H, L>::async_batch_get::<C, B, S>,
            (storage, ctx, keys, start_ts, callback),
            msg,
        ),
    ensures
        storage.handle() is None ==> msg == Err::<Msg<C, B, S>, Error>(Error::Closed),
        storage.handle() is Some ==> {
            &&& msg matches Ok(Msg::RawCmd { cmd })
            &&& cmd matches Command::BatchGet {
                ctx: its_ctx,
                keys: its_keys,
                start_ts: its_start_ts,
                callback: its_callback,
            }
            &&& its_ctx == ctx
            &&& its_keys == keys
            &&& its_start_ts == start_ts
            &&& its_callback == Some(callback)
        },
{
}

/// A scan carries its start key, its limit and its timestamp. It is sent while the storage runs,
/// and refused when it does not.
pub proof fn law_async_scan<H, L, C, B, S>(
    storage: &Storage<H, L>,
    ctx: C,
    start_key: Key,
    limit: usize,
    start_ts: u64,
    callback: B,
    msg: Result<Msg<C, B, S>, Error>,
)
    requires
        call_ensures(
            Storage::<H, L>::async_scan::<C, B, S>,
            (storage, ctx, start_key, limit, start_ts, callback),
            msg,
        ),
    ensures
        storage.handle() is None ==> msg == Err::<Msg<C, B, S>, Error>(Error::Closed),
        storage.handle() is Some ==> {
            &&& msg matches Ok(Msg::RawCmd { cmd })
            &&& cmd matches Command::Scan {
                ctx: its_ctx,
                start_key: its_start_key,
                limit: its_limit,
                start_ts: its_start_ts,
                callback: its_callback,
            }
            &&& its_ctx == ctx
            &&& its_start_key == start_key
            &&& its_limit == limit
            &&& its_start_ts == start_ts
            &&& its_callback == Some(callback)
        },
{
}

/// A prewrite carries its mutations, its primary key and its timestamp. It is sent while the
/// storage runs, and refused when it does not.
pub proof fn law_async_prewrite<H, L, C, B, S>(
    storage: &Storage<H, L>,
    ctx: C,
    mutations: Vec<Mutation>,
    primary: Vec<u8>,
    start_ts: u64,
    callback: B,
    msg: Result<Msg<C, B, S>, Error>,
)
    requires
        call_ensures(
            Storage::<H, L>::async_prewrite::<C, B, S>,
            (storage, ctx, mutations, primary, start_ts, callback),
            msg,
        ),
    ensures
        storage.handle() is None ==> msg == Err::<Msg<C, B, S>, Error>(Error::Closed),
        storage.handle() is Some ==> {
            &&& msg matches Ok(Msg::RawCmd { cmd })
            &&& cmd matches Command::Prewrite {
                ctx: its_ctx,
                mutations: its_mutations,
                primary: its_primary,
                start_ts: its_start_ts,
                callback: its_callback,
            }
            &&& its_ctx == ctx
            &&& its_mutations == mutations
            &&& its_primary == primary
            &&& its_start_ts == start_ts
            &&& its_callback == Some(callback)
        },
{
}

/// A commit carries its keys, and each of its timestamps in its place. It is sent while the storage
/// runs, and refused when it does not.
pub proof fn law_async_commit<H, L, C, B, S>(
    storage: &Storage<H, L>,
    ctx: C,
    keys: Vec<Key>,
    lock_ts: u64,
    commit_ts: u64,
    callback: B,
    msg: Result<Msg<C, B, S>, Error>,
)
    requires
        call_ensures(
            Storage::<H, L>::async_commit::<C, B, S>,
            (storage, ctx, keys, lock_ts, commit_ts, callback),
            msg,
        ),
    ensures
        storage.handle() is None ==> msg == Err::<Msg<C, B, S>, Error>(Error::Closed),
        storage.handle() is Some ==> {
            &&& msg matches Ok(Msg::RawCmd { cmd })
            &&& cmd matches Command::Commit {
                ctx: its_ctx,
                keys: its_keys,
                lock_ts: its_lock_ts,
                commit_ts: its_commit_ts,
                callback: its_callback,
            }
            &&& its_ctx == ctx
            &&& its_keys == keys
            &&& its_lock_ts == lock_ts
            &&& its_commit_ts == commit_ts
            &&& its_callback == Some(callback)
        },
{
}

/// A commit with a read carries its key, and each of its timestamps in its place. It is sent while
/// the storage runs, and refused when it does not.
pub proof fn law_async_commit_then_get<H, L, C, B, S>(
    storage: &Storage<H, L>,
    ctx: C,
    key: Key,
    lock_ts: u64,
    commit_ts: u64,
    get_ts: u64,
    callback: B,
    msg: Result<Msg<C, B, S>, Error>,
)
    requires
        call_ensures(
            Storage::<H, L>::async_commit_then_get::<C, B, S>,
            (storage, ctx, key, lock_ts, commit_ts, get_ts, callback),
            msg,
        ),
    ensures
        storage.handle() is None ==> msg == Err::<Msg<C, B, S>, Error>(Error::Closed),
        storage.handle() is Some ==> {
            &&& msg matches Ok(Msg::RawCmd { cmd })
            &&& cmd matches Command::CommitThenGet {
                ctx: its_ctx,
                key: its_key,
                lock_ts: its_lock_ts,
                commit_ts: its_commit_ts,
                get_ts: its_get_ts,
                callback: its_callback,
            }
            &&& its_ctx == ctx
            &&& its_key == key
            &&& its_lock_ts == lock_ts
            &&& its_commit_ts == commit_ts
            &&& its_get_ts == get_ts
            &&& its_callback == Some(callback)
        },
{
}

/// A cleanup carries its key and its timestamp. It is sent while the storage runs, and refused when
/// it does not.
pub proof fn law_async_cleanup<H, L, C, B, S>(
    storage: &Storage<H, L>,
    ctx: C,
    key: Key,
    start_ts: u64,
    callback: B,
    msg: Result<Msg<C, B, S>, Error>,
)
    requires
        call_ensures(
            Storage::<H, L>::async_cleanup::<C, B, S>,
            (storage, ctx, key, start_ts, callback),
            msg,
        ),
    ensures
        storage.handle() is None ==> msg == Err::<Msg<C, B, S>, Error>(Error::Closed),
        storage.handle() is Some ==> {
            &&& msg matches Ok(Msg::RawCmd { cmd })
            &&& cmd matches Command::Cleanup {
                ctx: its_ctx,
                key: its_key,
                start_ts: its_start_ts,
                callback: its_callback,
            }
            &&& its_ctx == ctx
            &&& its_key == key
            &&& its_start_ts == start_ts
            &&& its_callback == Some(callback)
        },
{
}

/// A rollback carries its keys and its timestamp. It is sent while the storage runs, and refused
/// when it does not.
pub proof fn law_async_rollback<H, L, C, B, S>(
    storage: &Storage<H, L>,
    ctx: C,
    keys: Vec<Key>,
    start_ts: u64,
    callback: B,
    msg: Result<Msg<C, B, S>, Error>,
)
    requires
        call_ensures(
            Storage::<H, L>::async_rollback::<C, B, S>,
            (storage, ctx, keys, start_ts, callback),
            msg,
        ),
    ensures
        storage.handle() is None ==> msg == Err::<Msg<C, B, S>, Error>(Error::Closed),
        storage.handle() is Some ==> {
            &&& msg matches Ok(Msg::RawCmd { cmd })
            &&& cmd matches Command::Rollback {
                ctx: its_ctx,
                keys: its_keys,
                start_ts: its_start_ts,
                callback: its_callback,
            }
            &&& its_ctx == ctx
            &&& its_keys == keys
            &&& its_start_ts == start_ts
            &&& its_callback == Some(callback)
        },
{
}

/// A rollback with a read carries its key and its timestamp. It is sent while the storage runs, and
/// refused when it does not.
pub proof fn law_async_rollback_then_get<H, L, C, B, S>(
    storage: &Storage<H, L>,
    ctx: C,
    key: Key,
    lock_ts: u64,
    callback: B,
    msg: Result<Msg<C, B, S>, Error>,
)
    requires
        call_ensures(
            Storage::<H, L>::async_rollback_then_get::<C, B, S>,
            (storage, ctx, key, lock_ts, callback),
            msg,
        ),
    ensures
        storage.handle() is None ==> msg == Err::<Msg<C, B, S>, Error>(Error::Closed),
        storage.handle() is Some ==> {
            &&& msg matches Ok(Msg::RawCmd { cmd })
            &&& cmd matches Command::RollbackThenGet {
                ctx: its_ctx,
                key: its_key,
                lock_ts: its_lock_ts,
                callback: its_callback,
            }
            &&& its_ctx == ctx
            &&& its_key == key
            &&& its_lock_ts == lock_ts
            &&& its_callback == Some(callback)
        },
{
}

} // verus!
