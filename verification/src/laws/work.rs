//! What a command asks of its snapshot, and which keys it takes latches for.

use crate::command::Command;
use crate::key::{Key, Mutation};
use crate::latch::{lemma_slots_of, slot_of};
use crate::laws::law_writes_exclude;
use crate::message::{Action, Msg};
use crate::process::{op_count, task_of, SnapshotTask, TxnOp, TxnRun};
use crate::scheduler::Scheduler;
use crate::state::{lemma_received_inv, SchedulerView};
use vstd::prelude::*;

verus! {

/// A mutation is a mutation of the key that it names, whatever it does to it.
pub proof fn law_mutation_key(name: Key, value: Vec<u8>, mutation: Mutation, key: &Key)
    requires
        mutation == Mutation::Put((name, value)) || mutation == Mutation::Delete(name) || mutation
            == Mutation::Lock(name),
        call_ensures(Mutation::key, (&mutation,), key),
    ensures
        *key == name,
{
}

/// A key holds the bytes that it was made of.
pub proof fn law_key_bytes(bytes: Vec<u8>, key: Key, copy: Key, encoded: &Vec<u8>)
    requires
        call_ensures(Key::from_encoded, (bytes,), key),
        call_ensures(Key::clone, (&key,), copy),
        call_ensures(Key::encoded, (&copy,), encoded),
    ensures
        encoded@ == bytes@,
{
}

/// A copy of a mutation does the same to the same key.
pub proof fn law_mutation_copy(mutation: &Mutation, copy: Mutation)
    requires
        call_ensures(Mutation::clone, (mutation,), copy),
    ensures
        copy.spec_key()@ == mutation.spec_key()@,
        copy is Put <==> mutation is Put,
        copy is Delete <==> mutation is Delete,
        copy is Lock <==> mutation is Lock,
        mutation matches Mutation::Put((_, value)) ==> (copy matches Mutation::Put((_, copied))
            && copied@ == value@),
{
}

/// A command reads if its work on the snapshot is not a transaction, and takes latches only if it
/// is one: three kinds of commands read, six write.
pub proof fn law_reads_and_writes<'a, C, B>(
    cmd: &'a Command<C, B>,
    readonly: bool,
    task: SnapshotTask<'a, C, B>,
    keys: Vec<&'a Key>,
)
    requires
        call_ensures(Command::<C, B>::readonly, (cmd,), readonly),
        call_ensures(task_of::<C, B>, (cmd,), task),
        call_ensures(Command::<C, B>::latch_keys, (cmd,), keys),
    ensures
        readonly <==> (cmd is Get || cmd is BatchGet || cmd is Scan),
        !readonly <==> (cmd is Prewrite || cmd is Commit || cmd is CommitThenGet || cmd is Cleanup
            || cmd is Rollback || cmd is RollbackThenGet),
        task is Write <==> !readonly,
        readonly ==> keys@.len() == 0,
{
    assert(keys@.map_values(|key: &Key| key@).len() == keys@.len());
}

/// A get looks its key up, as of its start timestamp.
pub proof fn law_get_task<'a, C, B>(cmd: &'a Command<C, B>, task: SnapshotTask<'a, C, B>)
    requires
        cmd is Get,
        call_ensures(task_of::<C, B>, (cmd,), task),
    ensures
        task matches SnapshotTask::Get { start_ts, key } && start_ts == cmd->Get_start_ts && *key
            == cmd->Get_key,
{
}

/// A batch get looks all its keys up, in their order, as of its start timestamp.
pub proof fn law_batch_get_task<'a, C, B>(cmd: &'a Command<C, B>, task: SnapshotTask<'a, C, B>)
    requires
        cmd is BatchGet,
        call_ensures(task_of::<C, B>, (cmd,), task),
    ensures
        task matches SnapshotTask::BatchGet { start_ts, keys } && start_ts
            == cmd->BatchGet_start_ts && *keys == cmd->BatchGet_keys,
{
}

/// A scan asks for as many pairs as its limit says, from its start key on, as of its start
/// timestamp.
pub proof fn law_scan_task<'a, C, B>(cmd: &'a Command<C, B>, task: SnapshotTask<'a, C, B>)
    requires
        cmd is Scan,
        call_ensures(task_of::<C, B>, (cmd,), task),
    ensures
        task matches SnapshotTask::Scan { start_ts, start_key, limit } && start_ts
            == cmd->Scan_start_ts && *start_key == cmd->start_key && limit == cmd->limit,
{
}

/// Scans that differ in their limits ask for different numbers of pairs, and a scan asks for the
/// same whatever its callback and its context are.
pub proof fn law_scan_limit_decides<'a, C, B>(
    a: &'a Command<C, B>,
    b: &'a Command<C, B>,
    for_a: SnapshotTask<'a, C, B>,
    for_b: SnapshotTask<'a, C, B>,
)
    requires
        a is Scan,
        b is Scan,
        call_ensures(task_of::<C, B>, (a,), for_a),
        call_ensures(task_of::<C, B>, (b,), for_b),
    ensures
        for_a is Scan && for_b is Scan,
        for_a->Scan_limit == for_b->Scan_limit <==> a->limit == b->limit,
        a->limit == b->limit && a->start_key == b->start_key && a->Scan_start_ts
            == b->Scan_start_ts ==> for_a == for_b,
{
}

/// A write command asks for a transaction: its own, from the first operation on.
pub proof fn law_write_task<'a, C, B>(cmd: &'a Command<C, B>, task: SnapshotTask<'a, C, B>)
    requires
        cmd is Prewrite || cmd is Commit || cmd is CommitThenGet || cmd is Cleanup
            || cmd is Rollback || cmd is RollbackThenGet,
        call_ensures(task_of::<C, B>, (cmd,), task),
    ensures
        task matches SnapshotTask::Write(run) && run.wf() && run.command() == *cmd && run@.len()
            == 0,
{
}

/// The scheduler hands out the work of the command with the given id.
pub proof fn law_snapshot_task<'a, C, B>(
    scheduler: &'a Scheduler<C, B>,
    cid: u64,
    task: SnapshotTask<'a, C, B>,
)
    requires
        call_ensures(Scheduler::<C, B>::snapshot_task, (scheduler, cid), task),
    ensures
        scheduler@.ctxs[cid].cmd matches Command::Get { key, start_ts, .. } ==> (
        task matches SnapshotTask::Get { start_ts: ts, key: name } && ts == start_ts && *name
            == key),
        scheduler@.ctxs[cid].cmd matches Command::BatchGet { keys, start_ts, .. } ==> (
        task matches SnapshotTask::BatchGet { start_ts: ts, keys: names } && ts == start_ts
            && *names == keys),
        scheduler@.ctxs[cid].cmd matches Command::Scan { start_key, limit, start_ts, .. } ==> (
        task matches SnapshotTask::Scan { start_ts: ts, start_key: from, limit: most } && ts
            == start_ts && *from == start_key && most == limit),
        task matches SnapshotTask::Write(run) ==> run.wf() && run.command()
            == scheduler@.ctxs[cid].cmd && run@.len() == 0,
        task is Write <==> !(scheduler@.ctxs[cid].cmd is Get || scheduler@.ctxs[cid].cmd is BatchGet
            || scheduler@.ctxs[cid].cmd is Scan),
{
}

/// A transaction goes under the timestamp that its locks were, or are to be, taken at.
pub proof fn law_transaction_timestamp<'a, C, B>(run: &TxnRun<'a, C, B>, ts: u64)
    requires
        call_ensures(TxnRun::<'a, C, B>::start_ts, (run,), ts),
    ensures
        run.command() matches Command::Prewrite { start_ts, .. } ==> ts == start_ts,
        run.command() matches Command::Commit { lock_ts, .. } ==> ts == lock_ts,
        run.command() matches Command::CommitThenGet { lock_ts, .. } ==> ts == lock_ts,
        run.command() matches Command::Cleanup { start_ts, .. } ==> ts == start_ts,
        run.command() matches Command::Rollback { start_ts, .. } ==> ts == start_ts,
        run.command() matches Command::RollbackThenGet { lock_ts, .. } ==> ts == lock_ts,
{
}

/// A prewrite stages its mutations one by one, in their order, each with the primary key of the
/// transaction, until all of them have been staged.
pub proof fn law_prewrite_ops<'a, C, B>(run: &TxnRun<'a, C, B>, op: Option<TxnOp<'a>>)
    requires
        run.command() is Prewrite,
        call_ensures(TxnRun::<'a, C, B>::next_op, (run,), op),
    ensures
        op is Some <==> run@.len() < run.command()->mutations@.len(),
        op matches Some(op) ==> (op matches TxnOp::Prewrite { mutation, primary } && *mutation
            == run.command()->mutations@[run@.len() as int] && *primary == run.command()->primary),
{
}

/// A commit commits its keys one by one, in their order, all at its commit timestamp, until all of
/// them have been committed.
pub proof fn law_commit_ops<'a, C, B>(run: &TxnRun<'a, C, B>, op: Option<TxnOp<'a>>)
    requires
        run.command() is Commit,
        call_ensures(TxnRun::<'a, C, B>::next_op, (run,), op),
    ensures
        op is Some <==> run@.len() < run.command()->Commit_keys@.len(),
        op matches Some(op) ==> (op matches TxnOp::Commit { key, commit_ts } && *key
            == run.command()->Commit_keys@[run@.len() as int] && commit_ts
            == run.command()->Commit_commit_ts),
{
}

/// A commit with a read has one operation: its key is committed at its commit timestamp and read as
/// of its read timestamp.
pub proof fn law_commit_then_get_op<'a, C, B>(run: &TxnRun<'a, C, B>, op: Option<TxnOp<'a>>)
    requires
        run.command() is CommitThenGet,
        call_ensures(TxnRun::<'a, C, B>::next_op, (run,), op),
    ensures
        op is Some <==> run@.len() == 0,
        op matches Some(op) ==> (op matches TxnOp::CommitThenGet { key, commit_ts, get_ts } && *key
            == run.command()->CommitThenGet_key && commit_ts
            == run.command()->CommitThenGet_commit_ts && get_ts == run.command()->get_ts),
{
}

/// When a key is committed does not depend on when it is read, nor the other way round: commits
/// with a read that agree in one of the timestamps agree in it in their operations, and only then.
pub proof fn law_commit_and_read_timestamps_apart<'a, C, B>(
    a: &TxnRun<'a, C, B>,
    b: &TxnRun<'a, C, B>,
    of_a: TxnOp<'a>,
    of_b: TxnOp<'a>,
)
    requires
        a.command() is CommitThenGet,
        b.command() is CommitThenGet,
        call_ensures(TxnRun::<'a, C, B>::next_op, (a,), Some(of_a)),
        call_ensures(TxnRun::<'a, C, B>::next_op, (b,), Some(of_b)),
    ensures
        of_a is CommitThenGet && of_b is CommitThenGet,
        of_a->CommitThenGet_commit_ts == of_b->CommitThenGet_commit_ts
            <==> a.command()->CommitThenGet_commit_ts == b.command()->CommitThenGet_commit_ts,
        of_a->get_ts == of_b->get_ts <==> a.command()->get_ts == b.command()->get_ts,
        of_a->CommitThenGet_key == of_b->CommitThenGet_key <==> a.command()->CommitThenGet_key
            == b.command()->CommitThenGet_key,
{
}

/// A cleanup has one operation: its key is rolled back.
pub proof fn law_cleanup_op<'a, C, B>(run: &TxnRun<'a, C, B>, op: Option<TxnOp<'a>>)
    requires
        run.command() is Cleanup,
        call_ensures(TxnRun::<'a, C, B>::next_op, (run,), op),
    ensures
        op is Some <==> run@.len() == 0,
        op matches Some(op) ==> (op matches TxnOp::Rollback { key } && *key
            == run.command()->Cleanup_key),
{
}

/// A rollback rolls its keys back one by one, in their order, until all of them have been rolled
/// back.
pub proof fn law_rollback_ops<'a, C, B>(run: &TxnRun<'a, C, B>, op: Option<TxnOp<'a>>)
    requires
        run.command() is Rollback,
        call_ensures(TxnRun::<'a, C, B>::next_op, (run,), op),
    ensures
        op is Some <==> run@.len() < run.command()->Rollback_keys@.len(),
        op matches Some(op) ==> (op matches TxnOp::Rollback { key } && *key
            == run.command()->Rollback_keys@[run@.len() as int]),
{
}

/// A rollback with a read has one operation: its key is rolled back and read.
pub proof fn law_rollback_then_get_op<'a, C, B>(run: &TxnRun<'a, C, B>, op: Option<TxnOp<'a>>)
    requires
        run.command() is RollbackThenGet,
        call_ensures(TxnRun::<'a, C, B>::next_op, (run,), op),
    ensures
        op is Some <==> run@.len() == 0,
        op matches Some(op) ==> (op matches TxnOp::RollbackThenGet { key } && *key
            == run.command()->RollbackThenGet_key),
{
}

/// The key that an operation is on.
pub open spec fn op_key(op: TxnOp) -> Seq<u8> {
    match op {
        TxnOp::Prewrite { mutation, .. } => match *mutation {
            Mutation::Put((key, _)) => key@,
            Mutation::Delete(key) => key@,
            Mutation::Lock(key) => key@,
        },
        TxnOp::Commit { key, .. } => key@,
        TxnOp::CommitThenGet { key, .. } => key@,
        TxnOp::Rollback { key } => key@,
        TxnOp::RollbackThenGet { key } => key@,
    }
}

/// A command takes latches for the keys of its operations, one by one, and for no other key.
pub proof fn law_latch_keys_are_op_keys<'a, C, B>(
    run: &TxnRun<'a, C, B>,
    op: Option<TxnOp<'a>>,
    keys: Vec<&'a Key>,
)
    requires
        call_ensures(TxnRun::<'a, C, B>::next_op, (run,), op),
        call_ensures(Command::<C, B>::latch_keys, (&run.command(),), keys),
    ensures
        op is Some <==> run@.len() < keys@.len(),
        op matches Some(op) ==> keys@[run@.len() as int]@ == op_key(op),
        op matches Some(op) ==> run.command().written_keys().contains(op_key(op)),
{
    let names = keys@.map_values(|key: &Key| key@);
    assert(names.len() == keys@.len());
    assert(names == run.command().written_keys());
    if op is Some {
        let i = run@.len() as int;
        assert(names[i] == keys@[i]@);
        assert(names.contains(names[i]));
    }
}

/// A commit and a rollback take latches for the keys that they list, in the order listed.
pub proof fn law_latch_keys_of_listed<'a, C, B>(cmd: &'a Command<C, B>, keys: Vec<&'a Key>)
    requires
        call_ensures(Command::<C, B>::latch_keys, (cmd,), keys),
    ensures
        cmd matches Command::Commit { keys: listed, .. } ==> keys@.len() == listed@.len() && forall|
            i: int,
        |
            0 <= i < listed@.len() ==> (#[trigger] keys@[i])@ == listed@[i]@,
        cmd matches Command::Rollback { keys: listed, .. } ==> keys@.len() == listed@.len()
            && forall|i: int| 0 <= i < listed@.len() ==> (#[trigger] keys@[i])@ == listed@[i]@,
        cmd matches Command::Prewrite { mutations, .. } ==> keys@.len() == mutations@.len()
            && forall|i: int|
            0 <= i < mutations@.len() ==> (#[trigger] keys@[i])@ == match mutations@[i] {
                Mutation::Put((key, _)) => key@,
                Mutation::Delete(key) => key@,
                Mutation::Lock(key) => key@,
            },
        cmd matches Command::CommitThenGet { key, .. } ==> keys@.len() == 1 && keys@[0]@ == key@,
        cmd matches Command::Cleanup { key, .. } ==> keys@.len() == 1 && keys@[0]@ == key@,
        cmd matches Command::RollbackThenGet { key, .. } ==> keys@.len() == 1 && keys@[0]@ == key@,
{
    let names = keys@.map_values(|key: &Key| key@);
    assert(names.len() == keys@.len());
    assert(forall|i: int| 0 <= i < names.len() ==> names[i] == (#[trigger] keys@[i])@);
    assert(names == cmd.written_keys());
}

/// The slots that a command takes latches of are exactly those of the keys that it takes latches
/// for, in ascending order and each once; a slot is the remainder of the hash of the key.
pub proof fn law_latched_slots<'a, C, B>(
    scheduler: &Scheduler<C, B>,
    cmd: &'a Command<C, B>,
    keys: Vec<&'a Key>,
    indices: Vec<usize>,
)
    requires
        0 < scheduler@.queues.len() <= usize::MAX,
        call_ensures(Command::<C, B>::latch_keys, (cmd,), keys),
        call_ensures(Scheduler::<C, B>::calc_latches_indices, (scheduler, cmd), indices),
        !cmd.spec_readonly(),
    ensures
        forall|i: int, j: int| 0 <= i < j < indices@.len() ==> indices@[i] < indices@[j],
        forall|slot: usize| #[trigger]
            indices@.contains(slot) <==> exists|i: int|
                0 <= i < keys@.len() && slot_of(
                    (#[trigger] keys@[i])@,
                    scheduler@.queues.len() as int,
                ) == slot,
{
    let size = scheduler@.queues.len() as int;
    let names = keys@.map_values(|key: &Key| key@);
    assert(names == cmd.written_keys());
    lemma_slots_of(names, size);
    assert forall|slot: usize| #[trigger] indices@.contains(slot) <==> exists|i: int|
        0 <= i < keys@.len() && slot_of((#[trigger] keys@[i])@, size) == slot by {
        if indices@.contains(slot) {
            let j = choose|j: int| 0 <= j < indices@.len() && indices@[j] == slot;
            let i = choose|i: int|
                0 <= i < names.len() && indices@[j] == slot_of(#[trigger] names[i], size);
            assert(keys@[i]@ == names[i]);
        }
        if exists|i: int| 0 <= i < keys@.len() && slot_of((#[trigger] keys@[i])@, size) == slot {
            let i = choose|i: int|
                0 <= i < keys@.len() && slot_of((#[trigger] keys@[i])@, size) == slot;
            assert(names[i] == keys@[i]@);
            let j = choose|j: int| 0 <= j < indices@.len() && indices@[j]
                == slot_of(names[i], size);
            assert(indices@[j] == slot);
        }
    }
}

/// While two commands hold all their latches, no operation of the one is on a key of an operation
/// of the other.
pub proof fn law_operations_exclude<'a, C, B>(
    s: SchedulerView<C, B>,
    a: u64,
    b: u64,
    run_a: &TxnRun<'a, C, B>,
    run_b: &TxnRun<'a, C, B>,
    op_a: TxnOp<'a>,
    op_b: TxnOp<'a>,
)
    requires
        s.inv(),
        s.ready(a),
        s.ready(b),
        a != b,
        run_a.command() == s.ctxs[a].cmd,
        run_b.command() == s.ctxs[b].cmd,
        call_ensures(TxnRun::<'a, C, B>::next_op, (run_a,), Some(op_a)),
        call_ensures(TxnRun::<'a, C, B>::next_op, (run_b,), Some(op_b)),
    ensures
        op_key(op_a) != op_key(op_b),
{
    lemma_op_key_written(run_a, op_a);
    lemma_op_key_written(run_b, op_b);
    if op_key(op_a) == op_key(op_b) {
        law_writes_exclude(s, a, b, op_key(op_a));
    }
}

/// The key of an operation is among those that the command writes.
proof fn lemma_op_key_written<'a, C, B>(run: &TxnRun<'a, C, B>, op: TxnOp<'a>)
    requires
        call_ensures(TxnRun::<'a, C, B>::next_op, (run,), Some(op)),
    ensures
        run.command().written_keys().contains(op_key(op)),
{
    let written = run.command().written_keys();
    let i = run@.len() as int;
    assert(i < op_count(run.command()));
    assert(written[i] == op_key(op));
    assert(written.contains(written[i]));
}

/// A command that is received while another, with all its latches, has an operation on one of its
/// keys has to wait.
pub proof fn law_conflicting_command_waits<'a, C, B, S>(
    scheduler: &mut Scheduler<C, B>,
    cmd: Command<C, B>,
    action: Action<B, S>,
    running: u64,
    run: &TxnRun<'a, C, B>,
    new_run: &TxnRun<'a, C, B>,
    op: TxnOp<'a>,
    new_op: TxnOp<'a>,
)
    requires
        scheduler@.inv(),
        scheduler@.can_receive(cmd),
        scheduler@.ready(running),
        run.command() == scheduler@.ctxs[running].cmd,
        new_run.command() == cmd,
        call_ensures(TxnRun::<'a, C, B>::next_op, (run,), Some(op)),
        call_ensures(TxnRun::<'a, C, B>::next_op, (new_run,), Some(new_op)),
        op_key(op) == op_key(new_op),
        call_ensures(Scheduler::<C, B>::notify::<S>, (scheduler, Msg::RawCmd { cmd }), action),
    ensures
        action is Wait,
{
    let s = scheduler@;
    let t = s.received(cmd);
    let cid = (s.id_alloc + 1) as u64;
    lemma_received_inv(s, cmd);
    assert(s.ctx_ok(running));
    assert(t.ctxs[running] == s.ctxs[running]);
    if t.ready(cid) {
        law_operations_exclude(t, running, cid, run, new_run, op, new_op);
    }
}

/// Everything about a command but its callback stays when the callback is taken.
pub proof fn law_callback_apart<C, B>(cmd: Command<C, B>)
    ensures
        cmd.without_callback().spec_callback() is None,
        cmd.without_callback().spec_context() == cmd.spec_context(),
        cmd.without_callback().written_keys() == cmd.written_keys(),
        cmd.without_callback().text() == cmd.text(),
        cmd.spec_callback() is None ==> cmd.without_callback() == cmd,
{
}

/// Commands that differ in nothing but their callbacks are alike when these have been taken, and
/// what is taken is the callback that the command was made with.
pub proof fn law_callback_taken<C, B>(
    cmd: &mut Command<C, B>,
    taken: Option<B>,
    had: bool,
)
    requires
        call_ensures(Command::<C, B>::has_callback, (&*cmd,), had),
        call_ensures(Command::<C, B>::take_callback, (cmd,), taken),
    ensures
        had == (taken is Some),
        *old(cmd) matches Command::Get { ctx, key, start_ts, callback } ==> taken == callback
            && *final(cmd) == (Command::Get { ctx, key, start_ts, callback: None::<B> }),
        *old(cmd) matches Command::BatchGet { ctx, keys, start_ts, callback } ==> taken == callback
            && *final(cmd) == (Command::BatchGet { ctx, keys, start_ts, callback: None::<B> }),
        *old(cmd) matches Command::Scan { ctx, start_key, limit, start_ts, callback } ==> taken
            == callback && *final(cmd) == (Command::Scan {
            ctx,
            start_key,
            limit,
            start_ts,
            callback: None::<B>,
        }),
        *old(cmd) matches Command::Prewrite { ctx, mutations, primary, start_ts, callback }
            ==> taken == callback && *final(cmd) == (Command::Prewrite {
            ctx,
            mutations,
            primary,
            start_ts,
            callback: None::<B>,
        }),
        *old(cmd) matches Command::Commit { ctx, keys, lock_ts, commit_ts, callback } ==> taken
            == callback && *final(cmd) == (Command::Commit {
            ctx,
            keys,
            lock_ts,
            commit_ts,
            callback: None::<B>,
        }),
        *old(cmd) matches Command::CommitThenGet { ctx, key, lock_ts, commit_ts, get_ts, callback }
            ==> taken == callback && *final(cmd) == (Command::CommitThenGet {
            ctx,
            key,
            lock_ts,
            commit_ts,
            get_ts,
            callback: None::<B>,
        }),
        *old(cmd) matches Command::Cleanup { ctx, key, start_ts, callback } ==> taken == callback
            && *final(cmd) == (Command::Cleanup { ctx, key, start_ts, callback: None::<B> }),
        *old(cmd) matches Command::Rollback { ctx, keys, start_ts, callback } ==> taken == callback
            && *final(cmd) == (Command::Rollback { ctx, keys, start_ts, callback: None::<B> }),
        *old(cmd) matches Command::RollbackThenGet { ctx, key, lock_ts, callback } ==> taken
            == callback && *final(cmd) == (Command::RollbackThenGet {
            ctx,
            key,
            lock_ts,
            callback: None::<B>,
        }),
{
}

/// The context of a command is the one that it was made with.
pub proof fn law_context<C, B>(cmd: &Command<C, B>, context: &C)
    requires
        call_ensures(Command::<C, B>::context, (cmd,), context),
    ensures
        cmd matches Command::Get { ctx, .. } ==> *context == ctx,
        cmd matches Command::BatchGet { ctx, .. } ==> *context == ctx,
        cmd matches Command::Scan { ctx, .. } ==> *context == ctx,
        cmd matches Command::Prewrite { ctx, .. } ==> *context == ctx,
        cmd matches Command::Commit { ctx, .. } ==> *context == ctx,
        cmd matches Command::CommitThenGet { ctx, .. } ==> *context == ctx,
        cmd matches Command::Cleanup { ctx, .. } ==> *context == ctx,
        cmd matches Command::Rollback { ctx, .. } ==> *context == ctx,
        cmd matches Command::RollbackThenGet { ctx, .. } ==> *context == ctx,
{
}

/// The engine is given the context of the command that asks it.
pub proof fn law_extracted_context<C, B>(
    scheduler: &Scheduler<C, B>,
    cid: u64,
    extracted: &C,
    context: &C,
)
    requires
        call_ensures(Scheduler::<C, B>::extract_context, (scheduler, cid), extracted),
        call_ensures(Command::<C, B>::context, (&scheduler@.ctxs[cid].cmd,), context),
    ensures
        *extracted == *context,
{
}

} // verus!
