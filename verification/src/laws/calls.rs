//! What the calls of the scheduler do and return.

use crate::command::Command;
use crate::error::{EngineError, Error, TxnError};
use crate::latch::{
    lemma_next_in_line, lemma_slots_of, names_slot, next_in_line, slot_of,
};
use crate::laws::{
    law_common_key_common_slot, law_finished_wakes_next, law_ready_holds_keys,
    law_uncontended_runs,
};
use crate::message::{Action, Msg, Report, Tick};
use crate::process::{
    check_outcome, fail_reply, outcome_fits, read_reply, stored_reply, Answer, ProcessResult, Reply,
    TaskOutcome,
};
use crate::scheduler::{RunningCtx, Scheduler};
use crate::state::{
    lemma_finished_inv, lemma_received_inv, lemma_woken_up_inv, needed_slots, SchedulerView,
};
use vstd::prelude::*;

verus! {

/// A new scheduler runs nothing: it has as many latches as asked for, and all of them are free.
pub proof fn law_new_scheduler<C, B>(concurrency: usize, scheduler: Scheduler<C, B>)
    requires
        call_ensures(Scheduler::<C, B>::new, (concurrency,), scheduler),
    ensures
        scheduler.wf(),
        forall|cid: u64| !#[trigger] scheduler@.ctxs.contains_key(cid),
        scheduler@.queues.len() == concurrency,
        forall|slot: int| 0 <= slot < concurrency ==> (#[trigger] scheduler@.queues[slot]).len()
            == 0,
        scheduler@.wakeups.len() == 0,
        scheduler@.id_alloc == 0,
{
}

/// A running command starts with the latches that it needs, and holds none of them.
pub proof fn law_new_running_ctx<C, B>(
    cid: u64,
    cmd: Command<C, B>,
    needed: Vec<usize>,
    ctx: RunningCtx<C, B>,
    slots: &Vec<usize>,
    all: bool,
)
    requires
        call_ensures(RunningCtx::<C, B>::new, (cid, cmd, needed), ctx),
        call_ensures(RunningCtx::<C, B>::needed_latches, (&ctx,), slots),
        call_ensures(RunningCtx::<C, B>::all_latches_acquired, (&ctx,), all),
    ensures
        ctx.cid == cid,
        ctx@.cmd == cmd,
        slots@ == needed@,
        all <==> needed@.len() == 0,
{
}

/// A command that is received gets the next id, stays as it is, and is added to those that run.
pub proof fn law_received<C, B>(
    scheduler: &mut Scheduler<C, B>,
    cmd: Command<C, B>,
    ready: Option<u64>,
)
    requires
        scheduler.wf(),
        scheduler@.can_receive(cmd),
        call_ensures(Scheduler::<C, B>::received_new_cmd, (scheduler, cmd), ready),
    ensures
        final(scheduler).wf(),
        final(scheduler)@.id_alloc == old(scheduler)@.id_alloc + 1,
        final(scheduler)@.ctxs.contains_key(final(scheduler)@.id_alloc),
        final(scheduler)@.ctxs[final(scheduler)@.id_alloc].cmd == cmd,
        !old(scheduler)@.ctxs.contains_key(final(scheduler)@.id_alloc),
        forall|c: u64|
            c != final(scheduler)@.id_alloc ==> (#[trigger] final(scheduler)@.ctxs.contains_key(c)
                <==> old(scheduler)@.ctxs.contains_key(c)),
        forall|c: u64| #[trigger]
            old(scheduler)@.ctxs.contains_key(c) ==> final(scheduler)@.ctxs[c]
                == old(scheduler)@.ctxs[c],
        final(scheduler)@.wakeups == old(scheduler)@.wakeups,
        final(scheduler)@.queues.len() == old(scheduler)@.queues.len(),
        forall|slot: int|
            0 <= slot < old(scheduler)@.queues.len() ==> {
                ||| (#[trigger] final(scheduler)@.queues[slot]) == old(scheduler)@.queues[slot]
                ||| final(scheduler)@.queues[slot] == old(scheduler)@.queues[slot].push(
                    final(scheduler)@.id_alloc,
                )
            },
        ready is Some ==> ready == Some(final(scheduler)@.id_alloc),
        ready is Some <==> final(scheduler)@.ready(final(scheduler)@.id_alloc),
        cmd is Get || cmd is BatchGet || cmd is Scan ==> ready is Some,
{
    let s = scheduler@;
    let t = s.received(cmd);
    let cid = (s.id_alloc + 1) as u64;
    lemma_received_inv(s, cmd);
    if s.ctxs.contains_key(cid) {
        assert(s.ctx_ok(cid));
    }
    assert forall|slot: int| 0 <= slot < s.queues.len() implies {
        ||| (#[trigger] t.queues[slot]) == s.queues[slot]
        ||| t.queues[slot] == s.queues[slot].push(cid)
    } by {
        if s.queues[slot].len() == 0 {
            assert(s.queues[slot].push(cid) =~= seq![cid]);
        }
    }
}

/// A command that is received goes on at once exactly if none of the latches of the keys that it
/// writes is held by another.
pub proof fn law_received_goes_on<C, B>(
    scheduler: &mut Scheduler<C, B>,
    cmd: Command<C, B>,
    ready: Option<u64>,
)
    requires
        scheduler.wf(),
        scheduler@.can_receive(cmd),
        !(cmd is Get || cmd is BatchGet || cmd is Scan),
        scheduler@.queues.len() > 0,
        call_ensures(Scheduler::<C, B>::received_new_cmd, (scheduler, cmd), ready),
    ensures
        ready is Some <==> forall|i: int|
            0 <= i < cmd.written_keys().len() ==> old(scheduler)@.queues[slot_of(
                #[trigger] cmd.written_keys()[i],
                old(scheduler)@.queues.len() as int,
            )].len() == 0,
{
    let s = scheduler@;
    let t = s.received(cmd);
    let cid = (s.id_alloc + 1) as u64;
    let keys = cmd.written_keys();
    let size = s.queues.len() as int;
    let needed = needed_slots(cmd, size);
    lemma_received_inv(s, cmd);
    lemma_slots_of(keys, size);
    if s.ctxs.contains_key(cid) {
        assert(s.ctx_ok(cid));
    }
    if forall|i: int|
        0 <= i < keys.len() ==> s.queues[slot_of(#[trigger] keys[i], size)].len() == 0 {
        assert forall|j: int| 0 <= j < needed.len() implies s.queues[
        #[trigger] needed[j] as int].len() == 0 by {
            let i = choose|i: int| 0 <= i < keys.len() && needed[j] == slot_of(
                #[trigger] keys[i],
                size,
            );
        }
        law_uncontended_runs(s, cmd);
    }
    if ready is Some {
        assert forall|i: int| 0 <= i < keys.len() implies s.queues[slot_of(
            #[trigger] keys[i],
            size,
        )].len() == 0 by {
            let slot = slot_of(keys[i], size);
            assert(keys.contains(keys[i]));
            law_ready_holds_keys(t, cid, keys[i]);
            law_common_key_common_slot(keys, keys, keys[i], size);
            if s.queues[slot].len() > 0 {
                let holder = s.queues[slot][0];
                assert(s.queues[slot].contains(holder));
                assert(s.ctxs.contains_key(holder));
                assert(t.queues[slot][0] == holder);
            }
        }
    }
}

/// When a command leaves, it leaves every queue, and nobody else does; every other command stays
/// as it is, and nobody changes places with another.
pub proof fn law_finish_cmd<C, B>(scheduler: &mut Scheduler<C, B>, cid: u64)
    requires
        scheduler.wf(),
        scheduler@.ready(cid),
        call_ensures(Scheduler::<C, B>::finish_cmd, (scheduler, cid), ()),
    ensures
        final(scheduler).wf(),
        !final(scheduler)@.ctxs.contains_key(cid),
        forall|c: u64|
            c != cid ==> (#[trigger] final(scheduler)@.ctxs.contains_key(c)
                <==> old(scheduler)@.ctxs.contains_key(c)),
        forall|c: u64|
            c != cid && #[trigger] old(scheduler)@.ctxs.contains_key(c)
                ==> final(scheduler)@.ctxs[c] == old(scheduler)@.ctxs[c],
        final(scheduler)@.id_alloc == old(scheduler)@.id_alloc,
        final(scheduler)@.queues.len() == old(scheduler)@.queues.len(),
        forall|slot: int|
            0 <= slot < old(scheduler)@.queues.len() ==> {
                let queue = old(scheduler)@.queues[slot];
                (#[trigger] final(scheduler)@.queues[slot]) == if queue.len() > 0 && queue[0]
                    == cid {
                    queue.drop_first()
                } else {
                    queue
                }
            },
        forall|slot: int|
            0 <= slot < old(scheduler)@.queues.len() ==> !(
            #[trigger] final(scheduler)@.queues[slot]).contains(cid),
{
    let s = scheduler@;
    let t = s.finished(cid);
    let needed = s.ctxs[cid].needed;
    lemma_finished_inv(s, cid);
    assert(s.ctx_ok(cid));
    assert forall|slot: int| 0 <= slot < s.queues.len() implies (#[trigger] t.queues[slot]) == (
    if s.queues[slot].len() > 0 && s.queues[slot][0] == cid {
        s.queues[slot].drop_first()
    } else {
        s.queues[slot]
    }) by {
        let queue = s.queues[slot];
        if names_slot(needed, needed.len() as int, slot) {
            let j = choose|j: int| 0 <= j < needed.len() && needed[j] == slot;
            assert(s.at_front(needed[j] as int, cid));
        } else if queue.len() > 0 && queue[0] == cid {
            assert(queue.contains(cid));
            assert(s.ctxs[cid].reaches(slot));
        }
    }
    assert forall|slot: int| 0 <= slot < s.queues.len() implies !(
    #[trigger] t.queues[slot]).contains(cid) by {
        if t.queues[slot].contains(cid) {
            assert(t.ctxs.contains_key(cid));
        }
    }
}

/// When a command leaves, those who come to the front of a queue are to be woken up, before those
/// who were to be woken up already, and the one at the lower slot before the one at the higher.
pub proof fn law_finish_wakes<C, B>(scheduler: &mut Scheduler<C, B>, cid: u64)
    requires
        scheduler.wf(),
        scheduler@.ready(cid),
        call_ensures(Scheduler::<C, B>::finish_cmd, (scheduler, cid), ()),
    ensures
        old(scheduler)@.wakeups.is_prefix_of(final(scheduler)@.wakeups),
        forall|slot: int| #[trigger]
            old(scheduler)@.at_front(slot, cid) && old(scheduler)@.queues[slot].len() > 1
                ==> final(scheduler)@.wakeups.contains(old(scheduler)@.queues[slot][1]),
        forall|c: u64| #[trigger]
            final(scheduler)@.wakeups.contains(c) && !old(scheduler)@.wakeups.contains(c)
                ==> exists|slot: int| #[trigger]
                old(scheduler)@.at_front(slot, cid) && old(scheduler)@.queues[slot].len() > 1
                    && old(scheduler)@.queues[slot][1] == c,
        forall|low: int, high: int|
            low < high && #[trigger] old(scheduler)@.at_front(low, cid)
                && #[trigger] old(scheduler)@.at_front(high, cid)
                    && old(scheduler)@.queues[low].len() > 1
                        && old(scheduler)@.queues[high].len() > 1 ==> wakes_before(
                final(scheduler)@.wakeups,
                old(scheduler)@.queues[low][1],
                old(scheduler)@.queues[high][1],
            ),
{
    let s = scheduler@;
    let t = s.finished(cid);
    let needed = s.ctxs[cid].needed;
    let seconds = next_in_line(s.queues, needed);
    assert(s.ctx_ok(cid));
    lemma_next_in_line(s.queues, needed);
    assert(s.wakeups =~= t.wakeups.subrange(0, s.wakeups.len() as int));
    assert forall|slot: int| #[trigger] s.at_front(slot, cid) implies names_slot(
        needed,
        needed.len() as int,
        slot,
    ) by {
        assert(s.queues[slot].contains(cid));
        assert(s.ctxs[cid].reaches(slot));
    }
    assert forall|slot: int| #[trigger]
        s.at_front(slot, cid) && s.queues[slot].len() > 1 implies t.wakeups.contains(
        s.queues[slot][1],
    ) by {
        law_finished_wakes_next(s, cid, slot);
    }
    assert forall|c: u64| #[trigger]
        t.wakeups.contains(c) && !s.wakeups.contains(c) implies exists|slot: int| #[trigger]
        s.at_front(slot, cid) && s.queues[slot].len() > 1 && s.queues[slot][1] == c by {
        let i = choose|i: int| 0 <= i < t.wakeups.len() && t.wakeups[i] == c;
        if i < s.wakeups.len() {
            assert(s.wakeups[i] == c);
        }
        let k = seconds.len() - 1 - (i - s.wakeups.len());
        assert(seconds[k] == c);
        assert(seconds.contains(c));
        let j = choose|j: int|
            0 <= j < needed.len() && s.queues[#[trigger] needed[j] as int].len() > 1
                && s.queues[needed[j] as int][1] == c;
        assert(s.at_front(needed[j] as int, cid));
    }
    assert forall|low: int, high: int|
        low < high && #[trigger] s.at_front(low, cid) && #[trigger] s.at_front(high, cid)
            && s.queues[low].len() > 1 && s.queues[high].len() > 1 implies wakes_before(
        t.wakeups,
        s.queues[low][1],
        s.queues[high][1],
    ) by {
        let i = choose|i: int| 0 <= i < needed.len() && needed[i] == low;
        let j = choose|j: int| 0 <= j < needed.len() && needed[j] == high;
        if j <= i {
            assert(needed[j] <= needed[i]);
        }
        let (a, b) = lemma_next_in_line_order(s.queues, needed, i, j);
        let n = s.wakeups.len() as int;
        let m = seconds.len() as int;
        assert(t.wakeups[n + (m - 1 - a)] == s.queues[low][1]);
        assert(t.wakeups[n + (m - 1 - b)] == s.queues[high][1]);
    }
}

/// Whether `a` is woken up before `b`: wake-ups go from the last to the first.
pub open spec fn wakes_before(wakeups: Seq<u64>, a: u64, b: u64) -> bool {
    exists|i: int, j: int|
        0 <= j < i < wakeups.len() && #[trigger] wakeups[i] == a && #[trigger] wakeups[j] == b
}

/// Those next in line are listed in the order of the slots.
proof fn lemma_next_in_line_order(
    queues: Seq<Seq<u64>>,
    indices: Seq<usize>,
    i: int,
    j: int,
) -> (places: (int, int))
    requires
        0 <= i < j < indices.len(),
        queues[indices[i] as int].len() > 1,
        queues[indices[j] as int].len() > 1,
    ensures
        0 <= places.0 < places.1 < next_in_line(queues, indices).len(),
        next_in_line(queues, indices)[places.0] == queues[indices[i] as int][1],
        next_in_line(queues, indices)[places.1] == queues[indices[j] as int][1],
    decreases indices.len(),
{
    let rest = indices.drop_last();
    let before = next_in_line(queues, rest);
    if j < rest.len() {
        lemma_next_in_line_order(queues, rest, i, j)
    } else {
        lemma_next_in_line(queues, rest);
        assert(rest[i] == indices[i]);
        assert(before.contains(queues[indices[i] as int][1]));
        let a = choose|a: int|
            0 <= a < before.len() && before[a] == queues[indices[i] as int][1];
        (a, before.len() as int)
    }
}

/// Waking commands up changes nothing but the latches they hold, and moves nobody in a queue. The
/// one that comes to hold all that it needs is returned; if there is none, nobody is left to be
/// woken up.
pub proof fn law_next_wakeup<C, B>(scheduler: &mut Scheduler<C, B>, ready: Option<u64>)
    requires
        scheduler.wf(),
        call_ensures(Scheduler::<C, B>::next_wakeup, (scheduler,), ready),
    ensures
        final(scheduler).wf(),
        ready matches Some(cid) ==> final(scheduler)@.ready(cid)
            && old(scheduler)@.wakeups.contains(cid),
        ready is None ==> final(scheduler)@.wakeups.len() == 0,
        forall|c: u64| #[trigger]
            final(scheduler)@.ready(c) <==> old(scheduler)@.ready(c) || ready == Some(c),
        final(scheduler)@.queues.len() == old(scheduler)@.queues.len(),
        forall|slot: int|
            0 <= slot < old(scheduler)@.queues.len()
                ==> old(scheduler)@.queues[slot].is_prefix_of(#[trigger] final(scheduler)@.queues[slot]),
        final(scheduler)@.wakeups.is_prefix_of(old(scheduler)@.wakeups),
        final(scheduler)@.id_alloc == old(scheduler)@.id_alloc,
        forall|c: u64| #[trigger]
            final(scheduler)@.ctxs.contains_key(c) <==> old(scheduler)@.ctxs.contains_key(c),
        forall|c: u64| #[trigger]
            old(scheduler)@.ctxs.contains_key(c) ==> {
                &&& final(scheduler)@.ctxs[c].cmd == old(scheduler)@.ctxs[c].cmd
                &&& final(scheduler)@.ctxs[c].needed == old(scheduler)@.ctxs[c].needed
            },
        old(scheduler)@.wakeups.len() == 0 ==> ready is None && final(scheduler)@
            == old(scheduler)@,
        old(scheduler)@.wakeups.len() > 0 && final(scheduler)@.wakeups.len()
            == old(scheduler)@.wakeups.len() - 1 && ready is Some ==> ready
                == Some(old(scheduler)@.wakeups.last()),
{
    lemma_woken_up_to_ready(scheduler@);
}

/// What waking commands up until one goes on keeps.
proof fn lemma_woken_up_to_ready<C, B>(s: SchedulerView<C, B>)
    requires
        s.inv(),
    ensures
        ({
            let (t, ready) = s.woken_up_to_ready();
            &&& ready matches Some(cid) ==> s.wakeups.contains(cid) && cid
                == s.wakeups[t.wakeups.len() as int] && t.wakeups.len() < s.wakeups.len()
            &&& t.wakeups.is_prefix_of(s.wakeups)
            &&& t.id_alloc == s.id_alloc
            &&& forall|c: u64| #[trigger] t.ready(c) <==> s.ready(c) || ready == Some(c)
            &&& t.queues.len() == s.queues.len()
            &&& forall|slot: int|
                0 <= slot < s.queues.len() ==> s.queues[slot].is_prefix_of(
                    #[trigger] t.queues[slot],
                )
            &&& forall|c: u64| #[trigger] t.ctxs.contains_key(c) <==> s.ctxs.contains_key(c)
            &&& forall|c: u64| #[trigger]
                s.ctxs.contains_key(c) ==> t.ctxs[c].cmd == s.ctxs[c].cmd && t.ctxs[c].needed
                    == s.ctxs[c].needed
        }),
    decreases s.wakeups.len(),
{
    if s.wakeups.len() > 0 {
        let cid = s.wakeups.last();
        assert(s.wakeups.contains(cid));
        assert(s.woken(cid));
        lemma_woken_up_inv(s);
        let u = s.woken_up();
        assert(u.wakeups == s.wakeups.drop_last());
        assert(!s.ready(cid));
        assert forall|c: u64| c != cid implies u.ready(c) == s.ready(c) by {}
        assert forall|slot: int| 0 <= slot < s.queues.len() implies s.queues[slot].is_prefix_of(
            #[trigger] u.queues[slot],
        ) by {
            assert(s.queues[slot] =~= u.queues[slot].subrange(0, s.queues[slot].len() as int));
        }
        if !u.ready(cid) {
            lemma_woken_up_to_ready(u);
            let (t, ready) = u.woken_up_to_ready();
            assert forall|c: u64| #[trigger] t.ready(c) <==> s.ready(c) || ready == Some(c) by {
                assert(t.ready(c) <==> u.ready(c) || ready == Some(c));
            }
            assert forall|slot: int| 0 <= slot < s.queues.len() implies s.queues[slot].is_prefix_of(
                #[trigger] t.queues[slot],
            ) by {
                assert(u.queues[slot].is_prefix_of(t.queues[slot]));
                assert(s.queues[slot].is_prefix_of(u.queues[slot]));
            }
            if let Some(c) = ready {
                assert(s.wakeups[t.wakeups.len() as int] == u.wakeups[t.wakeups.len() as int]);
            }
            assert forall|c: u64| #[trigger] t.ctxs.contains_key(c) <==> s.ctxs.contains_key(
                c,
            ) by {
                assert(t.ctxs.contains_key(c) <==> u.ctxs.contains_key(c));
            }
            assert forall|c: u64| #[trigger] s.ctxs.contains_key(c) implies t.ctxs[c].cmd
                == s.ctxs[c].cmd && t.ctxs[c].needed == s.ctxs[c].needed by {
                assert(u.ctxs.contains_key(c));
            }
        }
    }
}

/// If the next to be woken up, the last of those who are to be, can then go on, it does.
pub proof fn law_first_to_wake<C, B>(s: SchedulerView<C, B>)
    requires
        s.wakeups.len() > 0,
        s.woken_up().ready(s.wakeups.last()),
    ensures
        s.woken_up_to_ready().1 == Some(s.wakeups.last()),
        s.woken_up_to_ready().0.wakeups == s.wakeups.drop_last(),
{
}

/// A command that is refused a snapshot is answered with the error of the engine and leaves; with a
/// snapshot under way nothing changes.
pub proof fn law_get_snapshot<C, B>(
    scheduler: &mut Scheduler<C, B>,
    cid: u64,
    asked: Result<(), EngineError>,
    answer: Option<Answer<B>>,
    reply: Reply,
)
    requires
        scheduler@.unanswered(cid),
        call_ensures(Scheduler::<C, B>::get_snapshot, (scheduler, cid, asked), answer),
        asked is Err ==> call_ensures(
            fail_reply::<C, B>,
            (&scheduler@.ctxs[cid].cmd, Error::Txn(TxnError::Engine(asked->Err_0))),
            reply,
        ),
    ensures
        asked is Ok ==> answer is None && final(scheduler)@ == old(scheduler)@,
        asked is Err ==> {
            &&& answer is Some
            &&& answer->Some_0.reply == reply
            &&& Some(answer->Some_0.callback) == old(scheduler)@.ctxs[cid].cmd.spec_callback()
            &&& final(scheduler)@.ctxs == old(scheduler)@.ctxs.remove(cid)
            &&& final(scheduler)@ == old(scheduler)@.finished(cid)
        },
{
}

/// A command that failed is answered with the error and stays, without its callback; one that is
/// finished with an error is answered the same and leaves.
pub proof fn law_failed_cmd<C, B>(
    scheduler: &mut Scheduler<C, B>,
    other: &mut Scheduler<C, B>,
    cid: u64,
    err: TxnError,
    answer: Answer<B>,
    last_answer: Answer<B>,
    reply: Reply,
)
    requires
        scheduler@.unanswered(cid),
        other@ == scheduler@,
        call_ensures(Scheduler::<C, B>::process_failed_cmd, (scheduler, cid, err), answer),
        call_ensures(Scheduler::<C, B>::finish_with_err, (other, cid, err), last_answer),
        call_ensures(fail_reply::<C, B>, (&scheduler@.ctxs[cid].cmd, Error::Txn(err)), reply),
    ensures
        answer.reply == reply,
        last_answer == answer,
        Some(answer.callback) == old(scheduler)@.ctxs[cid].cmd.spec_callback(),
        final(scheduler)@.ctxs.contains_key(cid),
        final(scheduler)@.ctxs[cid].cmd == old(scheduler)@.ctxs[cid].cmd.without_callback(),
        final(scheduler)@.ctxs[cid].needed == old(scheduler)@.ctxs[cid].needed,
        final(scheduler)@.ctxs[cid].owned == old(scheduler)@.ctxs[cid].owned,
        final(scheduler)@.ctxs.remove(cid) == old(scheduler)@.ctxs.remove(cid),
        final(scheduler)@.queues == old(scheduler)@.queues,
        final(scheduler)@.wakeups == old(scheduler)@.wakeups,
        final(scheduler)@.id_alloc == old(scheduler)@.id_alloc,
        final(other)@.ctxs == old(other)@.ctxs.remove(cid),
        final(other)@ == old(other)@.finished(cid),
{
    assert(final(scheduler)@.ctxs.remove(cid) =~= old(scheduler)@.ctxs.remove(cid));
}

/// What came of the work of a command decides what it is answered: the same as the reply to it
/// says, given to the callback of that command.
pub proof fn law_process_cmd<C, B>(
    scheduler: &mut Scheduler<C, B>,
    cid: u64,
    outcome: TaskOutcome,
    res: Result<Option<Answer<B>>, TxnError>,
    expected: Result<Option<Reply>, TxnError>,
)
    requires
        outcome_fits(scheduler@.ctxs[cid].cmd, outcome),
        call_ensures(read_reply::<C, B>, (&scheduler@.ctxs[cid].cmd, outcome), expected),
        call_ensures(
            Scheduler::<C, B>::process_cmd_with_snapshot,
            (scheduler, cid, outcome),
            res,
        ),
    ensures
        old(scheduler)@.ctxs[cid].cmd is Get && outcome is Get ==> {
            &&& res matches Ok(Some(answer))
            &&& Some(answer.callback) == old(scheduler)@.ctxs[cid].cmd.spec_callback()
            &&& answer.reply == match outcome->Get_value {
                Ok(found) => Reply::Value(Ok(found)),
                Err(err) => Reply::Value(Err(Error::Txn(err))),
            }
        },
        outcome matches TaskOutcome::NoScanner { err } ==> res == Err::<
            Option<Answer<B>>,
            TxnError,
        >(err) && final(scheduler)@ == old(scheduler)@,
        outcome matches TaskOutcome::Write { result: Err(err) } ==> res == Err::<
            Option<Answer<B>>,
            TxnError,
        >(err) && final(scheduler)@ == old(scheduler)@,
        outcome == (TaskOutcome::Write { result: Ok(()) })
            && !(old(scheduler)@.ctxs[cid].cmd.spec_readonly()) ==> res
                == Ok::<Option<Answer<B>>, TxnError>(None)
            && final(scheduler)@ == old(scheduler)@,
        res matches Ok(Some(answer)) ==> {
            &&& final(scheduler)@ == old(scheduler)@.callback_taken(cid)
            &&& Some(answer.callback) == old(scheduler)@.ctxs[cid].cmd.spec_callback()
        },
        expected is Err <==> res is Err,
        expected matches Ok(None) ==> res matches Ok(None),
        expected matches Ok(Some(Reply::Pairs(Err(err)))) ==> (res matches Ok(Some(answer))
            && answer.reply == Reply::Pairs(Err(err))),
        expected matches Ok(Some(Reply::Pairs(Ok(pairs)))) ==> (res matches Ok(Some(answer)) && (
        answer.reply matches Reply::Pairs(Ok(given)) && given@ == pairs@)),
{
}

/// A command is answered through its snapshot as a reply to what came of its work says, and then
/// leaves; a write command whose changes were handed over stays.
pub proof fn law_snapshot_finished<C, B>(
    scheduler: &mut Scheduler<C, B>,
    cid: u64,
    outcome: TaskOutcome,
    answer: Option<Answer<B>>,
    res: Result<Option<Reply>, TxnError>,
    failure: Reply,
)
    requires
        scheduler.can_take_snapshot(cid, Ok(outcome)),
        call_ensures(Scheduler::<C, B>::snapshot_finished, (scheduler, cid, Ok(outcome)), answer),
        call_ensures(read_reply::<C, B>, (&scheduler@.ctxs[cid].cmd, outcome), res),
        res matches Err(err) ==> call_ensures(
            fail_reply::<C, B>,
            (&scheduler@.ctxs[cid].cmd, Error::Txn(err)),
            failure,
        ),
    ensures
        res matches Ok(None) ==> answer is None && final(scheduler)@ == old(scheduler)@,
        res matches Ok(Some(_)) ==> answer is Some,
        res is Err ==> answer is Some && answer->Some_0.reply == failure,
        answer matches Some(answer) ==> {
            &&& Some(answer.callback) == old(scheduler)@.ctxs[cid].cmd.spec_callback()
            &&& final(scheduler)@.ctxs == old(scheduler)@.ctxs.remove(cid)
            &&& final(scheduler)@ == old(scheduler)@.finished(cid)
        },
        outcome matches TaskOutcome::Get { value } ==> answer is Some && answer->Some_0.reply
            == match value {
            Ok(found) => Reply::Value(Ok(found)),
            Err(err) => Reply::Value(Err(Error::Txn(err))),
        },
        outcome matches TaskOutcome::BatchGet { values: Err(err), .. } ==> answer is Some
            && answer->Some_0.reply == Reply::Pairs(Err(Error::Txn(err))),
        outcome matches TaskOutcome::Scan { pairs: Err(err) } ==> answer is Some
            && answer->Some_0.reply == Reply::Pairs(Err(Error::Txn(err))),
        outcome is BatchGet || outcome is Scan ==> {
            &&& answer is Some
            &&& res matches Ok(Some(Reply::Pairs(Ok(expected)))) ==> (
            answer->Some_0.reply matches Reply::Pairs(Ok(given)) && given@ == expected@)
        },
{
}

/// Without a snapshot a command is answered with the error of the engine and leaves, whether it
/// comes with a message or not.
pub proof fn law_no_snapshot<C, B, S>(
    scheduler: &mut Scheduler<C, B>,
    other: &mut Scheduler<C, B>,
    cid: u64,
    err: EngineError,
    answer: Option<Answer<B>>,
    action: Action<B, S>,
    reply: Reply,
)
    requires
        scheduler@.unanswered(cid),
        other@ == scheduler@,
        call_ensures(Scheduler::<C, B>::snapshot_finished, (scheduler, cid, Err(err)), answer),
        call_ensures(
            Scheduler::<C, B>::notify::<S>,
            (other, Msg::SnapshotFinish { cid, snapshot: Err(err) }),
            action,
        ),
        call_ensures(
            fail_reply::<C, B>,
            (&scheduler@.ctxs[cid].cmd, Error::Txn(TxnError::Engine(err))),
            reply,
        ),
    ensures
        answer matches Some(answer) && answer.reply == reply && Some(answer.callback)
            == old(scheduler)@.ctxs[cid].cmd.spec_callback() && action
                == (Action::<B, S>::Reply { answer }),
        final(scheduler)@.ctxs == old(scheduler)@.ctxs.remove(cid),
        final(scheduler)@ == old(scheduler)@.finished(cid),
        final(other)@ == final(scheduler)@,
{
}

/// A snapshot is handed on, to the command that it is for.
pub proof fn law_snapshot_handed_on<C, B, S>(
    scheduler: &mut Scheduler<C, B>,
    cid: u64,
    snapshot: S,
    action: Action<B, S>,
)
    requires
        call_ensures(
            Scheduler::<C, B>::notify::<S>,
            (scheduler, Msg::SnapshotFinish { cid, snapshot: Ok(snapshot) }),
            action,
        ),
    ensures
        action == (Action::<B, S>::Process { cid, snapshot }),
        final(scheduler)@ == old(scheduler)@,
{
}

/// A new command is received: it gets a snapshot if it goes on at once, and waits otherwise.
pub proof fn law_command_taken_in<C, B, S>(
    scheduler: &mut Scheduler<C, B>,
    other: &mut Scheduler<C, B>,
    cmd: Command<C, B>,
    action: Action<B, S>,
    ready: Option<u64>,
)
    requires
        scheduler@ == other@,
        call_ensures(Scheduler::<C, B>::notify::<S>, (scheduler, Msg::RawCmd { cmd }), action),
        call_ensures(Scheduler::<C, B>::received_new_cmd, (other, cmd), ready),
    ensures
        final(scheduler)@ == final(other)@,
        ready matches Some(cid) ==> action == (Action::<B, S>::GetSnapshot { cid }),
        ready is None ==> action == Action::<B, S>::Wait,
{
}

/// A message to quit stops the scheduler and leaves it as it is.
pub proof fn law_quit<C, B, S>(scheduler: &mut Scheduler<C, B>, action: Action<B, S>)
    requires
        call_ensures(Scheduler::<C, B>::notify::<S>, (scheduler, Msg::<C, B, S>::Quit), action),
    ensures
        action == Action::<B, S>::Shutdown,
        final(scheduler)@ == old(scheduler)@,
{
}

/// A write command is answered when its changes have been stored, with what it has computed; if
/// they could not be stored, with the error of the engine. It then leaves.
pub proof fn law_write_finished<C, B, S>(
    scheduler: &mut Scheduler<C, B>,
    other: &mut Scheduler<C, B>,
    cid: u64,
    pr: ProcessResult,
    result: Result<(), EngineError>,
    answer: Answer<B>,
    action: Action<B, S>,
    stored: Reply,
    failure: Reply,
)
    requires
        scheduler@.unanswered(cid),
        other@ == scheduler@,
        call_ensures(Scheduler::<C, B>::write_finished, (scheduler, cid, pr, result), answer),
        call_ensures(
            Scheduler::<C, B>::notify::<S>,
            (other, Msg::WriteFinish { cid, pr, result }),
            action,
        ),
        result is Ok ==> call_ensures(
            stored_reply::<C, B>,
            (&scheduler@.ctxs[cid].cmd, pr),
            stored,
        ),
        result matches Err(err) ==> call_ensures(
            fail_reply::<C, B>,
            (&scheduler@.ctxs[cid].cmd, Error::Engine(err)),
            failure,
        ),
    ensures
        Some(answer.callback) == old(scheduler)@.ctxs[cid].cmd.spec_callback(),
        action matches Action::Reply { answer: given } && given.callback == answer.callback,
        result is Err ==> answer.reply == failure && action->answer.reply == failure,
        result is Ok ==> {
            &&& !(stored is Results) ==> answer.reply == stored && action->answer.reply == stored
            &&& stored matches Reply::Results(Ok(expected)) ==> {
                &&& answer.reply matches Reply::Results(Ok(given))
                &&& given@ == expected@
                &&& action->answer.reply matches Reply::Results(Ok(sent))
                &&& sent@ == expected@
            }
        },
        final(scheduler)@ == old(scheduler)@.callback_taken(cid),
        final(other)@.ctxs == old(other)@.ctxs.remove(cid),
        final(other)@ == old(other)@.finished(cid),
{
}

/// A command can be answered if it holds all its latches and has its callback; it runs until it
/// leaves.
pub proof fn law_awaits_answer<C, B>(
    scheduler: &Scheduler<C, B>,
    cid: u64,
    awaits: bool,
    runs: bool,
)
    requires
        call_ensures(Scheduler::<C, B>::awaits_answer, (scheduler, cid), awaits),
        call_ensures(Scheduler::<C, B>::is_running, (scheduler, cid), runs),
    ensures
        runs <==> scheduler@.ctxs.contains_key(cid),
        awaits <==> runs && scheduler@.ctxs[cid].owned == scheduler@.ctxs[cid].needed.len()
            && scheduler@.ctxs[cid].cmd.spec_callback() is Some,
{
}

/// Which messages can be taken in: to quit always, a command while there is an id and a latch for
/// it, an error only for a command that can be answered, and the end of a write only for a write
/// command that can be answered with it.
pub proof fn law_check_msg<C, B, S>(scheduler: &Scheduler<C, B>, msg: &Msg<C, B, S>, yes: bool)
    requires
        call_ensures(Scheduler::<C, B>::check_msg::<S>, (scheduler, msg), yes),
    ensures
        msg is Quit ==> yes,
        *msg matches Msg::RawCmd { cmd } ==> (yes <==> scheduler@.id_alloc < u64::MAX && (
        scheduler@.queues.len() > 0 || cmd.written_keys().len() == 0)),
        *msg matches Msg::SnapshotFinish { cid, snapshot: Ok(_) } ==> (yes
            <==> scheduler@.ctxs.contains_key(cid)),
        *msg matches Msg::SnapshotFinish { cid, snapshot: Err(_) } ==> (yes
            <==> scheduler@.ctxs.contains_key(cid) && scheduler@.ctxs[cid].owned
            == scheduler@.ctxs[cid].needed.len() && scheduler@.ctxs[cid].cmd.spec_callback()
            is Some),
        *msg matches Msg::WriteFinish { cid, pr, result } ==> {
            let runs = scheduler@.ctxs.contains_key(cid);
            let ctx = scheduler@.ctxs[cid];
            yes <==> {
                &&& runs
                &&& ctx.owned == ctx.needed.len()
                &&& ctx.cmd.spec_callback() is Some
                &&& !(ctx.cmd is Get || ctx.cmd is BatchGet || ctx.cmd is Scan)
                &&& result is Ok && ctx.cmd is Prewrite ==> pr is ResultSet
                &&& result is Ok && (ctx.cmd is CommitThenGet || ctx.cmd is RollbackThenGet)
                    ==> pr is Value
            }
        },
{
}

/// What came of a snapshot can be taken in if it is what the command asks for, and there is a
/// callback where the command is to be answered: it always is, unless it writes and succeeded.
pub proof fn law_check_snapshot<C, B>(
    scheduler: &Scheduler<C, B>,
    cid: u64,
    snapshot: &Result<TaskOutcome, EngineError>,
    yes: bool,
    awaits: bool,
    fits: bool,
)
    requires
        scheduler@.ctxs.contains_key(cid),
        call_ensures(Scheduler::<C, B>::check_snapshot, (scheduler, cid, snapshot), yes),
        call_ensures(Scheduler::<C, B>::awaits_answer, (scheduler, cid), awaits),
        *snapshot matches Ok(outcome) ==> call_ensures(
            check_outcome::<C, B>,
            (&scheduler@.ctxs[cid].cmd, &outcome),
            fits,
        ),
    ensures
        snapshot is Err ==> yes == awaits,
        *snapshot matches Ok(outcome) ==> {
            &&& outcome is Write && outcome->Write_result is Ok ==> yes == fits
            &&& !(outcome is Write && outcome->Write_result is Ok) ==> yes == (fits && awaits)
        },
{
}

/// Whatever passes the checks can be taken in.
pub proof fn law_checked_is_taken<C, B, S>(
    scheduler: &mut Scheduler<C, B>,
    msg: Msg<C, B, S>,
    cid: u64,
    snapshot: Result<TaskOutcome, EngineError>,
)
    requires
        scheduler.wf(),
        call_ensures(Scheduler::<C, B>::check_msg::<S>, (&*scheduler, &msg), true),
        call_ensures(Scheduler::<C, B>::check_snapshot, (&*scheduler, cid, &snapshot), true),
    ensures
        call_requires(Scheduler::<C, B>::notify::<S>, (scheduler, msg)),
        call_requires(Scheduler::<C, B>::snapshot_finished, (scheduler, cid, snapshot)),
{
}

/// The message that carries a command carries that command.
pub proof fn law_dispatch_cmd<C, B, S>(
    scheduler: &Scheduler<C, B>,
    cmd: Command<C, B>,
    msg: Msg<C, B, S>,
)
    requires
        call_ensures(Scheduler::<C, B>::dispatch_cmd::<S>, (scheduler, cmd), msg),
    ensures
        msg matches Msg::RawCmd { cmd: carried } && carried == cmd,
{
}

/// Once a minute the number of running commands is reported.
pub proof fn law_report<C, B>(
    scheduler: &Scheduler<C, B>,
    tick: Tick,
    report: Report,
    direct: Report,
)
    requires
        call_ensures(Scheduler::<C, B>::timeout, (scheduler, tick), report),
        call_ensures(Scheduler::<C, B>::on_report_staticstic_tick, (scheduler,), direct),
    ensures
        report.running_cmd_count == scheduler@.ctxs.dom().len(),
        report.next is ReportStatistic,
        report.delay == 60 * 1000,
        direct == report,
{
}

} // verus!
