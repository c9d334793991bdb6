//! What holds of the latches and of the scheduler as a whole.

pub mod answer;
pub mod calls;
pub mod storing;
pub mod table;
pub mod texts;
pub mod work;

use crate::command::Command;
use crate::latch::{
    after_acquire, after_release, holds_all, leading_free, lemma_after_acquire_who,
    lemma_leading_free, lemma_leading_free_is, lemma_next_in_line, lemma_same_keys_same_slots,
    lemma_slots_of, names_slot, next_in_line, slot_of, slots_of,
};
use crate::process::{is_process_result, op_count, OpOutcome, ProcessResult};
use crate::state::{lemma_finished_inv, lemma_woken_up_inv, needed_slots, SchedulerView};
use vstd::prelude::*;

verus! {

/// The slots of keys depend on which keys there are, and neither on their order nor on how often
/// one is named.
pub proof fn law_slots_of_key_set(a: Seq<Seq<u8>>, b: Seq<Seq<u8>>, size: int)
    requires
        0 < size <= usize::MAX,
        forall|key: Seq<u8>| a.contains(key) <==> b.contains(key),
    ensures
        slots_of(a, size) == slots_of(b, size),
{
    lemma_slots_of(a, size);
    lemma_slots_of(b, size);
    lemma_same_keys_same_slots(slots_of(a, size), a, slots_of(b, size), b, size);
}

/// Commands that write a common key need a common latch.
pub proof fn law_common_key_common_slot(
    a: Seq<Seq<u8>>,
    b: Seq<Seq<u8>>,
    key: Seq<u8>,
    size: int,
)
    requires
        0 < size <= usize::MAX,
        a.contains(key),
        b.contains(key),
    ensures
        names_slot(slots_of(a, size), slots_of(a, size).len() as int, slot_of(key, size)),
        names_slot(slots_of(b, size), slots_of(b, size).len() as int, slot_of(key, size)),
{
    lemma_slots_of(a, size);
    lemma_slots_of(b, size);
    let i = choose|i: int| 0 <= i < a.len() && a[i] == key;
    let j = choose|j: int| 0 <= j < b.len() && b[j] == key;
    assert(slot_of(a[i], size) == slot_of(b[j], size));
}

/// Trying again to take latches, with nothing in between, gives the same latches and changes
/// nothing.
pub proof fn law_acquire_again(queues: Seq<Seq<u64>>, indices: Seq<usize>, who: u64)
    requires
        forall|j: int| 0 <= j < indices.len() ==> (#[trigger] indices[j]) < queues.len(),
    ensures
        leading_free(after_acquire(queues, indices, who), indices, who) == leading_free(
            queues,
            indices,
            who,
        ),
        after_acquire(after_acquire(queues, indices, who), indices, who) == after_acquire(
            queues,
            indices,
            who,
        ),
{
    let n = leading_free(queues, indices, who) as int;
    let once = after_acquire(queues, indices, who);
    lemma_leading_free(queues, indices, who);
    lemma_after_acquire_who(queues, indices, who);
    lemma_leading_free_is(once, indices, who, n);
    assert(after_acquire(once, indices, who) =~= once) by {
        assert forall|s: int| 0 <= s < once.len() implies #[trigger] after_acquire(
            once,
            indices,
            who,
        )[s] == once[s] by {
            if names_slot(indices, n, s) && once[s].len() == 0 {
                let j = choose|j: int| 0 <= j < n && indices[j] == s;
                assert(once[indices[j] as int].len() > 0);
            }
        }
    }
}

/// Giving up latches that were all free undoes taking them.
pub proof fn law_release_undoes_acquire(queues: Seq<Seq<u64>>, indices: Seq<usize>, who: u64)
    requires
        indices.no_duplicates(),
        forall|j: int|
            0 <= j < indices.len() ==> (#[trigger] indices[j]) < queues.len()
                && queues[indices[j] as int].len() == 0,
    ensures
        leading_free(queues, indices, who) == indices.len(),
        holds_all(after_acquire(queues, indices, who), indices, who),
        next_in_line(after_acquire(queues, indices, who), indices) == Seq::<u64>::empty(),
        after_release(after_acquire(queues, indices, who), indices) == queues,
{
    let taken = after_acquire(queues, indices, who);
    lemma_leading_free_is(queues, indices, who, indices.len() as int);
    lemma_after_acquire_who(queues, indices, who);
    assert forall|s: int|
        0 <= s < queues.len() && names_slot(indices, indices.len() as int, s) implies
        #[trigger] taken[s] == seq![who] && queues[s].len() == 0 by {
        let j = choose|j: int| 0 <= j < indices.len() && indices[j] == s;
        assert(queues[indices[j] as int].len() == 0);
    }
    assert(after_release(taken, indices) =~= queues) by {
        assert forall|s: int| 0 <= s < queues.len() implies #[trigger] after_release(
            taken,
            indices,
        )[s] == queues[s] by {
            if names_slot(indices, indices.len() as int, s) {
                assert(taken[s] == seq![who]);
                assert(taken[s].drop_first() =~= queues[s]);
            }
        }
    }
    let seconds = next_in_line(taken, indices);
    lemma_next_in_line(taken, indices);
    assert(seconds.len() == 0) by {
        if seconds.len() > 0 {
            assert(seconds.contains(seconds[0]));
            let j = choose|j: int|
                0 <= j < indices.len() && taken[#[trigger] indices[j] as int].len() > 1
                    && taken[indices[j] as int][1] == seconds[0];
            assert(names_slot(indices, indices.len() as int, indices[j] as int));
            assert(taken[indices[j] as int] == seq![who]);
        }
    }
    assert(seconds =~= Seq::<u64>::empty());
}

/// No latch is held by two commands.
pub proof fn law_latches_exclude<C, B>(s: SchedulerView<C, B>, a: u64, b: u64, slot: int)
    requires
        s.inv(),
        s.ctxs.contains_key(a),
        s.ctxs.contains_key(b),
        names_slot(s.ctxs[a].needed, s.ctxs[a].owned, slot),
        names_slot(s.ctxs[b].needed, s.ctxs[b].owned, slot),
    ensures
        a == b,
{
    assert(s.ctx_ok(a));
    assert(s.ctx_ok(b));
    let i = choose|i: int| 0 <= i < s.ctxs[a].owned && s.ctxs[a].needed[i] == slot;
    let j = choose|j: int| 0 <= j < s.ctxs[b].owned && s.ctxs[b].needed[j] == slot;
    assert(s.at_front(s.ctxs[a].needed[i] as int, a));
    assert(s.at_front(s.ctxs[b].needed[j] as int, b));
}

/// A command that goes on with all its latches holds the latch of every key that it writes.
pub proof fn law_ready_holds_keys<C, B>(s: SchedulerView<C, B>, cid: u64, key: Seq<u8>)
    requires
        s.inv(),
        s.ready(cid),
        s.ctxs[cid].cmd.written_keys().contains(key),
    ensures
        s.at_front(slot_of(key, s.queues.len() as int), cid),
{
    assert(s.ctx_ok(cid));
    let keys = s.ctxs[cid].cmd.written_keys();
    let size = s.queues.len() as int;
    law_common_key_common_slot(keys, keys, key, size);
    let needed = s.ctxs[cid].needed;
    let j = choose|j: int| 0 <= j < needed.len() && needed[j] == slot_of(key, size);
    assert(s.at_front(needed[j] as int, cid));
}

/// Two commands that go on with all their latches write no common key.
pub proof fn law_writes_exclude<C, B>(s: SchedulerView<C, B>, a: u64, b: u64, key: Seq<u8>)
    requires
        s.inv(),
        s.ready(a),
        s.ready(b),
        s.ctxs[a].cmd.written_keys().contains(key),
        s.ctxs[b].cmd.written_keys().contains(key),
    ensures
        a == b,
{
    law_ready_holds_keys(s, a, key);
    law_ready_holds_keys(s, b, key);
}

/// Once everybody has been woken up, a command that lacks a latch waits behind another command
/// that holds it: no wake-up is lost.
pub proof fn law_blocked_behind_holder<C, B>(s: SchedulerView<C, B>, cid: u64) -> (holder: u64)
    requires
        s.inv(),
        s.wakeups.len() == 0,
        s.blocked(cid),
    ensures
        holder != cid,
        s.at_front(s.next_slot(cid), holder),
        s.ctxs.contains_key(holder),
        names_slot(s.ctxs[holder].needed, s.ctxs[holder].owned, s.next_slot(cid)),
{
    assert(s.ctx_ok(cid));
    let slot = s.next_slot(cid);
    assert(s.queues[slot].contains(cid));
    let holder = s.queues[slot][0];
    assert(!s.wakeups.contains(cid));
    assert(!s.woken(cid));
    assert(s.queues[slot].contains(holder));
    assert(s.ctxs[holder].reaches(slot));
    let j = choose|j: int|
        0 <= j < s.ctxs[holder].needed.len() && j <= s.ctxs[holder].owned
            && #[trigger] s.ctxs[holder].needed[j] == slot;
    assert(s.ctx_ok(holder));
    assert(!s.wakeups.contains(holder));
    assert(!s.woken(holder));
    assert(j < s.ctxs[holder].owned);
    holder
}

/// There is no deadlock: once everybody has been woken up, one of the running commands holds all
/// its latches.
pub proof fn law_no_deadlock<C, B>(s: SchedulerView<C, B>, cid: u64)
    requires
        s.inv(),
        s.wakeups.len() == 0,
        s.ctxs.contains_key(cid),
    ensures
        exists|c: u64| s.ready(c),
    decreases
            if s.blocked(cid) {
                s.queues.len() - s.next_slot(cid)
            } else {
                0
            },
{
    if s.blocked(cid) {
        let holder = law_blocked_behind_holder(s, cid);
        assert(s.ctx_ok(cid));
        assert(s.ctx_ok(holder));
        if s.blocked(holder) {
            let slot = s.next_slot(cid);
            let of = s.ctxs[holder];
            let j = choose|j: int| 0 <= j < of.owned && of.needed[j] == slot;
            assert(of.needed[j] < of.needed[of.owned]);
            law_no_deadlock(s, holder);
        } else {
            assert(s.ready(holder));
        }
    } else {
        assert(s.ready(cid));
    }
}

/// Waking everybody up keeps the running commands and leaves nobody to be woken up.
pub proof fn law_drained<C, B>(s: SchedulerView<C, B>)
    requires
        s.inv(),
    ensures
        s.drained().inv(),
        s.drained().wakeups.len() == 0,
        s.drained().ctxs.dom() == s.ctxs.dom(),
        s.drained().id_alloc == s.id_alloc,
        forall|c: u64| #[trigger]
            s.ctxs.contains_key(c) ==> s.drained().ctxs[c].cmd == s.ctxs[c].cmd,
    decreases s.wakeups.len(),
{
    if s.wakeups.len() > 0 {
        let cid = s.wakeups.last();
        assert(s.wakeups.contains(cid));
        assert(s.woken(cid));
        lemma_woken_up_inv(s);
        let t = s.woken_up();
        assert(t.wakeups == s.wakeups.drop_last());
        assert(t.ctxs.dom() =~= s.ctxs.dom());
        law_drained(t);
    }
}

/// Waking commands up until one of them holds all its latches, and going on from there, comes to
/// the same as waking everybody up.
pub proof fn law_wakeups_drain<C, B>(s: SchedulerView<C, B>)
    ensures
        s.woken_up_to_ready().0.drained() == s.drained(),
        s.woken_up_to_ready().1 is None ==> s.woken_up_to_ready().0 == s.drained(),
    decreases s.wakeups.len(),
{
    if s.wakeups.len() > 0 && !s.woken_up().ready(s.wakeups.last()) {
        assert(s.woken_up().wakeups == s.wakeups.drop_last());
        law_wakeups_drain(s.woken_up());
    }
}

/// The scheduler never gets stuck: when a command has left and everybody has been woken up, one
/// command fewer is running, and if any is, one of them holds all its latches.
pub proof fn law_progress<C, B>(s: SchedulerView<C, B>, cid: u64)
    requires
        s.inv(),
        s.ready(cid),
    ensures
        s.finished(cid).drained().inv(),
        s.finished(cid).drained().wakeups.len() == 0,
        s.finished(cid).drained().ctxs.dom() == s.ctxs.dom().remove(cid),
        s.ctxs.dom().remove(cid) != Set::<u64>::empty() ==> exists|c: u64|
            s.finished(cid).drained().ready(c),
{
    let t = s.finished(cid).drained();
    lemma_finished_inv(s, cid);
    law_drained(s.finished(cid));
    assert(s.finished(cid).ctxs.dom() =~= s.ctxs.dom().remove(cid));
    if t.ctxs.dom() != Set::<u64>::empty() {
        assert(exists|c: u64| t.ctxs.dom().contains(c)) by {
            if forall|c: u64| !t.ctxs.dom().contains(c) {
                assert(t.ctxs.dom() =~= Set::<u64>::empty());
            }
        }
        let c = choose|c: u64| t.ctxs.dom().contains(c);
        law_no_deadlock(t, c);
    }
}

/// When no command is running, no latch is held and nobody is to be woken up.
pub proof fn law_idle_latches_free<C, B>(s: SchedulerView<C, B>)
    requires
        s.inv(),
        s.ctxs.dom() == Set::<u64>::empty(),
    ensures
        forall|slot: int| 0 <= slot < s.queues.len() ==> (#[trigger] s.queues[slot]).len() == 0,
        s.wakeups.len() == 0,
{
    assert forall|slot: int| 0 <= slot < s.queues.len() implies (
    #[trigger] s.queues[slot]).len() == 0 by {
        if s.queues[slot].len() > 0 {
            assert(s.queues[slot].contains(s.queues[slot][0]));
            assert(s.ctxs.dom().contains(s.queues[slot][0]));
        }
    }
    if s.wakeups.len() > 0 {
        assert(s.wakeups.contains(s.wakeups[0]));
        assert(s.woken(s.wakeups[0]));
        assert(s.ctxs.dom().contains(s.wakeups[0]));
    }
}

/// Whether `a` is queued before `b` in `queue`.
pub open spec fn before(queue: Seq<u64>, a: u64, b: u64) -> bool {
    exists|i: int, j: int| 0 <= i < j < queue.len() && queue[i] == a && queue[j] == b
}

/// First come, first served: nobody overtakes another by taking latches.
pub proof fn law_acquired_keeps_order<C, B>(
    s: SchedulerView<C, B>,
    cid: u64,
    slot: int,
    a: u64,
    b: u64,
)
    requires
        0 <= slot < s.queues.len(),
        before(s.queues[slot], a, b),
    ensures
        before(s.acquired(cid).queues[slot], a, b),
{
    let (i, j) = choose|i: int, j: int|
        0 <= i < j < s.queues[slot].len() && s.queues[slot][i] == a && s.queues[slot][j] == b;
    let after = s.acquired(cid).queues[slot];
    assert(after[i] == a && after[j] == b);
}

/// First come, first served: nobody overtakes another when a command leaves. Whoever waits for a
/// latch that becomes free moves up by one.
pub proof fn law_finished_moves_up<C, B>(s: SchedulerView<C, B>, cid: u64, slot: int, place: int)
    requires
        s.inv(),
        s.ready(cid),
        0 <= slot < s.queues.len(),
        0 <= place < s.queues[slot].len(),
        s.queues[slot][place] != cid,
    ensures
        s.finished(cid).queues[slot] == if names_slot(
            s.ctxs[cid].needed,
            s.ctxs[cid].needed.len() as int,
            slot,
        ) {
            s.queues[slot].drop_first()
        } else {
            s.queues[slot]
        },
        names_slot(s.ctxs[cid].needed, s.ctxs[cid].needed.len() as int, slot) ==> {
            &&& place > 0
            &&& s.finished(cid).queues[slot][place - 1] == s.queues[slot][place]
        },
{
    assert(s.ctx_ok(cid));
    let needed = s.ctxs[cid].needed;
    if names_slot(needed, needed.len() as int, slot) {
        let j = choose|j: int| 0 <= j < needed.len() && needed[j] == slot;
        assert(s.at_front(needed[j] as int, cid));
    }
}

/// When a command leaves, whoever is next in line at one of its latches is woken up, and holds
/// that latch.
pub proof fn law_finished_wakes_next<C, B>(s: SchedulerView<C, B>, cid: u64, slot: int)
    requires
        s.inv(),
        s.ready(cid),
        names_slot(s.ctxs[cid].needed, s.ctxs[cid].needed.len() as int, slot),
        s.queues[slot].len() > 1,
    ensures
        s.finished(cid).wakeups.contains(s.queues[slot][1]),
        s.finished(cid).at_front(slot, s.queues[slot][1]),
{
    assert(s.ctx_ok(cid));
    let needed = s.ctxs[cid].needed;
    let t = s.finished(cid);
    let next = s.queues[slot][1];
    let j = choose|j: int| 0 <= j < needed.len() && needed[j] == slot;
    assert(s.at_front(needed[j] as int, cid));
    lemma_next_in_line(s.queues, needed);
    let seconds = next_in_line(s.queues, needed);
    assert(s.queues[needed[j] as int][1] == next);
    assert(seconds.contains(next));
    let i = choose|i: int| 0 <= i < seconds.len() && seconds[i] == next;
    let back = seconds.reverse();
    assert(back[seconds.len() - 1 - i] == next);
    assert(t.wakeups[s.wakeups.len() + (seconds.len() - 1 - i)] == next);
}

/// Ids are new: no running command has the id of a command that is received, or a greater one, so
/// that receiving it leaves every running command as it is.
pub proof fn law_ids_new<C, B>(s: SchedulerView<C, B>, cmd: Command<C, B>, cid: u64)
    requires
        s.inv(),
        s.can_receive(cmd),
        s.ctxs.contains_key(cid),
    ensures
        cid < s.received(cmd).id_alloc,
        s.received(cmd).ctxs.contains_key(s.received(cmd).id_alloc),
        s.received(cmd).ctxs.contains_key(cid),
        s.received(cmd).ctxs[cid] == s.ctxs[cid],
{
    assert(s.ctx_ok(cid));
}

/// A command that only reads holds every latch that it needs at once, and changes no queue.
pub proof fn law_reads_do_not_wait<C, B>(s: SchedulerView<C, B>, cmd: Command<C, B>)
    requires
        s.inv(),
        s.can_receive(cmd),
        cmd.spec_readonly(),
    ensures
        s.received(cmd).ready(s.received(cmd).id_alloc),
        s.received(cmd).queues == s.queues,
{
}

/// A command whose latches are all free holds them at once.
pub proof fn law_uncontended_runs<C, B>(s: SchedulerView<C, B>, cmd: Command<C, B>)
    requires
        s.inv(),
        s.can_receive(cmd),
        forall|j: int|
            0 <= j < needed_slots(cmd, s.queues.len() as int).len() ==> s.queues[
            #[trigger] needed_slots(cmd, s.queues.len() as int)[j] as int].len() == 0,
    ensures
        s.received(cmd).ready(s.received(cmd).id_alloc),
{
    if !cmd.spec_readonly() {
        let cid = (s.id_alloc + 1) as u64;
        let needed = needed_slots(cmd, s.queues.len() as int);
        assert(needed.skip(0) =~= needed);
        lemma_leading_free_is(s.queues, needed, cid, needed.len() as int);
    }
}

/// What one command does leaves every other command as it is.
pub proof fn law_others_untouched<C, B>(s: SchedulerView<C, B>, cid: u64, other: u64)
    requires
        s.ctxs.contains_key(other),
        other != cid,
    ensures
        s.acquired(cid).ctxs.contains_key(other) && s.acquired(cid).ctxs[other] == s.ctxs[other],
        s.callback_taken(cid).ctxs.contains_key(other) && s.callback_taken(cid).ctxs[other]
            == s.ctxs[other],
        s.finished(cid).ctxs.contains_key(other) && s.finished(cid).ctxs[other] == s.ctxs[other],
{
}

/// A command is answered once: when its callback has been taken it is no longer unanswered, and
/// when it has left it is no longer running.
pub proof fn law_answered_once<C, B>(s: SchedulerView<C, B>, cid: u64)
    requires
        s.unanswered(cid),
    ensures
        !s.callback_taken(cid).unanswered(cid),
        !s.finished(cid).ctxs.contains_key(cid),
        s.callback_taken(cid).finished(cid) == s.finished(cid),
{
    assert(s.callback_taken(cid).finished(cid).ctxs =~= s.finished(cid).ctxs);
}

/// A command keeps its callback, and so stays to be answered, while it takes latches and while
/// other commands take theirs, are answered or leave.
pub proof fn law_unanswered_until_answered<C, B>(s: SchedulerView<C, B>, cid: u64, other: u64)
    requires
        s.unanswered(cid),
    ensures
        s.acquired(other).unanswered(cid),
        other != cid ==> s.callback_taken(other).unanswered(cid),
        other != cid ==> s.finished(other).unanswered(cid),
{
}

/// A prewrite reports one result for each of its mutations.
pub proof fn law_result_per_mutation<C, B>(
    cmd: Command<C, B>,
    outcomes: Seq<OpOutcome>,
    pr: ProcessResult,
)
    requires
        cmd is Prewrite,
        outcomes.len() == op_count(cmd),
        is_process_result(pr, cmd, outcomes),
    ensures
        pr is ResultSet,
        pr->result@.len() == cmd->mutations@.len(),
{
}

} // verus!
