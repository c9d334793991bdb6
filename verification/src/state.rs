//! The state of the scheduler as the contracts see it, what every step keeps true of it, and what
//! follows.

use crate::command::Command;
use crate::latch::{
    after_acquire, after_release, ascending, leading_free, lemma_after_acquire_slot,
    lemma_after_acquire_who, lemma_after_release_slot, lemma_next_in_line,
    lemma_next_in_line_distinct, lemma_slots_of, names_slot, next_in_line,
    slots_of,
};
use vstd::prelude::*;

verus! {

/// A command that the scheduler runs.
pub ghost struct CtxView<C, B> {
    /// The command.
    pub cmd: Command<C, B>,
    /// The slots of the latches that it needs, ascending.
    pub needed: Seq<usize>,
    /// How many of them it holds, from the first on.
    pub owned: int,
}

impl<C, B> CtxView<C, B> {
    /// Whether the command holds every latch that it needs.
    pub open spec fn all_acquired(self) -> bool {
        self.owned == self.needed.len()
    }

    /// Whether `slot` is one that the command holds, or the next that it needs.
    pub open spec fn reaches(self, slot: int) -> bool {
        exists|j: int|
            0 <= j < self.needed.len() && j <= self.owned && #[trigger] self.needed[j] == slot
    }
}

/// The state of the scheduler.
pub ghost struct SchedulerView<C, B> {
    /// The running commands, by id.
    pub ctxs: Map<u64, CtxView<C, B>>,
    /// The last id that was given out.
    pub id_alloc: u64,
    /// The queue of each latch slot, its holder first.
    pub queues: Seq<Seq<u64>>,
    /// The commands that became the holder of a latch they wait for, and have not been woken up
    /// yet: the next to be woken up last.
    pub wakeups: Seq<u64>,
}

/// The slots that a command needs in a table of `size` latches.
pub open spec fn needed_slots<C, B>(cmd: Command<C, B>, size: int) -> Seq<usize> {
    if cmd.spec_readonly() {
        Seq::empty()
    } else {
        slots_of(cmd.written_keys(), size)
    }
}

impl<C, B> SchedulerView<C, B> {
    /// The state before any command has been received.
    pub open spec fn initial(concurrency: nat) -> SchedulerView<C, B> {
        SchedulerView {
            ctxs: Map::empty(),
            id_alloc: 0,
            queues: Seq::new(concurrency, |s: int| Seq::<u64>::empty()),
            wakeups: Seq::empty(),
        }
    }

    /// Whether `cid` is running and holds every latch that it needs.
    pub open spec fn ready(self, cid: u64) -> bool {
        self.ctxs.contains_key(cid) && self.ctxs[cid].all_acquired()
    }

    /// Whether `cid` is running and lacks a latch.
    pub open spec fn blocked(self, cid: u64) -> bool {
        self.ctxs.contains_key(cid) && !self.ctxs[cid].all_acquired()
    }

    /// The slot of the first latch that `cid` lacks.
    pub open spec fn next_slot(self, cid: u64) -> int {
        self.ctxs[cid].needed[self.ctxs[cid].owned] as int
    }

    /// Whether `cid` holds the latch of `slot`.
    pub open spec fn at_front(self, slot: int, cid: u64) -> bool {
        0 <= slot < self.queues.len() && self.queues[slot].len() > 0 && self.queues[slot][0] == cid
    }

    /// Whether `cid` is blocked at a latch that has meanwhile become its own.
    pub open spec fn woken(self, cid: u64) -> bool {
        self.blocked(cid) && self.at_front(self.next_slot(cid), cid)
    }

    /// Whether `cid` is running and has not been answered.
    pub open spec fn unanswered(self, cid: u64) -> bool {
        self.ctxs.contains_key(cid) && self.ctxs[cid].cmd.spec_callback() is Some
    }

    /// Whether a command can be received: there is an id left, and a latch for each key.
    pub open spec fn can_receive(self, cmd: Command<C, B>) -> bool {
        self.id_alloc < u64::MAX && (self.queues.len() > 0 || cmd.written_keys().len() == 0)
    }

    /// A new command, which holds no latch yet.
    pub open spec fn saved(self, cmd: Command<C, B>) -> SchedulerView<C, B> {
        let cid = (self.id_alloc + 1) as u64;
        SchedulerView {
            id_alloc: cid,
            ctxs: self.ctxs.insert(
                cid,
                CtxView { cmd, needed: needed_slots(cmd, self.queues.len() as int), owned: 0 },
            ),
            ..self
        }
    }

    /// `cid` takes the latches that it lacks, up to the first that another command holds.
    pub open spec fn acquired(self, cid: u64) -> SchedulerView<C, B> {
        let ctx = self.ctxs[cid];
        let rest = ctx.needed.skip(ctx.owned);
        SchedulerView {
            ctxs: self.ctxs.insert(
                cid,
                CtxView { owned: ctx.owned + leading_free(self.queues, rest, cid), ..ctx },
            ),
            queues: after_acquire(self.queues, rest, cid),
            ..self
        }
    }

    /// A new command takes its latches.
    pub open spec fn received(self, cmd: Command<C, B>) -> SchedulerView<C, B> {
        if cmd.spec_readonly() {
            self.saved(cmd)
        } else {
            self.saved(cmd).acquired((self.id_alloc + 1) as u64)
        }
    }

    /// The callback of `cid` has been taken.
    pub open spec fn callback_taken(self, cid: u64) -> SchedulerView<C, B> {
        let ctx = self.ctxs[cid];
        SchedulerView {
            ctxs: self.ctxs.insert(cid, CtxView { cmd: ctx.cmd.without_callback(), ..ctx }),
            ..self
        }
    }

    /// `cid` has left, and its latches have gone to the next in line, who are to be woken up, the
    /// one with the lowest slot first.
    pub open spec fn finished(self, cid: u64) -> SchedulerView<C, B> {
        let needed = self.ctxs[cid].needed;
        SchedulerView {
            ctxs: self.ctxs.remove(cid),
            queues: after_release(self.queues, needed),
            wakeups: self.wakeups + next_in_line(self.queues, needed).reverse(),
            ..self
        }
    }

    /// The next command to be woken up takes the latches that it lacks.
    pub open spec fn woken_up(self) -> SchedulerView<C, B> {
        SchedulerView { wakeups: self.wakeups.drop_last(), ..self }.acquired(self.wakeups.last())
    }

    /// Commands are woken up, one after the other, until one of them holds every latch that it
    /// needs: the state then, and that command.
    pub open spec fn woken_up_to_ready(self) -> (SchedulerView<C, B>, Option<u64>)
        decreases self.wakeups.len(),
    {
        if self.wakeups.len() == 0 {
            (self, None)
        } else if self.woken_up().ready(self.wakeups.last()) {
            (self.woken_up(), Some(self.wakeups.last()))
        } else {
            self.woken_up().woken_up_to_ready()
        }
    }

    /// Everybody who is to be woken up has been.
    pub open spec fn drained(self) -> SchedulerView<C, B>
        decreases self.wakeups.len(),
    {
        if self.wakeups.len() == 0 {
            self
        } else {
            self.woken_up().drained()
        }
    }

    /// What holds of every running command taken alone.
    pub open spec fn ctx_ok(self, cid: u64) -> bool {
        let ctx = self.ctxs[cid];
        &&& 0 < cid <= self.id_alloc
        &&& 0 <= ctx.owned <= ctx.needed.len()
        &&& ascending(ctx.needed)
        &&& forall|j: int|
            0 <= j < ctx.needed.len() ==> (#[trigger] ctx.needed[j]) < self.queues.len()
        &&& forall|j: int|
            0 <= j < ctx.owned ==> self.at_front(#[trigger] ctx.needed[j] as int, cid)
        &&& ctx.needed == needed_slots(ctx.cmd, self.queues.len() as int)
        &&& self.queues.len() > 0 || ctx.cmd.written_keys().len() == 0
    }

    /// What every step keeps, but for the place in line and the wake-up of the command `but`.
    pub open spec fn inv_except(self, but: Option<u64>) -> bool {
        &&& self.queues.len() <= usize::MAX
        &&& forall|s: int|
            0 <= s < self.queues.len() ==> (#[trigger] self.queues[s]).no_duplicates()
        &&& forall|c: u64| #[trigger] self.ctxs.contains_key(c) ==> self.ctx_ok(c)
        &&& forall|s: int, c: u64|
            0 <= s < self.queues.len() && #[trigger] self.queues[s].contains(c)
                ==> self.ctxs.contains_key(c) && self.ctxs[c].reaches(s)
        &&& forall|c: u64|
            #[trigger] self.blocked(c) && but != Some(c) ==> self.queues[self.next_slot(
                c,
            )].contains(c)
        &&& self.wakeups.no_duplicates()
        &&& forall|c: u64|
            but != Some(c) ==> (#[trigger] self.wakeups.contains(c) <==> self.woken(c))
    }

    /// What every step keeps, but that `cid` may lack its place in line, and is not to be woken up.
    pub open spec fn inv_but(self, cid: u64) -> bool {
        self.inv_except(Some(cid)) && !self.wakeups.contains(cid)
    }

    /// What every step keeps: a command that holds a latch is at the front of its queue; one that
    /// lacks a latch is queued for the first it lacks, and for no other; nobody else is queued
    /// anywhere; and those to be woken up are those who have come to the front of the queue they
    /// wait in.
    pub open spec fn inv(self) -> bool {
        self.inv_except(None)
    }
}

/// The initial state keeps the invariant.
pub proof fn lemma_initial_inv<C, B>(concurrency: nat)
    requires
        concurrency <= usize::MAX,
    ensures
        SchedulerView::<C, B>::initial(concurrency).inv(),
{
}

/// Acquiring latches restores the invariant.
pub proof fn lemma_acquired_inv<C, B>(s: SchedulerView<C, B>, cid: u64)
    requires
        s.inv_but(cid),
        s.ctxs.contains_key(cid),
    ensures
        s.acquired(cid).inv(),
{
    let ctx = s.ctxs[cid];
    let rest = ctx.needed.skip(ctx.owned);
    let n = leading_free(s.queues, rest, cid) as int;
    let t = s.acquired(cid);
    let new_ctx = t.ctxs[cid];
    assert(s.ctx_ok(cid));
    assert forall|j: int| 0 <= j < rest.len() implies (#[trigger] rest[j]) < s.queues.len() by {
        assert(rest[j] == ctx.needed[ctx.owned + j]);
    }
    lemma_after_acquire_who(s.queues, rest, cid);
    assert forall|i: int| 0 <= i < t.queues.len() implies (
    #[trigger] t.queues[i]).no_duplicates() by {
        lemma_after_acquire_slot(s.queues, rest, cid, i);
    }
    assert forall|c: u64| #[trigger] t.ctxs.contains_key(c) implies t.ctx_ok(c) by {
        assert(s.ctxs.contains_key(c));
        assert(s.ctx_ok(c));
        let of = t.ctxs[c];
        assert forall|j: int| 0 <= j < of.owned implies t.at_front(
            #[trigger] of.needed[j] as int,
            c,
        ) by {
            let slot = of.needed[j] as int;
            if j < s.ctxs[c].owned {
                assert(s.at_front(s.ctxs[c].needed[j] as int, c));
                lemma_after_acquire_slot(s.queues, rest, cid, slot);
            } else {
                assert(rest[j - ctx.owned] == slot);
            }
        }
    }
    assert forall|i: int, c: u64| 0 <= i < t.queues.len() && #[trigger] t.queues[i].contains(
        c,
    ) implies t.ctxs.contains_key(c) && t.ctxs[c].reaches(i) by {
        lemma_after_acquire_slot(s.queues, rest, cid, i);
        if s.queues[i].contains(c) {
            let j = choose|j: int|
                0 <= j < s.ctxs[c].needed.len() && j <= s.ctxs[c].owned
                    && #[trigger] s.ctxs[c].needed[j] == i;
            assert(t.ctxs[c].needed[j] == i);
        } else {
            let j = choose|j: int| 0 <= j < rest.len() && j <= n && #[trigger] rest[j] == i;
            assert(new_ctx.needed[ctx.owned + j] == i);
        }
    }
    assert forall|c: u64| #[trigger] t.blocked(c) implies t.queues[t.next_slot(c)].contains(c) by {
        if c == cid {
            assert(rest[n] == t.next_slot(c));
        } else {
            assert(s.blocked(c));
            assert(s.ctx_ok(c));
            lemma_after_acquire_slot(s.queues, rest, cid, s.next_slot(c));
        }
    }
    assert forall|c: u64| (#[trigger] t.wakeups.contains(c) <==> t.woken(c)) by {
        if c == cid {
            if t.blocked(c) {
                assert(rest[n] == t.next_slot(c));
            }
        } else {
            assert(s.wakeups.contains(c) <==> s.woken(c));
            assert(s.blocked(c) <==> t.blocked(c));
            if s.blocked(c) {
                assert(s.ctx_ok(c));
                let slot = s.next_slot(c);
                lemma_after_acquire_slot(s.queues, rest, cid, slot);
                assert(s.queues[slot].contains(c));
                assert(s.queues[slot].len() > 0);
            }
        }
    }
}

/// A command that leaves with all its latches keeps the invariant.
pub proof fn lemma_finished_inv<C, B>(s: SchedulerView<C, B>, cid: u64)
    requires
        s.inv(),
        s.ready(cid),
    ensures
        s.finished(cid).inv(),
{
    let needed = s.ctxs[cid].needed;
    let t = s.finished(cid);
    assert(s.ctx_ok(cid));
    let seconds = next_in_line(s.queues, needed);
    lemma_next_in_line(s.queues, needed);
    assert forall|i: int| 0 <= i < s.queues.len() && names_slot(
        needed,
        needed.len() as int,
        i,
    ) implies #[trigger] s.at_front(i, cid) by {
        let j = choose|j: int| 0 <= j < needed.len() && needed[j] == i;
        assert(s.at_front(needed[j] as int, cid));
    }
    assert forall|i: int| 0 <= i < s.queues.len() implies {
        &&& (#[trigger] t.queues[i]).no_duplicates()
        &&& forall|c: u64| #[trigger]
            t.queues[i].contains(c) ==> s.queues[i].contains(c) && c != cid
        &&& forall|c: u64| c != cid && #[trigger] s.queues[i].contains(c) ==> t.queues[i].contains(c)
    } by {
        assert(s.queues[i].no_duplicates());
        assert(names_slot(needed, needed.len() as int, i) ==> s.at_front(i, cid));
        lemma_after_release_slot(s.queues, needed, i);
        assert forall|c: u64| #[trigger] t.queues[i].contains(c) implies s.queues[i].contains(c)
            && c != cid by {
            if c == cid {
                assert(s.queues[i].contains(cid));
                let j = choose|j: int|
                    0 <= j < needed.len() && j <= s.ctxs[cid].owned && #[trigger] needed[j] == i;
                assert(names_slot(needed, needed.len() as int, i));
            }
        }
    }
    // A command at the front of a queue before is still there, and the seconds of the released
    // queues come to the front.
    assert forall|c: u64| #[trigger] t.ctxs.contains_key(c) implies t.ctx_ok(c) by {
        assert(s.ctx_ok(c));
        let of = s.ctxs[c];
        assert forall|j: int| 0 <= j < of.owned implies t.at_front(
            #[trigger] of.needed[j] as int,
            c,
        ) by {
            assert(s.at_front(of.needed[j] as int, c));
        }
    }
    assert forall|i: int, c: u64| 0 <= i < t.queues.len() && #[trigger] t.queues[i].contains(
        c,
    ) implies t.ctxs.contains_key(c) && t.ctxs[c].reaches(i) by {
        assert(s.queues[i].contains(c) && c != cid);
    }
    assert forall|c: u64| #[trigger] t.blocked(c) implies t.queues[t.next_slot(c)].contains(c) by {
        assert(s.blocked(c));
        assert(s.ctx_ok(c));
    }
    // Whoever is second behind `cid` waits in that queue, and so in no other.
    assert forall|j: int| 0 <= j < needed.len() && s.queues[#[trigger] needed[j] as int].len()
        > 1 implies {
        let c = s.queues[needed[j] as int][1];
        s.blocked(c) && c != cid && s.next_slot(c) == needed[j]
    } by {
        let slot = needed[j] as int;
        let c = s.queues[slot][1];
        assert(s.at_front(slot, cid));
        assert(s.queues[slot].no_duplicates());
        assert(s.queues[slot].contains(c));
        let k = choose|k: int|
            0 <= k < s.ctxs[c].needed.len() && k <= s.ctxs[c].owned
                && #[trigger] s.ctxs[c].needed[k] == slot;
        assert(s.ctx_ok(c));
        if k < s.ctxs[c].owned {
            assert(s.at_front(s.ctxs[c].needed[k] as int, c));
        }
    }
    assert(seconds.no_duplicates()) by {
        assert forall|i: int, j: int|
            0 <= i < j < needed.len() && s.queues[#[trigger] needed[i] as int].len() > 1
                && s.queues[#[trigger] needed[j] as int].len() > 1 implies s.queues[needed[i] as int][1]
            != s.queues[needed[j] as int][1] by {
            assert(needed[i] < needed[j]);
        }
        lemma_next_in_line_distinct(s.queues, needed);
    }
    assert forall|c: u64| #[trigger] seconds.contains(c) <==> t.woken(c) && !s.woken(c) by {
        if seconds.contains(c) {
            let j = choose|j: int|
                0 <= j < needed.len() && s.queues[#[trigger] needed[j] as int].len() > 1
                    && s.queues[needed[j] as int][1] == c;
            assert(s.at_front(needed[j] as int, cid));
            assert(names_slot(needed, needed.len() as int, needed[j] as int));
            assert(t.at_front(needed[j] as int, c));
        }
        if t.woken(c) && !s.woken(c) {
            let slot = t.next_slot(c);
            assert(s.blocked(c));
            assert(s.ctx_ok(c));
            assert(t.queues[slot] != s.queues[slot]);
            let j = choose|j: int| 0 <= j < needed.len() && needed[j] == slot;
            assert(s.queues[needed[j] as int][1] == c);
        }
    }
    assert forall|c: u64| #[trigger] s.wakeups.contains(c) implies t.woken(c) by {
        assert(s.woken(c));
        assert(s.ctx_ok(c));
        let slot = s.next_slot(c);
        assert(c != cid);
        assert(!names_slot(needed, needed.len() as int, slot)) by {
            if names_slot(needed, needed.len() as int, slot) {
                assert(s.at_front(slot, cid));
            }
        }
    }
    let back = seconds.reverse();
    assert forall|c: u64| #[trigger] back.contains(c) <==> seconds.contains(c) by {
        if back.contains(c) {
            let i = choose|i: int| 0 <= i < back.len() && back[i] == c;
            assert(seconds[seconds.len() - 1 - i] == c);
        }
        if seconds.contains(c) {
            let i = choose|i: int| 0 <= i < seconds.len() && seconds[i] == c;
            assert(back[seconds.len() - 1 - i] == c);
        }
    }
    assert forall|c: u64| (#[trigger] t.wakeups.contains(c) <==> t.woken(c)) by {
        if t.wakeups.contains(c) {
            let i = choose|i: int| 0 <= i < t.wakeups.len() && t.wakeups[i] == c;
            if i < s.wakeups.len() {
                assert(s.wakeups[i] == c);
                assert(s.wakeups.contains(c));
            } else {
                assert(back[i - s.wakeups.len()] == c);
                assert(back.contains(c));
                assert(seconds.contains(c));
            }
        }
        if t.woken(c) {
            if s.woken(c) {
                assert(s.wakeups.contains(c));
                let i = choose|i: int| 0 <= i < s.wakeups.len() && s.wakeups[i] == c;
                assert(t.wakeups[i] == c);
            } else {
                assert(seconds.contains(c));
                assert(back.contains(c));
                let i = choose|i: int| 0 <= i < back.len() && back[i] == c;
                assert(t.wakeups[s.wakeups.len() + i] == c);
            }
        }
    }
    assert(t.wakeups.no_duplicates()) by {
        assert forall|i: int, j: int|
            0 <= i < t.wakeups.len() && 0 <= j < t.wakeups.len() && i != j implies t.wakeups[i]
            != t.wakeups[j] by {
            let m = s.wakeups.len();
            if i < m && j < m {
                assert(s.wakeups[i] != s.wakeups[j]);
            } else if i >= m && j >= m {
                assert(back[i - m] == seconds[seconds.len() - 1 - (i - m)]);
                assert(back[j - m] == seconds[seconds.len() - 1 - (j - m)]);
            } else {
                let (a, b) = if i < m { (i, j) } else { (j, i) };
                assert(s.wakeups.contains(s.wakeups[a]));
                assert(back.contains(back[b - m]));
                assert(seconds.contains(back[b - m]));
            }
        }
    }
}

/// A new command keeps the invariant, but for its place in line.
proof fn lemma_saved_inv<C, B>(s: SchedulerView<C, B>, cmd: Command<C, B>)
    requires
        s.inv(),
        s.can_receive(cmd),
    ensures
        s.saved(cmd).inv_but((s.id_alloc + 1) as u64),
{
    let cid = (s.id_alloc + 1) as u64;
    let t = s.saved(cmd);
    let size = s.queues.len() as int;
    if !cmd.spec_readonly() {
        lemma_slots_of(cmd.written_keys(), size);
    }
    assert(!s.ctxs.contains_key(cid)) by {
        if s.ctxs.contains_key(cid) {
            assert(s.ctx_ok(cid));
        }
    }
    assert forall|c: u64| #[trigger] t.ctxs.contains_key(c) implies t.ctx_ok(c) by {
        if c != cid {
            assert(s.ctx_ok(c));
            assert forall|j: int| 0 <= j < t.ctxs[c].owned implies t.at_front(
                #[trigger] t.ctxs[c].needed[j] as int,
                c,
            ) by {
                assert(s.at_front(s.ctxs[c].needed[j] as int, c));
            }
        }
    }
    assert forall|c: u64| #[trigger] t.blocked(c) && c != cid implies t.queues[t.next_slot(
        c,
    )].contains(c) by {
        assert(s.blocked(c));
    }
    assert forall|c: u64| c != cid implies (#[trigger] t.wakeups.contains(c) <==> t.woken(c)) by {
        assert(s.wakeups.contains(c) <==> s.woken(c));
    }
    assert(!t.wakeups.contains(cid)) by {
        assert(s.wakeups.contains(cid) <==> s.woken(cid));
    }
}

/// Receiving a command keeps the invariant.
pub proof fn lemma_received_inv<C, B>(s: SchedulerView<C, B>, cmd: Command<C, B>)
    requires
        s.inv(),
        s.can_receive(cmd),
    ensures
        s.received(cmd).inv(),
{
    let cid = (s.id_alloc + 1) as u64;
    let t = s.saved(cmd);
    lemma_saved_inv(s, cmd);
    if cmd.spec_readonly() {
        assert forall|c: u64| #[trigger] t.blocked(c) implies t.queues[t.next_slot(c)].contains(
            c,
        ) by {
            assert(c != cid);
        }
        assert forall|c: u64| (#[trigger] t.wakeups.contains(c) <==> t.woken(c)) by {
            if c == cid {
                assert(!t.blocked(c));
            }
        }
    } else {
        lemma_acquired_inv(t, cid);
    }
}

/// Taking a callback keeps the invariant.
pub proof fn lemma_callback_taken_inv<C, B>(s: SchedulerView<C, B>, cid: u64)
    requires
        s.inv(),
        s.ctxs.contains_key(cid),
    ensures
        s.callback_taken(cid).inv(),
{
    let t = s.callback_taken(cid);
    assert forall|c: u64| #[trigger] t.ctxs.contains_key(c) implies t.ctx_ok(c) by {
        assert(s.ctx_ok(c));
        assert(t.ctxs[c].cmd.written_keys() == s.ctxs[c].cmd.written_keys());
        assert forall|j: int| 0 <= j < t.ctxs[c].owned implies t.at_front(
            #[trigger] t.ctxs[c].needed[j] as int,
            c,
        ) by {
            assert(s.at_front(s.ctxs[c].needed[j] as int, c));
        }
    }
    assert forall|i: int, c: u64| 0 <= i < t.queues.len() && #[trigger] t.queues[i].contains(
        c,
    ) implies t.ctxs.contains_key(c) && t.ctxs[c].reaches(i) by {
        assert(s.queues[i].contains(c));
        let j = choose|j: int|
            0 <= j < s.ctxs[c].needed.len() && j <= s.ctxs[c].owned
                && #[trigger] s.ctxs[c].needed[j] == i;
        assert(t.ctxs[c].needed[j] == i);
    }
    assert forall|c: u64| #[trigger] t.blocked(c) implies t.queues[t.next_slot(c)].contains(c) by {
        assert(s.blocked(c));
    }
    assert forall|c: u64| (#[trigger] t.wakeups.contains(c) <==> t.woken(c)) by {
        assert(s.wakeups.contains(c) <==> s.woken(c));
    }
}

/// Waking a command up keeps the invariant.
pub proof fn lemma_woken_up_inv<C, B>(s: SchedulerView<C, B>)
    requires
        s.inv(),
        s.wakeups.len() > 0,
    ensures
        s.woken_up().inv(),
{
    let cid = s.wakeups.last();
    let t = SchedulerView { wakeups: s.wakeups.drop_last(), ..s };
    assert(s.wakeups.contains(cid));
    assert(s.woken(cid));
    assert forall|c: u64| c != cid implies (#[trigger] t.wakeups.contains(c) <==> t.woken(c)) by {
        assert(s.wakeups.contains(c) <==> s.woken(c));
        if s.wakeups.contains(c) {
            let i = choose|i: int| 0 <= i < s.wakeups.len() && s.wakeups[i] == c;
            assert(t.wakeups[i] == c);
        }
        if t.wakeups.contains(c) {
            let i = choose|i: int| 0 <= i < t.wakeups.len() && t.wakeups[i] == c;
            assert(s.wakeups[i] == c);
        }
    }
    assert forall|c: u64| #[trigger] t.ctxs.contains_key(c) implies t.ctx_ok(c) by {
        assert(s.ctx_ok(c));
        assert forall|j: int| 0 <= j < t.ctxs[c].owned implies t.at_front(
            #[trigger] t.ctxs[c].needed[j] as int,
            c,
        ) by {
            assert(s.at_front(s.ctxs[c].needed[j] as int, c));
        }
    }
    assert forall|c: u64| #[trigger] t.blocked(c) && c != cid implies t.queues[t.next_slot(
        c,
    )].contains(c) by {
        assert(s.blocked(c));
    }
    lemma_acquired_inv(t, cid);
}

} // verus!
