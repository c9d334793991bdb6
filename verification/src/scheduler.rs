//! The scheduler: which command runs, which waits for whom, and what each is answered.
//!
//! The scheduler takes in one message at a time and says what is to be done next. Whoever drives
//! it asks the engine for snapshots and writes, gives the answers to the callbacks, and after each
//! message wakes commands up until there is nobody left to be woken up.

use crate::command::Command;
use crate::error::{EngineError, Error, TxnError};
use crate::key::Key;
use crate::latch::{after_release, lemma_leading_free, lemma_slots_of, next_in_line, Latches};
use crate::message::{Action, Msg, Report, Tick};
use crate::process::{
    check_outcome, check_result, ends_with_error, fail_reply, failed_reply, is_read_reply,
    is_stored_reply, is_task, outcome_error, outcome_fits, read_reply, result_fits, stored_reply,
    task_of, Answer, ProcessResult, SnapshotTask, TaskOutcome,
};
use crate::state::{
    lemma_callback_taken_inv, lemma_finished_inv, lemma_initial_inv, lemma_received_inv,
    lemma_woken_up_inv, needed_slots, CtxView, SchedulerView,
};
use std::collections::HashMap;
use vstd::prelude::*;
use vstd::slice::slice_subrange;

verus! {

broadcast use vstd::std_specs::hash::group_hash_axioms;

/// The time between two reports, in milliseconds.
pub const REPORT_STATISTIC_INTERVAL: u64 = 60000;

/// A running command.
pub struct RunningCtx<C, B> {
    /// Its id.
    pub cid: u64,
    /// The command.
    pub cmd: Command<C, B>,
    /// The slots of the latches that it needs, ascending.
    pub needed_latches: Vec<usize>,
    /// How many of the latches that it needs it holds.
    pub owned_latches_count: usize,
}

impl<C, B> RunningCtx<C, B> {
    /// The command with its latches.
    pub open spec fn view(&self) -> CtxView<C, B> {
        CtxView {
            cmd: self.cmd,
            needed: self.needed_latches@,
            owned: self.owned_latches_count as int,
        }
    }

    /// A command that holds no latch yet.
    pub fn new(cid: u64, cmd: Command<C, B>, needed_latches: Vec<usize>) -> (ctx: RunningCtx<C, B>)
        ensures
            ctx.cid == cid,
            ctx@ == (CtxView { cmd, needed: needed_latches@, owned: 0 }),
    {
        RunningCtx { cid, cmd, needed_latches, owned_latches_count: 0 }
    }

    /// The slots of the latches that the command needs.
    pub fn needed_latches(&self) -> (slots: &Vec<usize>)
        ensures
            slots@ == self@.needed,
    {
        &self.needed_latches
    }

    /// Whether the command holds every latch that it needs.
    pub fn all_latches_acquired(&self) -> (yes: bool)
        ensures
            yes == self@.all_acquired(),
    {
        self.needed_latches.len() == self.owned_latches_count
    }
}

/// The scheduler.
pub struct Scheduler<C, B> {
    cmd_ctxs: HashMap<u64, RunningCtx<C, B>>,
    id_alloc: u64,
    latches: Latches,
    wakeups: Vec<u64>,
}

impl<C, B> Scheduler<C, B> {
    /// The state.
    pub closed spec fn view(&self) -> SchedulerView<C, B> {
        SchedulerView {
            ctxs: self.cmd_ctxs@.map_values(|ctx: RunningCtx<C, B>| ctx@),
            id_alloc: self.id_alloc,
            queues: self.latches@,
            wakeups: self.wakeups@,
        }
    }

    /// The parts fit together: the latches are well formed, and every running command is entered
    /// under its own id.
    pub closed spec fn parts_ok(&self) -> bool {
        &&& self.latches.wf()
        &&& forall|cid: u64| #[trigger]
            self.cmd_ctxs@.contains_key(cid) ==> self.cmd_ctxs@[cid].cid == cid
    }

    /// The parts fit together, and the state is as every step keeps it.
    pub open spec fn wf(&self) -> bool {
        &&& self.parts_ok()
        &&& self@.inv()
    }

    /// A scheduler with no command and `concurrency` latches.
    pub fn new(concurrency: usize) -> (scheduler: Scheduler<C, B>)
        ensures
            scheduler.wf(),
            scheduler@ == SchedulerView::<C, B>::initial(concurrency as nat),
    {
        let scheduler = Scheduler {
            cmd_ctxs: HashMap::new(),
            id_alloc: 0,
            latches: Latches::new(concurrency),
            wakeups: Vec::new(),
        };
        proof {
            assert(scheduler@.ctxs =~= Map::empty());
            lemma_initial_inv::<C, B>(concurrency as nat);
        }
        scheduler
    }

    /// A new id.
    fn gen_id(&mut self) -> (cid: u64)
        requires
            old(self).id_alloc < u64::MAX,
            old(self).parts_ok(),
        ensures
            final(self).parts_ok(),
            cid == old(self)@.id_alloc + 1,
            final(self)@ == (SchedulerView { id_alloc: cid, ..old(self)@ }),
    {
        self.id_alloc += 1;
        self.id_alloc
    }

    /// Enters a new command.
    fn save_cmd_context(&mut self, cid: u64, ctx: RunningCtx<C, B>)
        requires
            old(self).parts_ok(),
            !old(self)@.ctxs.contains_key(cid),
            ctx.cid == cid,
        ensures
            final(self).parts_ok(),
            final(self)@ == (SchedulerView {
                ctxs: old(self)@.ctxs.insert(cid, ctx@),
                ..old(self)@
            }),
    {
        let _ = self.cmd_ctxs.insert(cid, ctx);
        assert(self@.ctxs =~= old(self)@.ctxs.insert(cid, ctx@));
    }

    /// The slots of the latches that a write command needs.
    pub fn calc_latches_indices(&self, cmd: &Command<C, B>) -> (indices: Vec<usize>)
        requires
            self.parts_ok(),
            !cmd.spec_readonly(),
            self@.queues.len() > 0 || cmd.written_keys().len() == 0,
        ensures
            indices@ == needed_slots(*cmd, self@.queues.len() as int),
    {
        let keys: Vec<&Key> = cmd.latch_keys();
        assert(keys@.map_values(|key: &Key| key@).len() == keys@.len());
        self.latches.calc_latches_indices(keys.as_slice())
    }

    /// Takes the latches that a command lacks, as far as it can; says whether it holds them all.
    fn acquire_latches(&mut self, cid: u64) -> (all_acquired: bool)
        requires
            old(self).parts_ok(),
            old(self)@.ctxs.contains_key(cid),
            0 <= old(self)@.ctxs[cid].owned <= old(self)@.ctxs[cid].needed.len(),
            forall|j: int|
                0 <= j < old(self)@.ctxs[cid].needed.len() ==> (
                #[trigger] old(self)@.ctxs[cid].needed[j]) < old(self)@.queues.len(),
        ensures
            final(self).parts_ok(),
            final(self)@ == old(self)@.acquired(cid),
            all_acquired == final(self)@.ready(cid),
    {
        let ghost before = self@;
        let mut ctx = self.cmd_ctxs.remove(&cid).unwrap();
        let ghost rest = before.ctxs[cid].needed.skip(before.ctxs[cid].owned);
        let wanted: &[usize] = slice_subrange(
            ctx.needed_latches.as_slice(),
            ctx.owned_latches_count,
            ctx.needed_latches.len(),
        );
        proof {
            assert(wanted@ =~= rest);
            assert forall|j: int| 0 <= j < rest.len() implies (#[trigger] rest[j])
                < before.queues.len() by {
                assert(rest[j] == before.ctxs[cid].needed[before.ctxs[cid].owned + j]);
            }
            lemma_leading_free(before.queues, rest, cid);
        }
        let new_acquired: usize = self.latches.acquire_by_indices(wanted, cid);
        ctx.owned_latches_count += new_acquired;
        let all_acquired = ctx.all_latches_acquired();
        let _ = self.cmd_ctxs.insert(cid, ctx);
        assert(self@.ctxs =~= before.acquired(cid).ctxs);
        all_acquired
    }

    /// Receives a command. A command that holds every latch it needs, as one that only reads does,
    /// goes on to get a snapshot: its id is returned. Any other is woken up by whoever holds the
    /// latch that it waits for.
    pub fn received_new_cmd(&mut self, cmd: Command<C, B>) -> (ready: Option<u64>)
        requires
            old(self).wf(),
            old(self)@.can_receive(cmd),
        ensures
            final(self).wf(),
            final(self)@ == old(self)@.received(cmd),
            ready == if final(self)@.ready((old(self)@.id_alloc + 1) as u64) {
                Some((old(self)@.id_alloc + 1) as u64)
            } else {
                None
            },
    {
        let ghost before = self@;
        proof {
            lemma_received_inv(before, cmd);
            assert(!before.ctxs.contains_key((before.id_alloc + 1) as u64)) by {
                if before.ctxs.contains_key((before.id_alloc + 1) as u64) {
                    assert(before.ctx_ok((before.id_alloc + 1) as u64));
                }
            }
        }
        let cid: u64 = self.gen_id();
        if cmd.readonly() {
            let needed: Vec<usize> = Vec::new();
            assert(needed@ =~= needed_slots(cmd, before.queues.len() as int));
            let ctx = RunningCtx::new(cid, cmd, needed);
            self.save_cmd_context(cid, ctx);
            assert(self@ == before.received(cmd));
            Some(cid)
        } else {
            let indices: Vec<usize> = self.calc_latches_indices(&cmd);
            let ctx = RunningCtx::new(cid, cmd, indices);
            self.save_cmd_context(cid, ctx);
            proof {
                assert(self@ == before.saved(cmd));
                lemma_slots_of(cmd.written_keys(), before.queues.len() as int);
            }
            if self.acquire_latches(cid) {
                Some(cid)
            } else {
                None
            }
        }
    }

    /// The context of a running command.
    pub fn extract_context(&self, cid: u64) -> (ctx: &C)
        requires
            self.wf(),
            self@.ctxs.contains_key(cid),
        ensures
            *ctx == self@.ctxs[cid].cmd.spec_context(),
    {
        self.running(cid).cmd.context()
    }

    /// A running command.
    fn running(&self, cid: u64) -> (ctx: &RunningCtx<C, B>)
        requires
            self.parts_ok(),
            self@.ctxs.contains_key(cid),
        ensures
            ctx@ == self@.ctxs[cid],
            ctx.cid == cid,
    {
        self.cmd_ctxs.get(&cid).unwrap()
    }

    /// Takes the callback of a running command.
    fn take_callback(&mut self, cid: u64) -> (callback: B)
        requires
            old(self).wf(),
            old(self)@.ctxs.contains_key(cid),
            old(self)@.ctxs[cid].cmd.spec_callback() is Some,
        ensures
            final(self).wf(),
            final(self)@ == old(self)@.callback_taken(cid),
            Some(callback) == old(self)@.ctxs[cid].cmd.spec_callback(),
    {
        let ghost before = self@;
        proof {
            lemma_callback_taken_inv(before, cid);
        }
        let mut ctx = self.cmd_ctxs.remove(&cid).unwrap();
        let callback = ctx.cmd.take_callback();
        let _ = self.cmd_ctxs.insert(cid, ctx);
        assert(self@.ctxs =~= before.callback_taken(cid).ctxs);
        callback.unwrap()
    }

    /// Answers a command that failed as a whole.
    pub fn process_failed_cmd(&mut self, cid: u64, err: TxnError) -> (answer: Answer<B>)
        requires
            old(self).wf(),
            old(self)@.unanswered(cid),
        ensures
            final(self).wf(),
            final(self)@ == old(self)@.callback_taken(cid),
            Some(answer.callback) == old(self)@.ctxs[cid].cmd.spec_callback(),
            answer.reply == failed_reply(old(self)@.ctxs[cid].cmd, Error::Txn(err)),
    {
        let reply = fail_reply(&self.running(cid).cmd, Error::from(err));
        let callback = self.take_callback(cid);
        Answer { callback, reply }
    }

    /// A command leaves: its latches go to the next in line, who are to be woken up.
    pub fn finish_cmd(&mut self, cid: u64)
        requires
            old(self).wf(),
            old(self)@.ready(cid),
        ensures
            final(self).wf(),
            final(self)@ == old(self)@.finished(cid),
    {
        let ghost before = self@;
        proof {
            lemma_finished_inv(before, cid);
            assert(before.ctx_ok(cid));
        }
        let ctx = self.cmd_ctxs.remove(&cid).unwrap();
        let ghost needed = before.ctxs[cid].needed;
        assert(self@.ctxs =~= before.ctxs.remove(cid));
        if ctx.needed_latches().is_empty() {
            proof {
                assert(next_in_line(before.queues, needed) =~= Seq::<u64>::empty());
                assert(after_release(before.queues, needed) =~= before.queues);
                assert(self@.wakeups =~= before.finished(cid).wakeups);
            }
            return;
        }
        proof {
            assert forall|j: int| 0 <= j < needed.len() implies (#[trigger] needed[j])
                < before.queues.len() && before.queues[needed[j] as int].len() > 0
                && before.queues[needed[j] as int][0] == cid by {
                assert(before.at_front(needed[j] as int, cid));
            }
        }
        let mut wakeup_list: Vec<u64> = self.latches.release_by_indices(
            ctx.needed_latches().as_slice(),
            cid,
        );
        let ghost list = wakeup_list@;
        while wakeup_list.len() > 0
            invariant
                wakeup_list@.len() <= list.len(),
                wakeup_list@ == list.take(wakeup_list@.len() as int),
                self.wakeups@ == before.wakeups + list.skip(
                    wakeup_list@.len() as int,
                ).reverse(),
                self.latches@ == after_release(before.queues, needed),
                self.latches.wf(),
                self@.ctxs == before.ctxs.remove(cid),
                self.id_alloc == before.id_alloc,
                forall|c: u64| #[trigger]
                    self.cmd_ctxs@.contains_key(c) ==> self.cmd_ctxs@[c].cid == c,
            decreases wakeup_list@.len(),
        {
            let ghost left = wakeup_list@.len() as int;
            let wcid: u64 = wakeup_list.pop().unwrap();
            self.wakeups.push(wcid);
            proof {
                assert(wakeup_list@ =~= list.take(left - 1));
                assert(list.skip(left - 1).reverse() =~= list.skip(left).reverse().push(wcid));
                assert(self.wakeups@ =~= before.wakeups + list.skip(left - 1).reverse());
            }
        }
        proof {
            assert(list.skip(0) =~= list);
        }
    }

    /// Answers a command that failed as a whole, and lets it leave.
    pub fn finish_with_err(&mut self, cid: u64, err: TxnError) -> (answer: Answer<B>)
        requires
            old(self).wf(),
            old(self)@.ready(cid),
            old(self)@.unanswered(cid),
        ensures
            final(self).wf(),
            final(self)@ == old(self)@.finished(cid),
            Some(answer.callback) == old(self)@.ctxs[cid].cmd.spec_callback(),
            answer.reply == failed_reply(old(self)@.ctxs[cid].cmd, Error::Txn(err)),
    {
        let answer = self.process_failed_cmd(cid, err);
        self.finish_cmd(cid);
        assert(self@.ctxs =~= old(self)@.finished(cid).ctxs);
        answer
    }

    /// Takes in what the engine said when it was asked for a snapshot for a command: if it refused,
    /// the command is answered and leaves.
    pub fn get_snapshot(&mut self, cid: u64, asked: Result<(), EngineError>) -> (answer: Option<
        Answer<B>,
    >)
        requires
            old(self).wf(),
            old(self)@.ctxs.contains_key(cid),
            asked is Err ==> old(self)@.ready(cid) && old(self)@.unanswered(cid),
        ensures
            final(self).wf(),
            match asked {
                Ok(()) => answer is None && final(self)@ == old(self)@,
                Err(err) => {
                    &&& answer is Some
                    &&& final(self)@ == old(self)@.finished(cid)
                    &&& Some(answer->Some_0.callback) == old(self)@.ctxs[cid].cmd.spec_callback()
                    &&& answer->Some_0.reply == failed_reply(
                        old(self)@.ctxs[cid].cmd,
                        Error::Txn(TxnError::Engine(err)),
                    )
                },
            },
    {
        match asked {
            Ok(()) => None,
            Err(err) => Some(self.finish_with_err(cid, TxnError::from(err))),
        }
    }

    /// The work that a command asks for on its snapshot.
    pub fn snapshot_task(&self, cid: u64) -> (task: SnapshotTask<'_, C, B>)
        requires
            self.wf(),
            self@.ctxs.contains_key(cid),
        ensures
            is_task(task, self@.ctxs[cid].cmd),
    {
        task_of(&self.running(cid).cmd)
    }

    /// Takes in what came of the work of a command on its snapshot: a read command is answered, a
    /// write command goes on to wait for its changes to be stored, unless an error ends it.
    pub fn process_cmd_with_snapshot(&mut self, cid: u64, outcome: TaskOutcome) -> (res: Result<
        Option<Answer<B>>,
        TxnError,
    >)
        requires
            old(self).wf(),
            old(self)@.ctxs.contains_key(cid),
            outcome_fits(old(self)@.ctxs[cid].cmd, outcome),
            old(self)@.ctxs[cid].cmd.spec_readonly() && outcome_error(outcome) is None
                ==> old(self)@.unanswered(cid),
        ensures
            final(self).wf(),
            match outcome_error(outcome) {
                Some(err) => {
                    &&& res == Err::<Option<Answer<B>>, TxnError>(err)
                    &&& final(self)@ == old(self)@
                },
                None => if old(self)@.ctxs[cid].cmd.spec_readonly() {
                    &&& res matches Ok(Some(answer))
                    &&& Some(answer.callback) == old(self)@.ctxs[cid].cmd.spec_callback()
                    &&& is_read_reply(answer.reply, outcome)
                    &&& final(self)@ == old(self)@.callback_taken(cid)
                } else {
                    &&& res == Ok::<Option<Answer<B>>, TxnError>(None)
                    &&& final(self)@ == old(self)@
                },
            },
    {
        match read_reply(&self.running(cid).cmd, outcome) {
            Ok(Some(reply)) => {
                let callback = self.take_callback(cid);
                Ok(Some(Answer { callback, reply }))
            },
            Ok(None) => Ok(None),
            Err(err) => Err(err),
        }
    }

    /// Whether a command goes on to wait for its changes to be stored: it writes, and its work on
    /// the snapshot succeeded.
    pub open spec fn goes_on(&self, cid: u64, snapshot: Result<TaskOutcome, EngineError>) -> bool {
        &&& snapshot matches Ok(outcome)
        &&& outcome_error(outcome) is None
        &&& !self@.ctxs[cid].cmd.spec_readonly()
    }

    /// Whether what came of the snapshot of a command can be taken in now: it is what the command
    /// asks for, and there is a callback for the answer if the command is to be answered.
    pub open spec fn can_take_snapshot(
        &self,
        cid: u64,
        snapshot: Result<TaskOutcome, EngineError>,
    ) -> bool {
        &&& self@.ctxs.contains_key(cid)
        &&& snapshot matches Ok(outcome) ==> outcome_fits(self@.ctxs[cid].cmd, outcome)
        &&& self.goes_on(cid, snapshot) || (self@.ready(cid) && self@.unanswered(cid))
    }

    /// Takes in the snapshot of a command, or rather what came of its work on it; or why there is
    /// no snapshot. A command that is answered leaves.
    pub fn snapshot_finished(&mut self, cid: u64, snapshot: Result<TaskOutcome, EngineError>) -> (
    answer: Option<Answer<B>>)
        requires
            old(self).wf(),
            old(self).can_take_snapshot(cid, snapshot),
        ensures
            final(self).wf(),
            answer is None <==> old(self).goes_on(cid, snapshot),
            answer is None ==> final(self)@ == old(self)@,
            answer is Some ==> {
                &&& final(self)@ == old(self)@.finished(cid)
                &&& Some(answer->Some_0.callback) == old(self)@.ctxs[cid].cmd.spec_callback()
                &&& match snapshot {
                    Err(err) => answer->Some_0.reply == failed_reply(
                        old(self)@.ctxs[cid].cmd,
                        Error::Txn(TxnError::Engine(err)),
                    ),
                    Ok(outcome) => match outcome_error(outcome) {
                        Some(err) => answer->Some_0.reply == failed_reply(
                            old(self)@.ctxs[cid].cmd,
                            Error::Txn(err),
                        ),
                        None => is_read_reply(answer->Some_0.reply, outcome),
                    },
                }
            },
    {
        match snapshot {
            Ok(outcome) => {
                match self.process_cmd_with_snapshot(cid, outcome) {
                    Ok(Some(answer)) => {
                        self.finish_cmd(cid);
                        assert(self@.ctxs =~= old(self)@.finished(cid).ctxs);
                        Some(answer)
                    },
                    Ok(None) => None,
                    Err(err) => Some(self.finish_with_err(cid, err)),
                }
            },
            Err(err) => Some(self.finish_with_err(cid, TxnError::from(err))),
        }
    }

    /// Answers a write command once the engine has stored its changes, or has failed to.
    pub fn write_finished(
        &mut self,
        cid: u64,
        pr: ProcessResult,
        result: Result<(), EngineError>,
    ) -> (answer: Answer<B>)
        requires
            old(self).wf(),
            old(self)@.unanswered(cid),
            !old(self)@.ctxs[cid].cmd.spec_readonly(),
            result is Ok ==> result_fits(old(self)@.ctxs[cid].cmd, pr),
        ensures
            final(self).wf(),
            final(self)@ == old(self)@.callback_taken(cid),
            Some(answer.callback) == old(self)@.ctxs[cid].cmd.spec_callback(),
            match result {
                Ok(()) => is_stored_reply(answer.reply, old(self)@.ctxs[cid].cmd, pr),
                Err(err) => answer.reply == failed_reply(
                    old(self)@.ctxs[cid].cmd,
                    Error::Engine(err),
                ),
            },
    {
        let cmd = &self.running(cid).cmd;
        let reply = match result {
            Ok(()) => stored_reply(cmd, pr),
            Err(err) => fail_reply(cmd, Error::from(err)),
        };
        let callback = self.take_callback(cid);
        Answer { callback, reply }
    }

    /// Wakes the next command up: it takes the latches that it lacks, as far as it can. Says
    /// whether it holds them all.
    fn wakeup_cmd(&mut self) -> (woken: (u64, bool))
        requires
            old(self).wf(),
            old(self)@.wakeups.len() > 0,
        ensures
            final(self).wf(),
            final(self)@ == old(self)@.woken_up(),
            woken.0 == old(self)@.wakeups.last(),
            woken.1 == final(self)@.ready(woken.0),
    {
        let ghost before = self@;
        proof {
            lemma_woken_up_inv(before);
            assert(before.wakeups.contains(before.wakeups.last()));
            assert(before.woken(before.wakeups.last()));
            assert(before.ctx_ok(before.wakeups.last()));
        }
        let cid: u64 = self.wakeups.pop().unwrap();
        assert(self@ == (SchedulerView { wakeups: before.wakeups.drop_last(), ..before }));
        let all_acquired = self.acquire_latches(cid);
        (cid, all_acquired)
    }

    /// Wakes commands up until one of them holds every latch that it needs, and returns its id: it
    /// goes on to get a snapshot. Without one, nobody is left to be woken up.
    pub fn next_wakeup(&mut self) -> (ready: Option<u64>)
        requires
            old(self).wf(),
        ensures
            final(self).wf(),
            (final(self)@, ready) == old(self)@.woken_up_to_ready(),
            ready matches Some(cid) ==> final(self)@.ready(cid),
            ready is None ==> final(self)@.wakeups.len() == 0,
    {
        while self.wakeups.len() > 0
            invariant
                self.wf(),
                self@.woken_up_to_ready() == old(self)@.woken_up_to_ready(),
            decreases self.wakeups@.len(),
        {
            let ghost before = self@;
            let (cid, all_acquired) = self.wakeup_cmd();
            assert(self@.wakeups == before.wakeups.drop_last());
            if all_acquired {
                return Some(cid);
            }
        }
        None
    }

    /// Whether a message can be taken in now.
    pub open spec fn can_take<S>(&self, msg: Msg<C, B, S>) -> bool {
        match msg {
            Msg::Quit => true,
            Msg::RawCmd { cmd } => self@.can_receive(cmd),
            Msg::SnapshotFinish { cid, snapshot } => {
                &&& self@.ctxs.contains_key(cid)
                &&& snapshot is Err ==> self@.ready(cid) && self@.unanswered(cid)
            },
            Msg::WriteFinish { cid, pr, result } => {
                &&& self@.ready(cid)
                &&& self@.unanswered(cid)
                &&& !self@.ctxs[cid].cmd.spec_readonly()
                &&& result is Ok ==> result_fits(self@.ctxs[cid].cmd, pr)
            },
        }
    }

    /// Whether a message can be taken in now.
    pub fn check_msg<S>(&self, msg: &Msg<C, B, S>) -> (yes: bool)
        requires
            self.wf(),
        ensures
            yes == self.can_take(*msg),
    {
        match msg {
            Msg::Quit => true,
            Msg::RawCmd { cmd } => {
                self.id_alloc < u64::MAX && (self.latches.size() > 0 || no_keys(cmd))
            },
            Msg::SnapshotFinish { cid, snapshot } => {
                self.is_running(*cid) && (snapshot.is_ok() || self.awaits_answer(*cid))
            },
            Msg::WriteFinish { cid, pr, result } => {
                self.awaits_answer(*cid) && !self.running(*cid).cmd.readonly() && (
                result.is_err() || check_result(&self.running(*cid).cmd, pr))
            },
        }
    }

    /// Whether a command holds every latch that it needs and has not been answered.
    pub fn awaits_answer(&self, cid: u64) -> (yes: bool)
        requires
            self.wf(),
        ensures
            yes == (self@.ready(cid) && self@.unanswered(cid)),
    {
        match self.cmd_ctxs.get(&cid) {
            Some(ctx) => ctx.all_latches_acquired() && ctx.cmd.has_callback(),
            None => false,
        }
    }

    /// Whether a command is running.
    pub fn is_running(&self, cid: u64) -> (yes: bool)
        requires
            self.wf(),
        ensures
            yes == self@.ctxs.contains_key(cid),
    {
        self.cmd_ctxs.contains_key(&cid)
    }

    /// Whether what came of the snapshot of a command can be taken in now.
    pub fn check_snapshot(&self, cid: u64, snapshot: &Result<TaskOutcome, EngineError>) -> (yes:
        bool)
        requires
            self.wf(),
        ensures
            yes == self.can_take_snapshot(cid, *snapshot),
    {
        if !self.is_running(cid) {
            return false;
        }
        let cmd = &self.running(cid).cmd;
        match snapshot {
            Ok(outcome) => {
                check_outcome(cmd, outcome) && ((!ends_with_error(outcome) && !cmd.readonly())
                    || self.awaits_answer(cid))
            },
            Err(_) => self.awaits_answer(cid),
        }
    }

    /// Takes a message in, and says what is to be done.
    pub fn notify<S>(&mut self, msg: Msg<C, B, S>) -> (action: Action<B, S>)
        requires
            old(self).wf(),
            old(self).can_take(msg),
        ensures
            final(self).wf(),
            match msg {
                Msg::Quit => action is Shutdown && final(self)@ == old(self)@,
                Msg::RawCmd { cmd } => {
                    let cid = (old(self)@.id_alloc + 1) as u64;
                    &&& final(self)@ == old(self)@.received(cmd)
                    &&& if final(self)@.ready(cid) {
                        action == Action::<B, S>::GetSnapshot { cid }
                    } else {
                        action == Action::<B, S>::Wait
                    }
                },
                Msg::SnapshotFinish { cid, snapshot } => match snapshot {
                    Ok(snapshot) => {
                        &&& final(self)@ == old(self)@
                        &&& action == Action::<B, S>::Process { cid, snapshot }
                    },
                    Err(err) => {
                        &&& final(self)@ == old(self)@.finished(cid)
                        &&& action matches Action::Reply { answer }
                        &&& Some(answer.callback) == old(self)@.ctxs[cid].cmd.spec_callback()
                        &&& answer.reply == failed_reply(
                            old(self)@.ctxs[cid].cmd,
                            Error::Txn(TxnError::Engine(err)),
                        )
                    },
                },
                Msg::WriteFinish { cid, pr, result } => {
                    &&& final(self)@ == old(self)@.finished(cid)
                    &&& action matches Action::Reply { answer }
                    &&& Some(answer.callback) == old(self)@.ctxs[cid].cmd.spec_callback()
                    &&& match result {
                        Ok(()) => is_stored_reply(answer.reply, old(self)@.ctxs[cid].cmd, pr),
                        Err(err) => answer.reply == failed_reply(
                            old(self)@.ctxs[cid].cmd,
                            Error::Engine(err),
                        ),
                    }
                },
            },
    {
        match msg {
            Msg::Quit => Action::Shutdown,
            Msg::RawCmd { cmd } => {
                match self.received_new_cmd(cmd) {
                    Some(cid) => Action::GetSnapshot { cid },
                    None => Action::Wait,
                }
            },
            Msg::SnapshotFinish { cid, snapshot } => {
                match snapshot {
                    Ok(snapshot) => Action::Process { cid, snapshot },
                    Err(err) => Action::Reply {
                        answer: self.finish_with_err(cid, TxnError::from(err)),
                    },
                }
            },
            Msg::WriteFinish { cid, pr, result } => {
                let answer = self.write_finished(cid, pr, result);
                self.finish_cmd(cid);
                assert(self@.ctxs =~= old(self)@.finished(cid).ctxs);
                Action::Reply { answer }
            },
        }
    }

    /// The message that carries a command to the scheduler.
    pub fn dispatch_cmd<S>(&self, cmd: Command<C, B>) -> (msg: Msg<C, B, S>)
        ensures
            msg == (Msg::<C, B, S>::RawCmd { cmd }),
    {
        Msg::RawCmd { cmd }
    }

    /// How many commands are running, and when to report again.
    pub fn on_report_staticstic_tick(&self) -> (report: Report)
        requires
            self.wf(),
        ensures
            report.running_cmd_count == self@.ctxs.dom().len(),
            report.next is ReportStatistic,
            report.delay == REPORT_STATISTIC_INTERVAL,
    {
        assert(self@.ctxs.dom() =~= self.cmd_ctxs@.dom());
        Report {
            running_cmd_count: self.cmd_ctxs.len(),
            next: Tick::ReportStatistic,
            delay: REPORT_STATISTIC_INTERVAL,
        }
    }

    /// What a timer asks for.
    pub fn timeout(&self, tick: Tick) -> (report: Report)
        requires
            self.wf(),
        ensures
            report.running_cmd_count == self@.ctxs.dom().len(),
            report.next is ReportStatistic,
            report.delay == REPORT_STATISTIC_INTERVAL,
    {
        match tick {
            Tick::ReportStatistic => self.on_report_staticstic_tick(),
        }
    }
}

/// Whether a command writes no key.
fn no_keys<C, B>(cmd: &Command<C, B>) -> (yes: bool)
    ensures
        yes == (cmd.written_keys().len() == 0),
{
    let keys: Vec<&Key> = cmd.latch_keys();
    assert(keys@.map_values(|key: &Key| key@).len() == keys@.len());
    keys.len() == 0
}

} // verus!
