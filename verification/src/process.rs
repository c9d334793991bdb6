//! What a command does once it has its latches and a snapshot: the work that is asked of the
//! store or of a transaction, and the answer that follows from what came back.

use crate::command::Command;
use crate::error::{EngineError, Error, MvccError, TxnError};
use crate::key::{Key, KvPair, Mutation, Value};
use vstd::pervasive::unreached;
use vstd::prelude::*;

verus! {

/// What a write command has computed while its changes are being stored.
#[derive(Debug)]
pub enum ProcessResult {
    /// One result for each mutation.
    ResultSet { result: Vec<Result<(), TxnError>> },
    /// The value that was read.
    Value { value: Option<Value> },
    /// Nothing.
    Nothing,
}

/// What a callback is given.
#[derive(Debug)]
pub enum Reply {
    /// The value of a key.
    Value(Result<Option<Value>, Error>),
    /// Keys with their values, or why one could not be read.
    Pairs(Result<Vec<Result<KvPair, Error>>, Error>),
    /// One result for each mutation.
    Results(Result<Vec<Result<(), Error>>, Error>),
    /// Whether the command succeeded.
    Unit(Result<(), Error>),
}

/// A callback together with what it is to be given.
#[derive(Debug)]
pub struct Answer<B> {
    /// The callback of the command.
    pub callback: B,
    /// What it is to be given.
    pub reply: Reply,
}

/// The answer to a command that failed as a whole.
pub open spec fn failed_reply<C, B>(cmd: Command<C, B>, err: Error) -> Reply {
    match cmd {
        Command::Get { .. } => Reply::Value(Err(err)),
        Command::CommitThenGet { .. } => Reply::Value(Err(err)),
        Command::RollbackThenGet { .. } => Reply::Value(Err(err)),
        Command::BatchGet { .. } => Reply::Pairs(Err(err)),
        Command::Scan { .. } => Reply::Pairs(Err(err)),
        Command::Prewrite { .. } => Reply::Results(Err(err)),
        Command::Commit { .. } => Reply::Unit(Err(err)),
        Command::Cleanup { .. } => Reply::Unit(Err(err)),
        Command::Rollback { .. } => Reply::Unit(Err(err)),
    }
}

/// The answer to a command that failed as a whole.
pub fn fail_reply<C, B>(cmd: &Command<C, B>, err: Error) -> (reply: Reply)
    ensures
        reply == failed_reply(*cmd, err),
{
    match cmd {
        Command::Get { .. }
        | Command::CommitThenGet { .. }
        | Command::RollbackThenGet { .. } => Reply::Value(Err(err)),
        Command::BatchGet { .. } | Command::Scan { .. } => Reply::Pairs(Err(err)),
        Command::Prewrite { .. } => Reply::Results(Err(err)),
        Command::Commit { .. } | Command::Cleanup { .. } | Command::Rollback { .. } => {
            Reply::Unit(Err(err))
        },
    }
}

/// A result of a transaction as the storage reports it.
pub open spec fn storage_result<T>(result: Result<T, TxnError>) -> Result<T, Error> {
    match result {
        Ok(t) => Ok(t),
        Err(err) => Err(Error::Txn(err)),
    }
}

/// Results of a transaction as the storage reports them.
fn storage_results<T>(results: Vec<Result<T, TxnError>>) -> (reported: Vec<Result<T, Error>>)
    ensures
        reported@ == results@.map_values(|result: Result<T, TxnError>| storage_result(result)),
{
    let mut reported: Vec<Result<T, Error>> = Vec::new();
    let ghost all = results@;
    for result in it: results
        invariant
            it.seq() == all,
            reported@.len() == it.index(),
            forall|i: int| 0 <= i < it.index() ==> #[trigger] reported@[i] == storage_result(all[i]),
    {
        reported.push(
            match result {
                Ok(t) => Ok(t),
                Err(err) => Err(Error::from(err)),
            },
        );
    }
    assert(reported@ =~= all.map_values(|result: Result<T, TxnError>| storage_result(result)));
    reported
}

/// Whether `pr` is of the kind that a write command of this kind computes.
pub open spec fn result_fits<C, B>(cmd: Command<C, B>, pr: ProcessResult) -> bool {
    match cmd {
        Command::Prewrite { .. } => pr is ResultSet,
        Command::CommitThenGet { .. } => pr is Value,
        Command::RollbackThenGet { .. } => pr is Value,
        _ => true,
    }
}

/// Whether `pr` is of the kind that a write command of this kind computes.
pub fn check_result<C, B>(cmd: &Command<C, B>, pr: &ProcessResult) -> (fits: bool)
    ensures
        fits == result_fits(*cmd, *pr),
{
    match cmd {
        Command::Prewrite { .. } => matches!(pr, ProcessResult::ResultSet { .. }),
        Command::CommitThenGet { .. }
        | Command::RollbackThenGet { .. } => matches!(pr, ProcessResult::Value { .. }),
        _ => true,
    }
}

/// Whether `reply` is the answer to a write command whose changes have been stored, after it
/// computed `pr`.
pub open spec fn is_stored_reply<C, B>(
    reply: Reply,
    cmd: Command<C, B>,
    pr: ProcessResult,
) -> bool {
    match cmd {
        Command::Prewrite { .. } => {
            &&& pr matches ProcessResult::ResultSet { result }
            &&& reply matches Reply::Results(Ok(reported))
            &&& reported@ == result@.map_values(|r: Result<(), TxnError>| storage_result(r))
        },
        Command::CommitThenGet { .. } => {
            &&& pr matches ProcessResult::Value { value }
            &&& reply == Reply::Value(Ok(value))
        },
        Command::RollbackThenGet { .. } => {
            &&& pr matches ProcessResult::Value { value }
            &&& reply == Reply::Value(Ok(value))
        },
        Command::Commit { .. } => reply == Reply::Unit(Ok(())),
        Command::Cleanup { .. } => reply == Reply::Unit(Ok(())),
        Command::Rollback { .. } => reply == Reply::Unit(Ok(())),
        _ => false,
    }
}

/// The answer to a write command whose changes have been stored, after it computed `pr`.
pub fn stored_reply<C, B>(cmd: &Command<C, B>, pr: ProcessResult) -> (reply: Reply)
    requires
        !cmd.spec_readonly(),
        result_fits(*cmd, pr),
    ensures
        is_stored_reply(reply, *cmd, pr),
{
    match cmd {
        Command::Prewrite { .. } => {
            match pr {
                ProcessResult::ResultSet { result } => Reply::Results(Ok(storage_results(result))),
                _ => unreached(),
            }
        },
        Command::CommitThenGet { .. } | Command::RollbackThenGet { .. } => {
            match pr {
                ProcessResult::Value { value } => Reply::Value(Ok(value)),
                _ => unreached(),
            }
        },
        _ => Reply::Unit(Ok(())),
    }
}

/// What came of the work of a command on its snapshot.
#[derive(Debug)]
pub enum TaskOutcome {
    /// The store looked the key up.
    Get { value: Result<Option<Value>, TxnError> },
    /// The store looked the keys up, in order; `raw_keys` are their raw forms, where they have
    /// one.
    BatchGet {
        raw_keys: Vec<Option<Vec<u8>>>,
        values: Result<Vec<Result<Option<Value>, TxnError>>, TxnError>,
    },
    /// The store made no scanner.
    NoScanner { err: TxnError },
    /// The scanner ran.
    Scan { pairs: Result<Vec<Result<KvPair, TxnError>>, TxnError> },
    /// The transaction ran and the engine took its changes, or one of the two failed.
    Write { result: Result<(), TxnError> },
}

impl TaskOutcome {
    /// The outcome of a write command whose transaction ran: the engine took its changes, or
    /// refused them.
    pub fn submitted(taken: Result<(), EngineError>) -> (outcome: TaskOutcome)
        ensures
            outcome == (TaskOutcome::Write {
                result: match taken {
                    Ok(()) => Ok(()),
                    Err(err) => Err(TxnError::Engine(err)),
                },
            }),
    {
        TaskOutcome::Write {
            result: match taken {
                Ok(()) => Ok(()),
                Err(err) => Err(TxnError::from(err)),
            },
        }
    }
}

/// Whether every key that was found has a raw form.
pub open spec fn found_keys_raw(
    raw_keys: Seq<Option<Vec<u8>>>,
    results: Seq<Result<Option<Value>, TxnError>>,
) -> bool {
    forall|i: int|
        0 <= i < raw_keys.len() && i < results.len() && (#[trigger] results[i] matches Ok(Some(_)))
            ==> raw_keys[i] is Some
}

/// Whether the outcome is one of the work that a command of this kind asks for.
pub open spec fn outcome_fits<C, B>(cmd: Command<C, B>, outcome: TaskOutcome) -> bool {
    match cmd {
        Command::Get { .. } => outcome is Get,
        Command::BatchGet { keys, .. } => {
            &&& outcome matches TaskOutcome::BatchGet { raw_keys, values }
            &&& raw_keys@.len() == keys@.len()
            &&& values matches Ok(results) ==> found_keys_raw(raw_keys@, results@)
        },
        Command::Scan { .. } => outcome is NoScanner || outcome is Scan,
        _ => outcome is Write,
    }
}

/// Whether the outcome is one of the work that a command of this kind asks for.
pub fn check_outcome<C, B>(cmd: &Command<C, B>, outcome: &TaskOutcome) -> (fits: bool)
    ensures
        fits == outcome_fits(*cmd, *outcome),
{
    match (cmd, outcome) {
        (Command::Get { .. }, TaskOutcome::Get { .. }) => true,
        (Command::BatchGet { keys, .. }, TaskOutcome::BatchGet { raw_keys, values }) => {
            if raw_keys.len() != keys.len() {
                return false;
            }
            match values {
                Ok(results) => check_raw_keys(raw_keys, results),
                Err(_) => true,
            }
        },
        (Command::Scan { .. }, TaskOutcome::NoScanner { .. }) => true,
        (Command::Scan { .. }, TaskOutcome::Scan { .. }) => true,
        (_, TaskOutcome::Write { .. }) => !cmd.readonly(),
        _ => false,
    }
}

/// Whether every key that was found has a raw form.
fn check_raw_keys(
    raw_keys: &Vec<Option<Vec<u8>>>,
    results: &Vec<Result<Option<Value>, TxnError>>,
) -> (all: bool)
    ensures
        all == found_keys_raw(raw_keys@, results@),
{
    let mut i: usize = 0;
    while i < raw_keys.len() && i < results.len()
        invariant
            i <= raw_keys@.len(),
            i <= results@.len(),
            forall|j: int|
                0 <= j < i && (#[trigger] results@[j] matches Ok(Some(_))) ==> raw_keys@[j] is Some,
        decreases raw_keys@.len() - i,
    {
        let found: bool = matches!(&results[i], Ok(Some(_)));
        if found && raw_keys[i].is_none() {
            assert(results@[i as int] matches Ok(Some(_)));
            return false;
        }
        i += 1;
    }
    true
}

/// The keys that were found, with their values, and the errors, among the first `n` lookups; a
/// key without a value is left out.
pub open spec fn batch_pairs(
    raw_keys: Seq<Option<Vec<u8>>>,
    results: Seq<Result<Option<Value>, TxnError>>,
    n: int,
) -> Seq<Result<KvPair, Error>>
    decreases n,
{
    if n <= 0 {
        Seq::empty()
    } else {
        let before = batch_pairs(raw_keys, results, n - 1);
        match results[n - 1] {
            Ok(Some(value)) => before.push(Ok((raw_keys[n - 1]->Some_0, value))),
            Ok(None) => before,
            Err(err) => before.push(Err(Error::Txn(err))),
        }
    }
}

/// How many lookups have both a key and a result.
pub open spec fn paired(
    raw_keys: Seq<Option<Vec<u8>>>,
    results: Seq<Result<Option<Value>, TxnError>>,
) -> int {
    if raw_keys.len() < results.len() {
        raw_keys.len() as int
    } else {
        results.len() as int
    }
}

/// Pairs the keys that were found with their values.
fn pair_up(
    raw_keys: Vec<Option<Vec<u8>>>,
    results: Vec<Result<Option<Value>, TxnError>>,
) -> (pairs: Vec<Result<KvPair, Error>>)
    requires
        found_keys_raw(raw_keys@, results@),
    ensures
        pairs@ == batch_pairs(raw_keys@, results@, paired(raw_keys@, results@)),
{
    let ghost names = raw_keys@;
    let ghost all = results@;
    let mut raw_keys = raw_keys;
    let mut pairs: Vec<Result<KvPair, Error>> = Vec::new();
    let mut i: usize = 0;
    for result in it: results
        invariant
            it.seq() == all,
            found_keys_raw(names, all),
            raw_keys@.len() == names.len(),
            i == if it.index() < names.len() {
                it.index() as int
            } else {
                names.len() as int
            },
            forall|j: int| i <= j < names.len() ==> #[trigger] raw_keys@[j] == names[j],
            pairs@ == batch_pairs(names, all, i as int),
    {
        if i < raw_keys.len() {
            assert(all[i as int] == result);
            match result {
                Ok(Some(value)) => {
                    let raw_key: Vec<u8> = raw_keys[i].take().unwrap();
                    pairs.push(Ok((raw_key, value)));
                },
                Ok(None) => {},
                Err(err) => {
                    pairs.push(Err(Error::from(err)));
                },
            }
            i += 1;
        }
    }
    pairs
}

/// Whether `reply` is the answer to a read command, given what the store returned.
pub open spec fn is_read_reply(reply: Reply, outcome: TaskOutcome) -> bool {
    match outcome {
        TaskOutcome::Get { value } => reply == Reply::Value(storage_result(value)),
        TaskOutcome::BatchGet { raw_keys, values } => match values {
            Ok(results) => {
                &&& reply matches Reply::Pairs(Ok(pairs))
                &&& pairs@ == batch_pairs(raw_keys@, results@, paired(raw_keys@, results@))
            },
            Err(err) => reply == Reply::Pairs(Err(Error::Txn(err))),
        },
        TaskOutcome::Scan { pairs } => match pairs {
            Ok(results) => {
                &&& reply matches Reply::Pairs(Ok(reported))
                &&& reported@ == results@.map_values(|r: Result<KvPair, TxnError>| storage_result(r))
            },
            Err(err) => reply == Reply::Pairs(Err(Error::Txn(err))),
        },
        _ => false,
    }
}

/// The error that an outcome ends a command with, if any.
pub open spec fn outcome_error(outcome: TaskOutcome) -> Option<TxnError> {
    match outcome {
        TaskOutcome::NoScanner { err } => Some(err),
        TaskOutcome::Write { result: Err(err) } => Some(err),
        _ => None,
    }
}

/// Whether an outcome ends a command with an error.
pub fn ends_with_error(outcome: &TaskOutcome) -> (yes: bool)
    ensures
        yes == (outcome_error(*outcome) is Some),
{
    match outcome {
        TaskOutcome::NoScanner { .. } => true,
        TaskOutcome::Write { result } => result.is_err(),
        _ => false,
    }
}

/// What follows from an outcome: the answer to a read command, nothing yet for a write command,
/// or the error that ends the command.
pub fn read_reply<C, B>(cmd: &Command<C, B>, outcome: TaskOutcome) -> (res: Result<
    Option<Reply>,
    TxnError,
>)
    requires
        outcome_fits(*cmd, outcome),
    ensures
        match outcome_error(outcome) {
            Some(err) => res == Err::<Option<Reply>, TxnError>(err),
            None => {
                &&& res is Ok
                &&& res->Ok_0 is Some <==> cmd.spec_readonly()
                &&& res->Ok_0 matches Some(reply) ==> is_read_reply(reply, outcome)
            },
        },
{
    match outcome {
        TaskOutcome::Get { value } => {
            Ok(
                Some(
                    Reply::Value(
                        match value {
                            Ok(value) => Ok(value),
                            Err(err) => Err(Error::from(err)),
                        },
                    ),
                ),
            )
        },
        TaskOutcome::BatchGet { raw_keys, values } => {
            Ok(
                Some(
                    Reply::Pairs(
                        match values {
                            Ok(results) => Ok(pair_up(raw_keys, results)),
                            Err(err) => Err(Error::from(err)),
                        },
                    ),
                ),
            )
        },
        TaskOutcome::NoScanner { err } => Err(err),
        TaskOutcome::Scan { pairs } => {
            Ok(
                Some(
                    Reply::Pairs(
                        match pairs {
                            Ok(results) => Ok(storage_results(results)),
                            Err(err) => Err(Error::from(err)),
                        },
                    ),
                ),
            )
        },
        TaskOutcome::Write { result } => {
            match result {
                Ok(()) => Ok(None),
                Err(err) => Err(err),
            }
        },
    }
}

/// One operation of a transaction.
#[derive(Debug)]
pub enum TxnOp<'a> {
    /// Lock and stage a mutation.
    Prewrite { mutation: &'a Mutation, primary: &'a Vec<u8> },
    /// Commit a key.
    Commit { key: &'a Key, commit_ts: u64 },
    /// Commit a key, and read it.
    CommitThenGet { key: &'a Key, commit_ts: u64, get_ts: u64 },
    /// Roll a key back.
    Rollback { key: &'a Key },
    /// Roll a key back, and read it.
    RollbackThenGet { key: &'a Key },
}

/// What one operation of a transaction came to: the value that it read, if it reads, or an error.
pub type OpOutcome = Result<Option<Value>, MvccError>;

/// How many operations a write command consists of.
pub open spec fn op_count<C, B>(cmd: Command<C, B>) -> nat {
    match cmd {
        Command::Prewrite { mutations, .. } => mutations@.len(),
        Command::Commit { keys, .. } => keys@.len(),
        Command::Rollback { keys, .. } => keys@.len(),
        Command::CommitThenGet { .. } => 1,
        Command::Cleanup { .. } => 1,
        Command::RollbackThenGet { .. } => 1,
        _ => 0,
    }
}

/// The operations of a command can be counted.
proof fn lemma_op_count<C, B>(cmd: Command<C, B>)
    ensures
        op_count(cmd) <= usize::MAX,
{
    match cmd {
        Command::Prewrite { mutations, .. } => {
            assert(mutations.len() == mutations@.len());
        },
        Command::Commit { keys, .. } => {
            assert(keys.len() == keys@.len());
        },
        Command::Rollback { keys, .. } => {
            assert(keys.len() == keys@.len());
        },
        _ => {},
    }
}

/// Whether `op` is operation `i` of a write command.
pub open spec fn is_op<C, B>(op: TxnOp, cmd: Command<C, B>, i: int) -> bool {
    match cmd {
        Command::Prewrite { mutations, primary, .. } => {
            op == TxnOp::Prewrite { mutation: &mutations@[i], primary: &primary }
        },
        Command::Commit { keys, commit_ts, .. } => {
            op == TxnOp::Commit { key: &keys@[i], commit_ts }
        },
        Command::CommitThenGet { key, commit_ts, get_ts, .. } => {
            op == TxnOp::CommitThenGet { key: &key, commit_ts, get_ts }
        },
        Command::Cleanup { key, .. } => op == TxnOp::Rollback { key: &key },
        Command::Rollback { keys, .. } => op == TxnOp::Rollback { key: &keys@[i] },
        Command::RollbackThenGet { key, .. } => op == TxnOp::RollbackThenGet { key: &key },
        _ => false,
    }
}

/// The timestamp that names the transaction of a command, or the snapshot that it reads.
pub open spec fn task_ts<C, B>(cmd: Command<C, B>) -> u64 {
    match cmd {
        Command::Get { start_ts, .. } => start_ts,
        Command::BatchGet { start_ts, .. } => start_ts,
        Command::Scan { start_ts, .. } => start_ts,
        Command::Prewrite { start_ts, .. } => start_ts,
        Command::Commit { lock_ts, .. } => lock_ts,
        Command::CommitThenGet { lock_ts, .. } => lock_ts,
        Command::Cleanup { start_ts, .. } => start_ts,
        Command::Rollback { start_ts, .. } => start_ts,
        Command::RollbackThenGet { lock_ts, .. } => lock_ts,
    }
}

/// Whether a command goes on after an operation came to `outcome`: any failure ends it, but for a
/// mutation that meets a lock, which is reported among the results.
pub open spec fn goes_on<C, B>(cmd: Command<C, B>, outcome: OpOutcome) -> bool {
    match outcome {
        Ok(_) => true,
        Err(err) => cmd is Prewrite && err is KeyIsLocked,
    }
}

/// Whether `pr` is what a write command computes from the outcomes of its operations.
pub open spec fn is_process_result<C, B>(
    pr: ProcessResult,
    cmd: Command<C, B>,
    outcomes: Seq<OpOutcome>,
) -> bool {
    match cmd {
        Command::Prewrite { .. } => {
            &&& pr matches ProcessResult::ResultSet { result }
            &&& result@ == outcomes.map_values(|outcome: OpOutcome| mutation_result(outcome))
        },
        Command::CommitThenGet { .. } => pr == (ProcessResult::Value { value: outcomes[0]->Ok_0 }),
        Command::RollbackThenGet { .. } => {
            pr == (ProcessResult::Value { value: outcomes[0]->Ok_0 })
        },
        _ => pr == ProcessResult::Nothing,
    }
}

/// The result that is reported for a mutation.
pub open spec fn mutation_result(outcome: OpOutcome) -> Result<(), TxnError> {
    match outcome {
        Ok(_) => Ok(()),
        Err(err) => Err(TxnError::Mvcc(err)),
    }
}

/// A write command in the course of its operations.
pub struct TxnRun<'a, C, B> {
    cmd: &'a Command<C, B>,
    done: usize,
    results: Vec<Result<(), TxnError>>,
    value: Option<Value>,
    outcomes: Ghost<Seq<OpOutcome>>,
}

impl<'a, C, B> TxnRun<'a, C, B> {
    /// The command.
    pub closed spec fn command(&self) -> Command<C, B> {
        *self.cmd
    }

    /// What its operations came to so far.
    pub closed spec fn view(&self) -> Seq<OpOutcome> {
        self.outcomes@
    }

    /// The command goes on after each of the outcomes so far, and the results so far are theirs.
    pub closed spec fn wf(&self) -> bool {
        &&& !self.cmd.spec_readonly()
        &&& self.done == self.outcomes@.len()
        &&& self.done <= op_count(*self.cmd)
        &&& forall|i: int|
            0 <= i < self.outcomes@.len() ==> goes_on(*self.cmd, #[trigger] self.outcomes@[i])
        &&& self.cmd is Prewrite ==> self.results@ == self.outcomes@.map_values(
            |outcome: OpOutcome| mutation_result(outcome),
        )
        &&& (self.cmd is CommitThenGet || self.cmd is RollbackThenGet) && self.done == 1
            ==> self.value == self.outcomes@[0]->Ok_0
    }

    /// A write command is in the course of its operations only as long as none of them has ended
    /// it.
    pub proof fn law_no_outcome_ends_the_command(&self)
        requires
            self.wf(),
        ensures
            self@.len() <= op_count(self.command()),
            forall|i: int| 0 <= i < self@.len() ==> goes_on(self.command(), #[trigger] self@[i]),
    {
    }

    /// A write command before its first operation.
    pub fn new(cmd: &'a Command<C, B>) -> (run: TxnRun<'a, C, B>)
        requires
            !cmd.spec_readonly(),
        ensures
            run.wf(),
            run.command() == *cmd,
            run@ == Seq::<OpOutcome>::empty(),
    {
        let run = TxnRun {
            cmd,
            done: 0,
            results: Vec::new(),
            value: None,
            outcomes: Ghost(Seq::empty()),
        };
        assert(run.results@ =~= run.outcomes@.map_values(
            |outcome: OpOutcome| mutation_result(outcome),
        ));
        run
    }

    /// The timestamp that names the transaction.
    pub fn start_ts(&self) -> (ts: u64)
        requires
            self.wf(),
        ensures
            ts == task_ts(self.command()),
    {
        match self.cmd {
            Command::Get { start_ts, .. } => *start_ts,
            Command::BatchGet { start_ts, .. } => *start_ts,
            Command::Scan { start_ts, .. } => *start_ts,
            Command::Prewrite { start_ts, .. } => *start_ts,
            Command::Commit { lock_ts, .. } => *lock_ts,
            Command::CommitThenGet { lock_ts, .. } => *lock_ts,
            Command::Cleanup { start_ts, .. } => *start_ts,
            Command::Rollback { start_ts, .. } => *start_ts,
            Command::RollbackThenGet { lock_ts, .. } => *lock_ts,
        }
    }

    /// The next operation, until all have been done.
    pub fn next_op(&self) -> (op: Option<TxnOp<'a>>)
        requires
            self.wf(),
        ensures
            op is Some <==> self@.len() < op_count(self.command()),
            op matches Some(op) ==> is_op(op, self.command(), self@.len() as int),
    {
        match self.cmd {
            Command::Prewrite { mutations, primary, .. } => {
                if self.done < mutations.len() {
                    Some(TxnOp::Prewrite { mutation: &mutations[self.done], primary })
                } else {
                    None
                }
            },
            Command::Commit { keys, commit_ts, .. } => {
                if self.done < keys.len() {
                    Some(TxnOp::Commit { key: &keys[self.done], commit_ts: *commit_ts })
                } else {
                    None
                }
            },
            Command::CommitThenGet { key, commit_ts, get_ts, .. } => {
                if self.done < 1 {
                    Some(TxnOp::CommitThenGet { key, commit_ts: *commit_ts, get_ts: *get_ts })
                } else {
                    None
                }
            },
            Command::Cleanup { key, .. } => {
                if self.done < 1 {
                    Some(TxnOp::Rollback { key })
                } else {
                    None
                }
            },
            Command::Rollback { keys, .. } => {
                if self.done < keys.len() {
                    Some(TxnOp::Rollback { key: &keys[self.done] })
                } else {
                    None
                }
            },
            Command::RollbackThenGet { key, .. } => {
                if self.done < 1 {
                    Some(TxnOp::RollbackThenGet { key })
                } else {
                    None
                }
            },
            _ => None,
        }
    }

    /// Takes in what the next operation came to. An error ends the command, and the run with it.
    pub fn record(self, outcome: OpOutcome) -> (res: Result<TxnRun<'a, C, B>, TxnError>)
        requires
            self.wf(),
            self@.len() < op_count(self.command()),
        ensures
            if goes_on(self.command(), outcome) {
                &&& res matches Ok(run)
                &&& run.wf()
                &&& run.command() == self.command()
                &&& run@ == self@.push(outcome)
            } else {
                res == Err::<TxnRun<'a, C, B>, TxnError>(TxnError::Mvcc(outcome->Err_0))
            },
    {
        let ghost told = outcome;
        let mut run = self;
        let prewrite: bool = match run.cmd {
            Command::Prewrite { .. } => true,
            _ => false,
        };
        match outcome {
            Ok(value) => {
                if prewrite {
                    run.results.push(Ok(()));
                } else {
                    run.value = value;
                }
            },
            Err(err) => {
                let locked: bool = match &err {
                    MvccError::KeyIsLocked { .. } => true,
                    MvccError::Other(_) => false,
                };
                if prewrite && locked {
                    run.results.push(Err(TxnError::from(err)));
                } else {
                    return Err(TxnError::from(err));
                }
            },
        }
        proof {
            lemma_op_count(*run.cmd);
        }
        run.done += 1;
        run.outcomes = Ghost(run.outcomes@.push(told));
        proof {
            if run.cmd is Prewrite {
                assert(run.results@ =~= run.outcomes@.map_values(
                    |outcome: OpOutcome| mutation_result(outcome),
                ));
            }
        }
        Ok(run)
    }

    /// What the command has computed, once all its operations have been done.
    pub fn finish(self) -> (pr: ProcessResult)
        requires
            self.wf(),
            self@.len() == op_count(self.command()),
        ensures
            is_process_result(pr, self.command(), self@),
            result_fits(self.command(), pr),
            forall|i: int| 0 <= i < self@.len() ==> goes_on(self.command(), #[trigger] self@[i]),
    {
        match self.cmd {
            Command::Prewrite { .. } => ProcessResult::ResultSet { result: self.results },
            Command::CommitThenGet { .. }
            | Command::RollbackThenGet { .. } => ProcessResult::Value { value: self.value },
            _ => ProcessResult::Nothing,
        }
    }
}

/// The work that a command asks for on its snapshot.
pub enum SnapshotTask<'a, C, B> {
    /// Look a key up.
    Get { start_ts: u64, key: &'a Key },
    /// Look keys up.
    BatchGet { start_ts: u64, keys: &'a Vec<Key> },
    /// Scan up to `limit` keys, from `start_key` on.
    Scan { start_ts: u64, start_key: &'a Key, limit: usize },
    /// Run a transaction and hand its changes to the engine.
    Write(TxnRun<'a, C, B>),
}

/// Whether `task` is the work that a command asks for.
pub open spec fn is_task<C, B>(task: SnapshotTask<C, B>, cmd: Command<C, B>) -> bool {
    match cmd {
        Command::Get { key, start_ts, .. } => {
            &&& task matches SnapshotTask::Get { start_ts: ts, key: looked_up }
            &&& ts == start_ts
            &&& *looked_up == key
        },
        Command::BatchGet { keys, start_ts, .. } => {
            &&& task matches SnapshotTask::BatchGet { start_ts: ts, keys: looked_up }
            &&& ts == start_ts
            &&& *looked_up == keys
        },
        Command::Scan { start_key, limit, start_ts, .. } => {
            &&& task matches SnapshotTask::Scan { start_ts: ts, start_key: from, limit: most }
            &&& ts == start_ts
            &&& *from == start_key
            &&& most == limit
        },
        _ => {
            &&& task matches SnapshotTask::Write(run)
            &&& run.wf()
            &&& run.command() == cmd
            &&& run@ == Seq::<OpOutcome>::empty()
        },
    }
}

/// The work that a command asks for on its snapshot.
pub fn task_of<'a, C, B>(cmd: &'a Command<C, B>) -> (task: SnapshotTask<'a, C, B>)
    ensures
        is_task(task, *cmd),
{
    match cmd {
        Command::Get { key, start_ts, .. } => SnapshotTask::Get { start_ts: *start_ts, key },
        Command::BatchGet { keys, start_ts, .. } => {
            SnapshotTask::BatchGet { start_ts: *start_ts, keys }
        },
        Command::Scan { start_key, limit, start_ts, .. } => {
            SnapshotTask::Scan { start_ts: *start_ts, start_key, limit: *limit }
        },
        _ => SnapshotTask::Write(TxnRun::new(cmd)),
    }
}

} // verus!
