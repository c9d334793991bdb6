//! What a command is answered, given what came of its work.

use crate::command::Command;
use crate::error::{EngineError, Error, MvccError, TxnError};
use crate::key::{KvPair, Value};
use crate::process::{
    batch_pairs, check_outcome, check_result, ends_with_error, fail_reply, paired, read_reply,
    stored_reply, OpOutcome, ProcessResult, Reply, TaskOutcome, TxnRun,
};
use vstd::prelude::*;

verus! {

/// A transaction starts with no operation done.
pub proof fn law_run_starts_empty<'a, C, B>(cmd: &'a Command<C, B>, run: TxnRun<'a, C, B>)
    requires
        call_ensures(TxnRun::<'a, C, B>::new, (cmd,), run),
    ensures
        run.wf(),
        run.command() == *cmd,
        run@.len() == 0,
{
}

/// An error of an operation ends the command with that very error, unless a prewrite met a lock.
pub proof fn law_error_ends_command<'a, C, B>(
    run: TxnRun<'a, C, B>,
    err: MvccError,
    res: Result<TxnRun<'a, C, B>, TxnError>,
)
    requires
        call_ensures(TxnRun::<'a, C, B>::record, (run, Err(err)), res),
        !(run.command() is Prewrite) || !(err is KeyIsLocked),
    ensures
        res == Err::<TxnRun<'a, C, B>, TxnError>(TxnError::Mvcc(err)),
{
}

/// A command goes on after an operation that succeeded, and a prewrite after one that met a lock;
/// what the operation came to is kept, after what the earlier ones came to.
pub proof fn law_command_goes_on<'a, C, B>(
    run: TxnRun<'a, C, B>,
    outcome: OpOutcome,
    res: Result<TxnRun<'a, C, B>, TxnError>,
)
    requires
        call_ensures(TxnRun::<'a, C, B>::record, (run, outcome), res),
        outcome is Ok || (run.command() is Prewrite && outcome->Err_0 is KeyIsLocked),
    ensures
        res is Ok,
        res->Ok_0.wf(),
        res->Ok_0.command() == run.command(),
        res->Ok_0@.len() == run@.len() + 1,
        res->Ok_0@.last() == outcome,
        forall|i: int| 0 <= i < run@.len() ==> #[trigger] res->Ok_0@[i] == run@[i],
{
}

/// Whoever reaches the end of a transaction has had no error on the way, but for locks that a
/// prewrite met.
pub proof fn law_finished_without_error<'a, C, B>(run: TxnRun<'a, C, B>, pr: ProcessResult)
    requires
        call_ensures(TxnRun::<'a, C, B>::finish, (run,), pr),
    ensures
        !(run.command() is Prewrite) ==> forall|i: int|
            0 <= i < run@.len() ==> (#[trigger] run@[i]) is Ok,
        forall|i: int|
            0 <= i < run@.len() && (#[trigger] run@[i]) is Err ==> run.command() is Prewrite
                && run@[i]->Err_0 is KeyIsLocked,
{
}

/// A prewrite is answered with one result for each of its operations, in order: success where the
/// operation succeeded, the lock where it met one.
pub proof fn law_prewrite_answer<'a, C, B>(
    run: TxnRun<'a, C, B>,
    pr: ProcessResult,
    cmd: &Command<C, B>,
    reply: Reply,
)
    requires
        run.command() == *cmd,
        cmd is Prewrite,
        call_ensures(TxnRun::<'a, C, B>::finish, (run,), pr),
        call_ensures(stored_reply::<C, B>, (cmd, pr), reply),
    ensures
        reply matches Reply::Results(Ok(results)) && results@.len() == run@.len() && forall|i: int|
            0 <= i < run@.len() ==> (#[trigger] results@[i]) == match run@[i] {
                Ok(_) => Ok::<(), Error>(()),
                Err(err) => Err::<(), Error>(Error::Txn(TxnError::Mvcc(err))),
            },
{
}

/// A commit or a rollback with a read is answered with the value that its operation read.
pub proof fn law_read_value_answer<'a, C, B>(
    run: TxnRun<'a, C, B>,
    pr: ProcessResult,
    cmd: &Command<C, B>,
    reply: Reply,
    value: Option<Value>,
)
    requires
        run.command() == *cmd,
        cmd is CommitThenGet || cmd is RollbackThenGet,
        run@ == seq![Ok::<Option<Value>, MvccError>(value)],
        call_ensures(TxnRun::<'a, C, B>::finish, (run,), pr),
        call_ensures(stored_reply::<C, B>, (cmd, pr), reply),
    ensures
        reply == Reply::Value(Ok(value)),
{
    assert(run@[0] == Ok::<Option<Value>, MvccError>(value));
}

/// A commit, a cleanup and a rollback are answered that they succeeded, and that only when every
/// one of their operations did.
pub proof fn law_unit_answer<'a, C, B>(
    run: TxnRun<'a, C, B>,
    pr: ProcessResult,
    cmd: &Command<C, B>,
    reply: Reply,
)
    requires
        run.command() == *cmd,
        cmd is Commit || cmd is Cleanup || cmd is Rollback,
        call_ensures(TxnRun::<'a, C, B>::finish, (run,), pr),
        call_ensures(stored_reply::<C, B>, (cmd, pr), reply),
    ensures
        pr is Nothing,
        reply == Reply::Unit(Ok(())),
        forall|i: int| 0 <= i < run@.len() ==> (#[trigger] run@[i]) is Ok,
{
}

/// What a command has computed is of the kind that its answer is made from, so that it can be
/// answered once its changes have been stored.
pub proof fn law_results_fit<'a, C, B>(
    run: TxnRun<'a, C, B>,
    pr: ProcessResult,
    cmd: &Command<C, B>,
    other: &ProcessResult,
    fits: bool,
    other_fits: bool,
)
    requires
        run.command() == *cmd,
        call_ensures(TxnRun::<'a, C, B>::finish, (run,), pr),
        call_ensures(check_result::<C, B>, (cmd, &pr), fits),
        call_ensures(check_result::<C, B>, (cmd, other), other_fits),
    ensures
        fits,
        cmd is Prewrite ==> (other_fits <==> other is ResultSet),
        cmd is CommitThenGet || cmd is RollbackThenGet ==> (other_fits <==> other is Value),
        cmd is Commit || cmd is Cleanup || cmd is Rollback ==> other_fits,
{
}

/// A command that fails is answered with its error, in the form in which commands of its kind are
/// answered.
pub proof fn law_failure_answer<C, B>(cmd: &Command<C, B>, err: Error, reply: Reply)
    requires
        call_ensures(fail_reply::<C, B>, (cmd, err), reply),
    ensures
        cmd is Get || cmd is CommitThenGet || cmd is RollbackThenGet ==> reply == Reply::Value(
            Err(err),
        ),
        cmd is BatchGet || cmd is Scan ==> reply == Reply::Pairs(Err(err)),
        cmd is Prewrite ==> reply == Reply::Results(Err(err)),
        cmd is Commit || cmd is Cleanup || cmd is Rollback ==> reply == Reply::Unit(Err(err)),
{
}

/// A command is answered in the same form whether it fails or its changes are stored.
pub proof fn law_answer_form<C, B>(
    cmd: &Command<C, B>,
    pr: ProcessResult,
    err: Error,
    stored: Reply,
    failed: Reply,
)
    requires
        call_ensures(stored_reply::<C, B>, (cmd, pr), stored),
        call_ensures(fail_reply::<C, B>, (cmd, err), failed),
    ensures
        stored is Value <==> failed is Value,
        stored is Results <==> failed is Results,
        stored is Unit <==> failed is Unit,
        !(stored is Pairs) && !(failed is Pairs),
{
}

/// A get is answered with the value that was found, with nothing where nothing was, or with the
/// error.
pub proof fn law_get_answer<C, B>(
    cmd: &Command<C, B>,
    value: Result<Option<Value>, TxnError>,
    res: Result<Option<Reply>, TxnError>,
)
    requires
        cmd is Get,
        call_ensures(read_reply::<C, B>, (cmd, TaskOutcome::Get { value }), res),
    ensures
        res matches Ok(Some(reply)) && reply == match value {
            Ok(found) => Reply::Value(Ok(found)),
            Err(err) => Reply::Value(Err(Error::Txn(err))),
        },
{
}

/// A scan is answered with what the scanner gave, item by item, or with the error.
pub proof fn law_scan_answer<C, B>(
    cmd: &Command<C, B>,
    pairs: Result<Vec<Result<KvPair, TxnError>>, TxnError>,
    res: Result<Option<Reply>, TxnError>,
)
    requires
        cmd is Scan,
        call_ensures(read_reply::<C, B>, (cmd, TaskOutcome::Scan { pairs }), res),
    ensures
        pairs matches Err(err) ==> res == Ok::<Option<Reply>, TxnError>(
            Some(Reply::Pairs(Err(Error::Txn(err)))),
        ),
        pairs matches Ok(given) ==> (res matches Ok(Some(Reply::Pairs(Ok(reported))))
            && reported@.len() == given@.len() && forall|i: int|
            0 <= i < given@.len() ==> (#[trigger] reported@[i]) == match given@[i] {
                Ok(pair) => Ok::<KvPair, Error>(pair),
                Err(err) => Err::<KvPair, Error>(Error::Txn(err)),
            }),
{
}

/// Without a scanner a scan ends with the error.
pub proof fn law_no_scanner<C, B>(
    cmd: &Command<C, B>,
    err: TxnError,
    res: Result<Option<Reply>, TxnError>,
    ends: bool,
)
    requires
        cmd is Scan,
        call_ensures(read_reply::<C, B>, (cmd, TaskOutcome::NoScanner { err }), res),
        call_ensures(ends_with_error, (&TaskOutcome::NoScanner { err },), ends),
    ensures
        res == Err::<Option<Reply>, TxnError>(err),
        ends,
{
}

/// A write command is not answered when its changes have been handed over; if its transaction
/// failed, or the engine did not take the changes, it ends with the error.
pub proof fn law_write_goes_on<C, B>(
    cmd: &Command<C, B>,
    result: Result<(), TxnError>,
    res: Result<Option<Reply>, TxnError>,
    ends: bool,
)
    requires
        cmd is Prewrite || cmd is Commit || cmd is CommitThenGet || cmd is Cleanup
            || cmd is Rollback || cmd is RollbackThenGet,
        call_ensures(read_reply::<C, B>, (cmd, TaskOutcome::Write { result }), res),
        call_ensures(ends_with_error, (&TaskOutcome::Write { result },), ends),
    ensures
        result is Ok ==> res == Ok::<Option<Reply>, TxnError>(None),
        result matches Err(err) ==> res == Err::<Option<Reply>, TxnError>(err),
        ends <==> result is Err,
{
}

/// Reading ends no command with an error: what could not be read is answered.
pub proof fn law_reads_are_answered<C, B>(
    cmd: &Command<C, B>,
    outcome: TaskOutcome,
    res: Result<Option<Reply>, TxnError>,
    ends: bool,
)
    requires
        outcome is Get || outcome is BatchGet || outcome is Scan,
        cmd is Get || cmd is BatchGet || cmd is Scan,
        call_ensures(read_reply::<C, B>, (cmd, outcome), res),
        call_ensures(ends_with_error, (&outcome,), ends),
    ensures
        !ends,
        res is Ok && res->Ok_0 is Some,
        outcome is Get ==> res->Ok_0->Some_0 is Value,
        outcome is BatchGet || outcome is Scan ==> res->Ok_0->Some_0 is Pairs,
{
}

/// The engine took the changes of a write command, or its error ends the command.
pub proof fn law_submitted(taken: Result<(), EngineError>, outcome: TaskOutcome)
    requires
        call_ensures(TaskOutcome::submitted, (taken,), outcome),
    ensures
        taken is Ok ==> outcome == (TaskOutcome::Write { result: Ok(()) }),
        taken matches Err(err) ==> outcome == (TaskOutcome::Write {
            result: Err(TxnError::Engine(err)),
        }),
{
}

/// What a command of each kind can get back from its snapshot.
pub proof fn law_outcome_fits<C, B>(cmd: &Command<C, B>, outcome: &TaskOutcome, fits: bool)
    requires
        call_ensures(check_outcome::<C, B>, (cmd, outcome), fits),
    ensures
        cmd is Get ==> (fits <==> outcome is Get),
        cmd is Scan ==> (fits <==> outcome is Scan || outcome is NoScanner),
        cmd is Prewrite || cmd is Commit || cmd is CommitThenGet || cmd is Cleanup
            || cmd is Rollback || cmd is RollbackThenGet ==> (fits <==> outcome is Write),
        cmd is BatchGet && fits ==> outcome is BatchGet,
        cmd matches Command::BatchGet { keys, .. } ==> (
        outcome matches TaskOutcome::BatchGet { raw_keys, values } ==> {
            &&& raw_keys@.len() != keys@.len() ==> !fits
            &&& raw_keys@.len() == keys@.len() && values is Err ==> fits
            &&& (raw_keys@.len() == keys@.len() && values is Ok) ==> (fits <==> forall|i: int|
                0 <= i < keys@.len() && i < values->Ok_0@.len() && (
                #[trigger] values->Ok_0@[i] matches Ok(Some(_))) ==> raw_keys@[i] is Some)
        }),
{
}

/// The lookups, among the first `n`, that found a value or failed.
spec fn told(results: Seq<Result<Option<Value>, TxnError>>, n: int) -> Seq<int>
    decreases n,
{
    if n <= 0 {
        Seq::empty()
    } else if results[n - 1] == Ok::<Option<Value>, TxnError>(None) {
        told(results, n - 1)
    } else {
        told(results, n - 1).push(n - 1)
    }
}

/// `told` lists lookups in ascending order, and misses none; the pairs are made from them.
proof fn lemma_told(
    raw_keys: Seq<Option<Vec<u8>>>,
    results: Seq<Result<Option<Value>, TxnError>>,
    n: int,
)
    requires
        0 <= n <= results.len(),
    ensures
        ({
            let at = told(results, n);
            let pairs = batch_pairs(raw_keys, results, n);
            &&& pairs.len() == at.len()
            &&& forall|j: int|
                0 <= j < at.len() ==> 0 <= #[trigger] at[j] < n && results[at[j]] != Ok::<
                    Option<Value>,
                    TxnError,
                >(None)
            &&& forall|i: int, j: int| 0 <= i < j < at.len() ==> at[i] < at[j]
            &&& forall|i: int|
                0 <= i < n && (#[trigger] results[i]) != Ok::<Option<Value>, TxnError>(None)
                    ==> at.contains(i)
            &&& forall|j: int|
                0 <= j < at.len() ==> (#[trigger] pairs[j]) == match results[at[j]] {
                    Ok(Some(value)) => Ok::<KvPair, Error>((raw_keys[at[j]]->Some_0, value)),
                    Ok(None) => pairs[j],
                    Err(err) => Err::<KvPair, Error>(Error::Txn(err)),
                }
        }),
    decreases n,
{
    if n > 0 {
        lemma_told(raw_keys, results, n - 1);
        let before = told(results, n - 1);
        let at = told(results, n);
        assert forall|i: int|
            0 <= i < n && (#[trigger] results[i]) != Ok::<Option<Value>, TxnError>(
                None,
            ) implies at.contains(i) by {
            if i < n - 1 {
                assert(before.contains(i));
                let j = choose|j: int| 0 <= j < before.len() && before[j] == i;
                assert(at[j] == i);
            } else {
                assert(at.last() == i);
            }
        }
    }
}

/// A batch get is answered with what was found, in the order of the keys: each key that has a value
/// with that value, an error where the lookup failed, and nothing where there was nothing.
pub proof fn law_batch_get_answer<C, B>(
    cmd: &Command<C, B>,
    raw_keys: Vec<Option<Vec<u8>>>,
    results: Vec<Result<Option<Value>, TxnError>>,
    res: Result<Option<Reply>, TxnError>,
) -> (at: Seq<int>)
    requires
        cmd is BatchGet,
        raw_keys@.len() == results@.len(),
        call_ensures(
            read_reply::<C, B>,
            (cmd, TaskOutcome::BatchGet { raw_keys, values: Ok(results) }),
            res,
        ),
    ensures
        res matches Ok(Some(Reply::Pairs(Ok(pairs)))) && {
            &&& pairs@.len() == at.len()
            &&& forall|i: int, j: int| 0 <= i < j < at.len() ==> at[i] < at[j]
            &&& forall|i: int|
                0 <= i < results@.len() ==> (at.contains(i) <==> (#[trigger] results@[i]) != Ok::<
                    Option<Value>,
                    TxnError,
                >(None))
            &&& forall|j: int|
                0 <= j < at.len() ==> 0 <= #[trigger] at[j] < results@.len()
                    && match results@[at[j]] {
                    Ok(Some(value)) => pairs@[j] == Ok::<KvPair, Error>(
                        (raw_keys@[at[j]]->Some_0, value),
                    ),
                    Ok(None) => false,
                    Err(err) => pairs@[j] == Err::<KvPair, Error>(Error::Txn(err)),
                }
        },
{
    let n = results@.len() as int;
    lemma_told(raw_keys@, results@, n);
    let at = told(results@, n);
    assert(paired(raw_keys@, results@) == n);
    assert forall|i: int| 0 <= i < n implies (at.contains(i) <==> (#[trigger] results@[i]) != Ok::<
        Option<Value>,
        TxnError,
    >(None)) by {
        if at.contains(i) {
            let j = choose|j: int| 0 <= j < at.len() && at[j] == i;
            assert(results@[at[j]] != Ok::<Option<Value>, TxnError>(None));
        }
    }
    let pairs = res->Ok_0->Some_0->Pairs_0->Ok_0;
    assert forall|j: int| 0 <= j < at.len() implies 0 <= #[trigger] at[j] < n
        && match results@[at[j]] {
        Ok(Some(value)) => pairs@[j] == Ok::<KvPair, Error>((raw_keys@[at[j]]->Some_0, value)),
        Ok(None) => false,
        Err(err) => pairs@[j] == Err::<KvPair, Error>(Error::Txn(err)),
    } by {
        assert(pairs@[j] == batch_pairs(raw_keys@, results@, n)[j]);
    }
    at
}

/// A batch get pairs lookups with keys as far as there are both, and leaves the rest out.
pub proof fn law_batch_get_as_far_as_both<C, B>(
    cmd: &Command<C, B>,
    raw_keys: Vec<Option<Vec<u8>>>,
    results: Vec<Result<Option<Value>, TxnError>>,
    more_keys: Vec<Option<Vec<u8>>>,
    more_results: Vec<Result<Option<Value>, TxnError>>,
    res: Result<Option<Reply>, TxnError>,
    more_res: Result<Option<Reply>, TxnError>,
)
    requires
        cmd is BatchGet,
        raw_keys@.len() == results@.len(),
        raw_keys@.is_prefix_of(more_keys@),
        results@.is_prefix_of(more_results@),
        raw_keys@.len() == more_keys@.len() || results@.len() == more_results@.len(),
        call_ensures(
            read_reply::<C, B>,
            (cmd, TaskOutcome::BatchGet { raw_keys, values: Ok(results) }),
            res,
        ),
        call_ensures(
            read_reply::<C, B>,
            (cmd, TaskOutcome::BatchGet { raw_keys: more_keys, values: Ok(more_results) }),
            more_res,
        ),
    ensures
        res matches Ok(Some(Reply::Pairs(Ok(pairs)))) && (
        more_res matches Ok(Some(Reply::Pairs(Ok(more_pairs)))) && more_pairs@ == pairs@),
{
    let n = results@.len() as int;
    assert(paired(raw_keys@, results@) == n);
    assert(paired(more_keys@, more_results@) == n);
    lemma_pairs_of_prefix(raw_keys@, results@, more_keys@, more_results@, n);
}

/// The first pairs depend on the first lookups alone.
proof fn lemma_pairs_of_prefix(
    raw_keys: Seq<Option<Vec<u8>>>,
    results: Seq<Result<Option<Value>, TxnError>>,
    more_keys: Seq<Option<Vec<u8>>>,
    more_results: Seq<Result<Option<Value>, TxnError>>,
    n: int,
)
    requires
        0 <= n <= raw_keys.len(),
        n <= results.len(),
        raw_keys.is_prefix_of(more_keys),
        results.is_prefix_of(more_results),
    ensures
        batch_pairs(raw_keys, results, n) == batch_pairs(more_keys, more_results, n),
    decreases n,
{
    if n > 0 {
        lemma_pairs_of_prefix(raw_keys, results, more_keys, more_results, n - 1);
        assert(more_results[n - 1] == results[n - 1]);
        assert(more_keys[n - 1] == raw_keys[n - 1]);
    }
}

/// A batch get whose lookups failed as a whole is answered with the error.
pub proof fn law_batch_get_failed<C, B>(
    cmd: &Command<C, B>,
    raw_keys: Vec<Option<Vec<u8>>>,
    err: TxnError,
    res: Result<Option<Reply>, TxnError>,
)
    requires
        cmd is BatchGet,
        call_ensures(
            read_reply::<C, B>,
            (cmd, TaskOutcome::BatchGet { raw_keys, values: Err(err) }),
            res,
        ),
    ensures
        res == Ok::<Option<Reply>, TxnError>(Some(Reply::Pairs(Err(Error::Txn(err))))),
{
}

} // verus!
