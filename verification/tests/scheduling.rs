use txnsched::command::Command;
use txnsched::error::{EngineError, MvccError, TxnError};
use txnsched::key::{Key, Mutation};
use txnsched::message::{Action, Msg, Tick};
use txnsched::process::{ProcessResult, Reply, SnapshotTask, TaskOutcome, TxnOp, TxnRun};
use txnsched::scheduler::{RunningCtx, Scheduler, REPORT_STATISTIC_INTERVAL};

type Sched = Scheduler<&'static str, u64>;
type Message = Msg<&'static str, u64, ()>;

fn key(bytes: &[u8]) -> Key {
    Key::from_encoded(bytes.to_vec())
}

fn commit(names: &[&[u8]], callback: u64) -> Command<&'static str, u64> {
    Command::Commit {
        ctx: "ctx",
        keys: names.iter().map(|name| key(name)).collect(),
        lock_ts: 1,
        commit_ts: 2,
        callback: Some(callback),
    }
}

fn receive(sched: &mut Sched, cmd: Command<&'static str, u64>) -> Action<u64, ()> {
    let msg: Message = Msg::RawCmd { cmd };
    assert!(sched.check_msg(&msg));
    sched.notify(msg)
}

/// Runs a command with all its latches to its end; returns its callback.
fn finish(sched: &mut Sched, cid: u64) -> u64 {
    assert!(sched.snapshot_finished(cid, Ok(TaskOutcome::submitted(Ok(())))).is_none());
    let msg: Message = Msg::WriteFinish { cid, pr: ProcessResult::Nothing, result: Ok(()) };
    assert!(sched.check_msg(&msg));
    match sched.notify(msg) {
        Action::Reply { answer } => {
            assert!(matches!(answer.reply, Reply::Unit(Ok(()))));
            answer.callback
        }
        other => panic!("{:?}", other),
    }
}

fn running(sched: &Sched) -> usize {
    sched.timeout(Tick::ReportStatistic).running_cmd_count
}

#[test]
fn test_conflicting_commands_run_one_after_the_other() {
    let mut sched: Sched = Scheduler::new(1024);
    assert!(matches!(receive(&mut sched, commit(&[b"x"], 10)), Action::GetSnapshot { cid: 1 }));
    assert!(matches!(receive(&mut sched, commit(&[b"x", b"y"], 20)), Action::Wait));
    assert!(matches!(receive(&mut sched, commit(&[b"x"], 30)), Action::Wait));
    assert!(sched.awaits_answer(1));
    assert!(!sched.awaits_answer(2));
    assert_eq!(*sched.extract_context(1), "ctx");
    assert_eq!(running(&sched), 3);

    assert_eq!(finish(&mut sched, 1), 10);
    assert_eq!(sched.next_wakeup(), Some(2));
    assert_eq!(sched.next_wakeup(), None);
    assert!(!sched.awaits_answer(1));
    assert!(sched.awaits_answer(2));
    assert!(!sched.awaits_answer(3));

    assert_eq!(finish(&mut sched, 2), 20);
    assert_eq!(sched.next_wakeup(), Some(3));
    assert_eq!(sched.next_wakeup(), None);
    assert_eq!(finish(&mut sched, 3), 30);
    assert_eq!(sched.next_wakeup(), None);
    assert_eq!(running(&sched), 0);
}

#[test]
fn test_disjoint_commands_run_at_once() {
    let mut sched: Sched = Scheduler::new(1 << 20);
    assert!(matches!(receive(&mut sched, commit(&[b"a"], 1)), Action::GetSnapshot { cid: 1 }));
    assert!(matches!(receive(&mut sched, commit(&[b"b"], 2)), Action::GetSnapshot { cid: 2 }));
    assert_eq!(finish(&mut sched, 2), 2);
    assert_eq!(finish(&mut sched, 1), 1);
}

#[test]
fn test_one_latch_serves_in_order() {
    let mut sched: Sched = Scheduler::new(1);
    assert!(matches!(receive(&mut sched, commit(&[b"a"], 1)), Action::GetSnapshot { cid: 1 }));
    for i in 2..20u64 {
        assert!(matches!(receive(&mut sched, commit(&[&[i as u8]], i)), Action::Wait));
    }
    for i in 1..20u64 {
        assert_eq!(finish(&mut sched, i), i);
        assert_eq!(sched.next_wakeup(), if i < 19 { Some(i + 1) } else { None });
    }
    assert_eq!(running(&sched), 0);
}

#[test]
fn test_reads_do_not_wait() {
    let mut sched: Sched = Scheduler::new(1);
    assert!(matches!(receive(&mut sched, commit(&[b"a"], 1)), Action::GetSnapshot { cid: 1 }));
    let get = Command::Get { ctx: "get", key: key(b"a"), start_ts: 5, callback: Some(2) };
    assert!(matches!(receive(&mut sched, get), Action::GetSnapshot { cid: 2 }));
    assert_eq!(*sched.extract_context(2), "get");
    match sched.snapshot_task(2) {
        SnapshotTask::Get { start_ts, key: looked_up } => {
            assert_eq!((start_ts, looked_up), (5, &key(b"a")));
        }
        _ => panic!("another task"),
    }
    let outcome = Ok(TaskOutcome::Get { value: Ok(Some(vec![9])) });
    assert!(sched.check_snapshot(2, &outcome));
    assert!(!sched.check_snapshot(1, &outcome));
    assert!(!sched.check_snapshot(3, &outcome));
    let answer = sched.snapshot_finished(2, outcome).unwrap();
    assert_eq!(answer.callback, 2);
    assert!(matches!(answer.reply, Reply::Value(Ok(Some(v))) if v == vec![9]));
    assert_eq!(sched.next_wakeup(), None);
    assert_eq!(running(&sched), 1);
}

#[test]
fn test_no_deadlock_with_keys_in_any_order() {
    let mut sched: Sched = Scheduler::new(16);
    let orders: [&[&[u8]]; 4] =
        [&[b"a", b"b", b"c"], &[b"c", b"b", b"a"], &[b"b", b"c"], &[b"c", b"a"]];
    let mut ready: Vec<u64> = vec![];
    for (i, names) in orders.iter().enumerate() {
        match receive(&mut sched, commit(names, i as u64)) {
            Action::GetSnapshot { cid } => ready.push(cid),
            Action::Wait => {}
            other => panic!("{:?}", other),
        }
    }
    let mut finished = 0;
    while let Some(cid) = ready.pop() {
        finish(&mut sched, cid);
        finished += 1;
        while let Some(cid) = sched.next_wakeup() {
            ready.push(cid);
        }
    }
    assert_eq!(finished, 4);
    assert_eq!(running(&sched), 0);
}

#[test]
fn test_woken_command_may_wait_again() {
    let mut sched: Sched = Scheduler::new(1 << 20);
    // Slots in the order in which a command takes them.
    let mut names: Vec<&[u8]> = vec![b"p", b"q"];
    let slot = |name: &[u8]| sched_slot(name, 1 << 20);
    names.sort_by_key(|name| slot(name));
    let (low, high) = (names[0], names[1]);
    assert!(matches!(receive(&mut sched, commit(&[low], 1)), Action::GetSnapshot { cid: 1 }));
    assert!(matches!(receive(&mut sched, commit(&[high], 2)), Action::GetSnapshot { cid: 2 }));
    assert!(matches!(receive(&mut sched, commit(&[high, low], 3)), Action::Wait));
    assert_eq!(finish(&mut sched, 1), 1);
    // The third command gets the lower latch and waits for the higher one.
    assert_eq!(sched.next_wakeup(), None);
    assert!(!sched.awaits_answer(3));
    assert_eq!(finish(&mut sched, 2), 2);
    assert_eq!(sched.next_wakeup(), Some(3));
    assert_eq!(finish(&mut sched, 3), 3);
}

fn sched_slot(name: &[u8], size: usize) -> usize {
    txnsched::latch::Latches::new(size).calc_index(&key(name))
}

#[test]
fn test_commands_woken_together_go_in_slot_order() {
    let mut sched: Sched = Scheduler::new(1 << 20);
    let mut names: Vec<&[u8]> = vec![b"p", b"q", b"r"];
    names.sort_by_key(|name| sched_slot(name, 1 << 20));
    let all = commit(&names, 1);
    assert!(matches!(receive(&mut sched, all), Action::GetSnapshot { cid: 1 }));
    assert!(matches!(receive(&mut sched, commit(&[names[2]], 2)), Action::Wait));
    assert!(matches!(receive(&mut sched, commit(&[names[0]], 3)), Action::Wait));
    assert!(matches!(receive(&mut sched, commit(&[names[1]], 4)), Action::Wait));
    finish(&mut sched, 1);
    assert_eq!(sched.next_wakeup(), Some(3));
    // The engine refuses a snapshot; whoever waits behind the command is woken up first.
    assert!(matches!(receive(&mut sched, commit(&[names[0]], 5)), Action::Wait));
    let err = EngineError { reason: "no".to_string() };
    assert_eq!(sched.get_snapshot(3, Err(err)).unwrap().callback, 3);
    assert_eq!(sched.next_wakeup(), Some(5));
    assert_eq!(sched.next_wakeup(), Some(4));
    assert_eq!(sched.next_wakeup(), Some(2));
    assert_eq!(sched.next_wakeup(), None);
}

#[test]
fn test_messages_that_cannot_be_taken() {
    let mut sched: Sched = Scheduler::new(0);
    let msg: Message = Msg::RawCmd { cmd: commit(&[b"a"], 1) };
    assert!(!sched.check_msg(&msg));
    let msg: Message = Msg::RawCmd { cmd: commit(&[], 1) };
    assert!(sched.check_msg(&msg));
    assert!(matches!(sched.notify(msg), Action::GetSnapshot { cid: 1 }));
    let msg: Message = Msg::SnapshotFinish { cid: 2, snapshot: Ok(()) };
    assert!(!sched.check_msg(&msg));
    let msg: Message = Msg::SnapshotFinish { cid: 1, snapshot: Ok(()) };
    assert!(sched.check_msg(&msg));
    assert!(matches!(sched.notify(msg), Action::Process { cid: 1, snapshot: () }));

    let cmd = Command::CommitThenGet {
        ctx: "ctx",
        key: key(b"a"),
        lock_ts: 1,
        commit_ts: 2,
        get_ts: 3,
        callback: Some(7),
    };
    let mut sched: Sched = Scheduler::new(1);
    assert!(matches!(receive(&mut sched, cmd), Action::GetSnapshot { cid: 1 }));
    let wrong: Message = Msg::WriteFinish { cid: 1, pr: ProcessResult::Nothing, result: Ok(()) };
    assert!(!sched.check_msg(&wrong));
    let pr = ProcessResult::Value { value: Some(vec![4]) };
    let right: Message = Msg::WriteFinish { cid: 1, pr, result: Ok(()) };
    assert!(sched.check_msg(&right));
    match sched.notify(right) {
        Action::Reply { answer } => {
            assert!(matches!(answer.reply, Reply::Value(Ok(Some(v))) if v == vec![4]));
        }
        other => panic!("{:?}", other),
    }
    let quit: Message = Msg::Quit;
    assert!(sched.check_msg(&quit));
    assert!(matches!(sched.notify(quit), Action::Shutdown));
}

fn locked() -> MvccError {
    MvccError::KeyIsLocked { key: vec![], primary: vec![], ts: 1, reason: "locked".to_string() }
}

#[test]
fn test_operations_of_a_transaction() {
    let cmd: Command<(), ()> = Command::Prewrite {
        ctx: (),
        mutations: vec![
            Mutation::Delete(key(b"a")),
            Mutation::Delete(key(b"b")),
            Mutation::Delete(key(b"c")),
        ],
        primary: b"a".to_vec(),
        start_ts: 42,
        callback: Some(()),
    };
    let run = TxnRun::new(&cmd);
    assert_eq!(run.start_ts(), 42);
    match run.next_op() {
        Some(TxnOp::Prewrite { mutation, primary }) => {
            assert_eq!(mutation.key(), &key(b"a"));
            assert_eq!(primary, &b"a".to_vec());
        }
        other => panic!("{:?}", other),
    }
    let run = run.record(Ok(None)).unwrap().record(Err(locked())).unwrap();
    assert!(run.next_op().is_some());
    let run = run.record(Ok(None)).unwrap();
    assert!(run.next_op().is_none());
    match run.finish() {
        ProcessResult::ResultSet { result } => {
            assert_eq!(result.len(), 3);
            assert!(result[0].is_ok());
            assert!(matches!(result[1], Err(TxnError::Mvcc(MvccError::KeyIsLocked { .. }))));
            assert!(result[2].is_ok());
        }
        other => panic!("{:?}", other),
    }

    // Any failure but a lock ends the command.
    let run = TxnRun::new(&cmd).record(Err(locked())).unwrap();
    let ended = run.record(Err(MvccError::Other("conflict".to_string())));
    assert!(matches!(ended, Err(TxnError::Mvcc(MvccError::Other(_)))));

    let cmd: Command<(), ()> = Command::Commit {
        ctx: (),
        keys: vec![key(b"k")],
        lock_ts: 3,
        commit_ts: 4,
        callback: Some(()),
    };
    let run = TxnRun::new(&cmd);
    assert_eq!(run.start_ts(), 3);
    assert!(matches!(run.next_op(), Some(TxnOp::Commit { commit_ts: 4, .. })));
    assert!(matches!(run.record(Ok(None)).unwrap().finish(), ProcessResult::Nothing));
    // A lock ends a commit.
    let ended = TxnRun::new(&cmd).record(Err(locked()));
    assert!(matches!(ended, Err(TxnError::Mvcc(MvccError::KeyIsLocked { .. }))));
}

#[test]
fn test_keys_without_value_are_left_out() {
    let mut sched: Sched = Scheduler::new(1);
    let cmd = Command::BatchGet {
        ctx: "ctx",
        keys: vec![key(b"a"), key(b"b"), key(b"c")],
        start_ts: 1,
        callback: Some(1),
    };
    assert!(matches!(receive(&mut sched, cmd), Action::GetSnapshot { cid: 1 }));
    let unreadable = Ok(TaskOutcome::BatchGet {
        raw_keys: vec![None, None, None],
        values: Ok(vec![Ok(None), Ok(Some(vec![1])), Ok(None)]),
    });
    assert!(!sched.check_snapshot(1, &unreadable));
    let outcome = Ok(TaskOutcome::BatchGet {
        raw_keys: vec![Some(vec![10]), None, Some(vec![30])],
        values: Ok(vec![
            Ok(Some(vec![1])),
            Ok(None),
            Err(TxnError::Other("lost".to_string())),
        ]),
    });
    assert!(sched.check_snapshot(1, &outcome));
    let answer = sched.snapshot_finished(1, outcome).unwrap();
    match answer.reply {
        Reply::Pairs(Ok(pairs)) => {
            assert_eq!(pairs.len(), 2);
            assert_eq!(pairs[0].as_ref().unwrap(), &(vec![10], vec![1]));
            assert_eq!(pairs[1].as_ref().unwrap_err().description(), "lost");
        }
        other => panic!("{:?}", other),
    }
}

#[test]
fn test_callback_is_needed_for_an_answer_only() {
    let mut sched: Sched = Scheduler::new(1);
    let cmd = Command::Cleanup { ctx: "ctx", key: key(b"a"), start_ts: 1, callback: None };
    assert!(matches!(receive(&mut sched, cmd), Action::GetSnapshot { cid: 1 }));
    assert!(sched.is_running(1) && !sched.is_running(2));
    assert!(!sched.awaits_answer(1));
    assert!(sched.get_snapshot(1, Ok(())).is_none());

    let refused: Message = Msg::SnapshotFinish {
        cid: 1,
        snapshot: Err(EngineError { reason: "no".to_string() }),
    };
    assert!(!sched.check_msg(&refused));
    let msg: Message = Msg::SnapshotFinish { cid: 1, snapshot: Ok(()) };
    assert!(sched.check_msg(&msg));
    assert!(matches!(sched.notify(msg), Action::Process { cid: 1, snapshot: () }));

    let failed = Ok(TaskOutcome::Write { result: Err(TxnError::Other("conflict".to_string())) });
    assert!(!sched.check_snapshot(1, &failed));
    assert!(!sched.check_snapshot(1, &Err(EngineError { reason: "no".to_string() })));
    let stored = Ok(TaskOutcome::submitted(Ok(())));
    assert!(sched.check_snapshot(1, &stored));
    assert!(sched.snapshot_finished(1, stored).is_none());
    assert!(matches!(
        sched.process_cmd_with_snapshot(1, TaskOutcome::submitted(Ok(()))),
        Ok(None)
    ));
    let msg: Message = Msg::WriteFinish { cid: 1, pr: ProcessResult::Nothing, result: Ok(()) };
    assert!(!sched.check_msg(&msg));

    // A read command is answered as soon as its work is done.
    let get = Command::Get { ctx: "get", key: key(b"a"), start_ts: 5, callback: None };
    assert!(matches!(receive(&mut sched, get), Action::GetSnapshot { cid: 2 }));
    let msg: Message = Msg::SnapshotFinish { cid: 2, snapshot: Ok(()) };
    assert!(sched.check_msg(&msg));
    assert!(!sched.check_snapshot(2, &Ok(TaskOutcome::Get { value: Ok(None) })));
}

#[test]
fn test_report() {
    let mut sched: Sched = Scheduler::new(4);
    receive(&mut sched, commit(&[b"a"], 1));
    let report = sched.timeout(Tick::ReportStatistic);
    assert_eq!(report.running_cmd_count, 1);
    assert_eq!(report.delay, 60000);
    assert_eq!(REPORT_STATISTIC_INTERVAL, 60000);
    assert!(matches!(report.next, Tick::ReportStatistic));
}

#[test]
fn test_running_ctx() {
    let mut ctx = RunningCtx::new(5, commit(&[b"a"], 1), vec![3, 8]);
    assert_eq!(ctx.cid, 5);
    assert_eq!(ctx.needed_latches(), &vec![3, 8]);
    assert!(!ctx.all_latches_acquired());
    ctx.owned_latches_count = 2;
    assert!(ctx.all_latches_acquired());
    let sched: Sched = Scheduler::new(8);
    let indices = sched.calc_latches_indices(&commit(&[b"a", b"b", b"a"], 1));
    let mut expected = vec![sched_slot(b"a", 8), sched_slot(b"b", 8)];
    expected.sort();
    expected.dedup();
    assert_eq!(indices, expected);
}

#[test]
fn test_dispatch_and_answer() {
    let mut sched: Sched = Scheduler::new(8);
    let msg: Message = sched.dispatch_cmd(commit(&[b"a"], 77));
    assert!(matches!(sched.notify(msg), Action::GetSnapshot { cid: 1 }));
    let answer = sched.process_failed_cmd(1, TxnError::Other("x".to_string()));
    assert_eq!(answer.callback, 77);
    // Answered, but still there until it is finished.
    assert!(!sched.awaits_answer(1));
    sched.finish_cmd(1);
    assert_eq!(running(&sched), 0);
}
