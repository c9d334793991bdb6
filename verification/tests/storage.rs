use std::cell::RefCell;
use std::collections::{BTreeMap, VecDeque};
use std::rc::Rc;

use txnsched::error::{EngineError, Error, MvccError, TxnError};
use txnsched::key::{Key, KvPair, Mutation, Value};
use txnsched::message::{Action, Msg};
use txnsched::process::{
    Answer, OpOutcome, ProcessResult, Reply, SnapshotTask, TaskOutcome, TxnOp,
};
use txnsched::scheduler::Scheduler;
use txnsched::storage::Storage;

type Callback = Box<dyn FnOnce(Reply)>;
type Message = Msg<(), Callback, Data>;

/// What is stored: for each key its versions, by commit timestamp, and its lock.
#[derive(Clone, Default)]
struct Data {
    versions: BTreeMap<Vec<u8>, BTreeMap<u64, Option<Value>>>,
    locks: BTreeMap<Vec<u8>, (u64, Vec<u8>, Option<Value>)>,
}

fn changed_key(op: &TxnOp) -> Vec<u8> {
    match op {
        TxnOp::Prewrite { mutation, .. } => mutation.key().encoded().clone(),
        TxnOp::Commit { key, .. } => key.encoded().clone(),
        TxnOp::CommitThenGet { key, .. } => key.encoded().clone(),
        TxnOp::Rollback { key } => key.encoded().clone(),
        TxnOp::RollbackThenGet { key } => key.encoded().clone(),
    }
}

fn other(reason: &str) -> MvccError {
    MvccError::Other(reason.to_string())
}

fn locked(key: &[u8], primary: &[u8], ts: u64) -> MvccError {
    MvccError::KeyIsLocked {
        key: key.to_vec(),
        primary: primary.to_vec(),
        ts,
        reason: "locked".to_string(),
    }
}

impl Data {
    fn get(&self, key: &[u8], ts: u64) -> Result<Option<Value>, TxnError> {
        if let Some((start_ts, primary, _)) = self.locks.get(key) {
            if *start_ts <= ts {
                return Err(TxnError::from(locked(key, primary, *start_ts)));
            }
        }
        let versions = self.versions.get(key);
        Ok(versions.and_then(|v| v.range(..=ts).next_back()).and_then(|(_, value)| value.clone()))
    }

    /// Takes over what `data` holds under the changed keys.
    fn store(&mut self, data: &Data, changed: &[Vec<u8>]) {
        for key in changed {
            self.locks.remove(key);
            if let Some(lock) = data.locks.get(key) {
                self.locks.insert(key.clone(), lock.clone());
            }
            if let Some(versions) = data.versions.get(key) {
                self.versions.insert(key.clone(), versions.clone());
            }
        }
    }

    fn apply(&mut self, start_ts: u64, op: TxnOp) -> OpOutcome {
        match op {
            TxnOp::Prewrite { mutation, primary } => {
                let key = mutation.key().encoded().clone();
                if let Some((ts, primary, _)) = self.locks.get(&key) {
                    return Err(locked(&key, primary, *ts));
                }
                let versions = self.versions.get(&key);
                if versions.and_then(|v| v.range(start_ts..).next()).is_some() {
                    return Err(other("write conflict"));
                }
                let value = match mutation {
                    Mutation::Put((_, value)) => Some(value.clone()),
                    _ => None,
                };
                self.locks.insert(key, (start_ts, primary.clone(), value));
                Ok(None)
            }
            TxnOp::Commit { key, commit_ts } => {
                match self.locks.remove(key.encoded()) {
                    Some((ts, _, value)) if ts == start_ts => {
                        let versions = self.versions.entry(key.encoded().clone()).or_default();
                        versions.insert(commit_ts, value);
                        Ok(None)
                    }
                    _ => Err(other("lock not found")),
                }
            }
            TxnOp::Rollback { key } => {
                self.locks.remove(key.encoded());
                Ok(None)
            }
            TxnOp::CommitThenGet { key, commit_ts, get_ts } => {
                self.apply(start_ts, TxnOp::Commit { key, commit_ts })?;
                self.get(key.encoded(), get_ts).map_err(|_| other("locked"))
            }
            TxnOp::RollbackThenGet { key } => {
                self.locks.remove(key.encoded());
                self.get(key.encoded(), start_ts).map_err(|_| other("locked"))
            }
        }
    }
}

/// A storage with its scheduler and an engine in memory, all in one thread.
struct World {
    storage: Storage<u32, u32>,
    scheduler: Scheduler<(), Callback>,
    data: Data,
    inbox: VecDeque<Message>,
}

impl World {
    fn new() -> World {
        let storage = Storage::from_engine(Ok(7)).unwrap();
        World {
            storage,
            scheduler: Scheduler::new(64),
            data: Data::default(),
            inbox: VecDeque::new(),
        }
    }

    fn started() -> World {
        let mut world = World::new();
        assert_eq!(world.storage.start().unwrap(), 7);
        world.storage.started(Ok(1)).unwrap();
        world
    }

    fn send(&mut self, msg: Result<Message, Error>) {
        self.inbox.push_back(msg.unwrap());
    }

    fn get_snapshot(&mut self, cid: u64) {
        assert_eq!(*self.scheduler.extract_context(cid), ());
        assert!(self.scheduler.get_snapshot(cid, Ok(())).is_none());
        self.inbox.push_back(Msg::SnapshotFinish { cid, snapshot: Ok(self.data.clone()) });
    }

    fn process(&mut self, cid: u64, snapshot: Data) -> TaskOutcome {
        match self.scheduler.snapshot_task(cid) {
            SnapshotTask::Get { start_ts, key } => {
                TaskOutcome::Get { value: snapshot.get(key.encoded(), start_ts) }
            }
            SnapshotTask::BatchGet { start_ts, keys } => TaskOutcome::BatchGet {
                raw_keys: keys.iter().map(|key| Some(key.encoded().clone())).collect(),
                values: Ok(keys.iter().map(|key| snapshot.get(key.encoded(), start_ts)).collect()),
            },
            SnapshotTask::Scan { start_ts, start_key, limit } => {
                let mut pairs: Vec<Result<KvPair, TxnError>> = vec![];
                for key in snapshot.versions.keys() {
                    if key >= start_key.encoded() && pairs.len() < limit {
                        match snapshot.get(key, start_ts) {
                            Ok(Some(value)) => pairs.push(Ok((key.clone(), value))),
                            Ok(None) => {}
                            Err(err) => pairs.push(Err(err)),
                        }
                    }
                }
                TaskOutcome::Scan { pairs: Ok(pairs) }
            }
            SnapshotTask::Write(mut run) => {
                let mut data = snapshot;
                let start_ts = run.start_ts();
                let mut changed: Vec<Vec<u8>> = vec![];
                while let Some(op) = run.next_op() {
                    changed.push(changed_key(&op));
                    let outcome = data.apply(start_ts, op);
                    run = match run.record(outcome) {
                        Ok(run) => run,
                        Err(err) => return TaskOutcome::Write { result: Err(err) },
                    };
                }
                let pr = run.finish();
                self.data.store(&data, &changed);
                self.inbox.push_back(Msg::WriteFinish { cid, pr, result: Ok(()) });
                TaskOutcome::submitted(Ok(()))
            }
        }
    }

    /// Takes in every message, and those that follow from it.
    fn run(&mut self) {
        while let Some(msg) = self.inbox.pop_front() {
            assert!(self.scheduler.check_msg(&msg));
            match self.scheduler.notify(msg) {
                Action::Shutdown => return,
                Action::GetSnapshot { cid } => self.get_snapshot(cid),
                Action::Wait => {}
                Action::Process { cid, snapshot } => {
                    let outcome = self.process(cid, snapshot);
                    let outcome = Ok(outcome);
                    assert!(self.scheduler.check_snapshot(cid, &outcome));
                    if let Some(Answer { callback, reply }) =
                        self.scheduler.snapshot_finished(cid, outcome)
                    {
                        callback(reply);
                    }
                }
                Action::Reply { answer } => (answer.callback)(answer.reply),
            }
            while let Some(cid) = self.scheduler.next_wakeup() {
                self.get_snapshot(cid);
            }
        }
    }

    fn stop(&mut self) {
        let quit: Option<Message> = self.storage.quit_msg();
        self.inbox.push_back(quit.unwrap());
        self.run();
        assert_eq!(self.storage.stop(Ok(())).unwrap(), Some(1));
        Storage::<u32, u32>::stopped(Ok(())).unwrap();
    }
}

type Done = Rc<RefCell<u32>>;

fn done() -> Done {
    Rc::new(RefCell::new(0))
}

fn make_key(raw: &[u8]) -> Key {
    Key::from_encoded(raw.to_vec())
}

fn expect_get_none(done: &Done) -> Callback {
    let done = done.clone();
    Box::new(move |reply| match reply {
        Reply::Value(x) => {
            assert_eq!(x.unwrap(), None);
            *done.borrow_mut() += 1;
        }
        other => panic!("{:?}", other),
    })
}

fn expect_get_val(done: &Done, v: Vec<u8>) -> Callback {
    let done = done.clone();
    Box::new(move |reply| match reply {
        Reply::Value(x) => {
            assert_eq!(x.unwrap().unwrap(), v);
            *done.borrow_mut() += 1;
        }
        other => panic!("{:?}", other),
    })
}

fn is_ok(reply: &Reply) -> bool {
    match reply {
        Reply::Value(x) => x.is_ok(),
        Reply::Pairs(x) => x.is_ok(),
        Reply::Results(x) => x.is_ok(),
        Reply::Unit(x) => x.is_ok(),
    }
}

fn expect_ok(done: &Done) -> Callback {
    let done = done.clone();
    Box::new(move |reply| {
        assert!(is_ok(&reply));
        *done.borrow_mut() += 1;
    })
}

fn expect_fail(done: &Done) -> Callback {
    let done = done.clone();
    Box::new(move |reply| {
        assert!(!is_ok(&reply));
        *done.borrow_mut() += 1;
    })
}

fn expect_scan(done: &Done, pairs: Vec<Option<KvPair>>) -> Callback {
    let done = done.clone();
    Box::new(move |reply| match reply {
        Reply::Pairs(rlt) => {
            let rlt: Vec<Option<KvPair>> = rlt.unwrap().into_iter().map(Result::ok).collect();
            assert_eq!(rlt, pairs);
            *done.borrow_mut() += 1;
        }
        other => panic!("{:?}", other),
    })
}

#[test]
fn test_get_put() {
    let mut world = World::started();
    let done = done();
    world.send(world.storage.async_get((), make_key(b"x"), 100, expect_get_none(&done)));
    world.run();
    assert_eq!(*done.borrow(), 1);
    world.send(world.storage.async_prewrite(
        (),
        vec![Mutation::Put((make_key(b"x"), b"100".to_vec()))],
        b"x".to_vec(),
        100,
        expect_ok(&done),
    ));
    world.run();
    assert_eq!(*done.borrow(), 2);
    world.send(world.storage.async_commit((), vec![make_key(b"x")], 100, 101, expect_ok(&done)));
    world.run();
    assert_eq!(*done.borrow(), 3);
    world.send(world.storage.async_get((), make_key(b"x"), 100, expect_get_none(&done)));
    world.run();
    assert_eq!(*done.borrow(), 4);
    let callback = expect_get_val(&done, b"100".to_vec());
    world.send(world.storage.async_get((), make_key(b"x"), 101, callback));
    world.run();
    assert_eq!(*done.borrow(), 5);
    world.stop();
}

#[test]
fn test_scan() {
    let mut world = World::started();
    let done = done();
    world.send(world.storage.async_prewrite(
        (),
        vec![
            Mutation::Put((make_key(b"a"), b"aa".to_vec())),
            Mutation::Put((make_key(b"b"), b"bb".to_vec())),
            Mutation::Put((make_key(b"c"), b"cc".to_vec())),
        ],
        b"a".to_vec(),
        1,
        expect_ok(&done),
    ));
    world.run();
    assert_eq!(*done.borrow(), 1);
    world.send(world.storage.async_commit(
        (),
        vec![make_key(b"a"), make_key(b"b"), make_key(b"c")],
        1,
        2,
        expect_ok(&done),
    ));
    world.run();
    assert_eq!(*done.borrow(), 2);
    world.send(world.storage.async_scan(
        (),
        make_key(b"\x00"),
        1000,
        5,
        expect_scan(
            &done,
            vec![
                Some((b"a".to_vec(), b"aa".to_vec())),
                Some((b"b".to_vec(), b"bb".to_vec())),
                Some((b"c".to_vec(), b"cc".to_vec())),
            ],
        ),
    ));
    world.run();
    assert_eq!(*done.borrow(), 3);
    world.stop();
}

#[test]
fn test_txn() {
    let mut world = World::started();
    let done = done();
    world.send(world.storage.async_prewrite(
        (),
        vec![Mutation::Put((make_key(b"x"), b"100".to_vec()))],
        b"x".to_vec(),
        100,
        expect_ok(&done),
    ));
    world.send(world.storage.async_prewrite(
        (),
        vec![Mutation::Put((make_key(b"y"), b"101".to_vec()))],
        b"y".to_vec(),
        101,
        expect_ok(&done),
    ));
    world.run();
    assert_eq!(*done.borrow(), 2);
    world.send(world.storage.async_commit((), vec![make_key(b"x")], 100, 110, expect_ok(&done)));
    world.send(world.storage.async_commit((), vec![make_key(b"y")], 101, 111, expect_ok(&done)));
    world.run();
    assert_eq!(*done.borrow(), 4);
    let callback = expect_get_val(&done, b"100".to_vec());
    world.send(world.storage.async_get((), make_key(b"x"), 120, callback));
    let callback = expect_get_val(&done, b"101".to_vec());
    world.send(world.storage.async_get((), make_key(b"y"), 120, callback));
    world.run();
    assert_eq!(*done.borrow(), 6);
    world.send(world.storage.async_prewrite(
        (),
        vec![Mutation::Put((make_key(b"x"), b"105".to_vec()))],
        b"x".to_vec(),
        105,
        expect_fail(&done),
    ));
    world.run();
    assert_eq!(*done.borrow(), 7);
    world.stop();
}

#[test]
fn test_commit_then_get_and_rollback_then_get() {
    let mut world = World::started();
    let done = done();
    world.send(world.storage.async_prewrite(
        (),
        vec![Mutation::Put((make_key(b"x"), b"1".to_vec())), Mutation::Delete(make_key(b"y"))],
        b"x".to_vec(),
        10,
        expect_ok(&done),
    ));
    world.run();
    let callback = expect_get_val(&done, b"1".to_vec());
    world.send(world.storage.async_commit_then_get((), make_key(b"x"), 10, 11, 12, callback));
    world.run();
    let callback = expect_get_none(&done);
    world.send(world.storage.async_rollback_then_get((), make_key(b"y"), 10, callback));
    world.run();
    world.send(world.storage.async_cleanup((), make_key(b"y"), 10, expect_ok(&done)));
    world.run();
    let keys = vec![make_key(b"y"), make_key(b"z")];
    world.send(world.storage.async_rollback((), keys, 10, expect_ok(&done)));
    world.run();
    let keys = vec![make_key(b"x"), make_key(b"y"), make_key(b"x")];
    let found = Some((b"x".to_vec(), b"1".to_vec()));
    let callback = expect_scan(&done, vec![found.clone(), found]);
    world.send(world.storage.async_batch_get((), keys, 20, callback));
    world.run();
    assert_eq!(*done.borrow(), 6);
    world.stop();
}

#[test]
fn test_locked_key_is_reported_among_the_results() {
    let mut world = World::started();
    let done = done();
    world.send(world.storage.async_prewrite(
        (),
        vec![Mutation::Lock(make_key(b"a"))],
        b"a".to_vec(),
        1,
        expect_ok(&done),
    ));
    world.run();
    let seen = done.clone();
    let callback: Callback = Box::new(move |reply| match reply {
        Reply::Results(Ok(results)) => {
            assert_eq!(results.len(), 2);
            match &results[0] {
                Err(Error::Txn(TxnError::Mvcc(MvccError::KeyIsLocked {
                    key,
                    primary,
                    ts,
                    ..
                }))) => {
                    assert_eq!((&key[..], &primary[..], *ts), (&b"a"[..], &b"a"[..], 1));
                }
                other => panic!("{:?}", other),
            }
            assert!(results[1].is_ok());
            *seen.borrow_mut() += 1;
        }
        other => panic!("{:?}", other),
    });
    world.send(world.storage.async_prewrite(
        (),
        vec![Mutation::Delete(make_key(b"a")), Mutation::Delete(make_key(b"b"))],
        b"a".to_vec(),
        2,
        callback,
    ));
    world.run();
    assert_eq!(*done.borrow(), 2);
    world.stop();
}

#[test]
fn test_closed_storage_refuses_commands() {
    let mut world = World::new();
    let refused: Result<Message, Error> =
        world.storage.async_get((), make_key(b"x"), 1, Box::new(|_| {}));
    assert!(matches!(refused, Err(Error::Closed)));
    assert!(!world.storage.is_running());
    assert_eq!(world.storage.stop(Ok(())).unwrap(), None);

    world.storage.start().unwrap();
    world.storage.started(Ok(1)).unwrap();
    assert!(world.storage.is_running());
    assert!(!world.storage.can_start());
    match world.storage.start() {
        Err(Error::Other(reason)) => assert_eq!(reason, "scheduler is already running"),
        other => panic!("{:?}", other),
    }

    match world.storage.stop(Err("full".to_string())) {
        Err(Error::Other(reason)) => assert_eq!(reason, "full"),
        other => panic!("{:?}", other),
    }
    assert!(world.storage.is_running());
    world.stop();
    let refused: Result<Message, Error> =
        world.storage.async_cleanup((), make_key(b"x"), 1, Box::new(|_| {}));
    assert!(matches!(refused, Err(Error::Closed)));
}

#[test]
fn test_storage_failures() {
    let storage: Result<Storage<u32, u32>, Error> = Storage::from_engine(Err("no".to_string()));
    assert!(matches!(storage, Err(Error::Io(reason)) if reason == "no"));
    let mut storage: Storage<u32, u32> = Storage::from_engine(Ok(3)).unwrap();
    assert!(storage.can_start());
    assert_eq!(storage.start().unwrap(), 3);
    let spawned = storage.started(Err("threads".to_string()));
    assert!(matches!(spawned, Err(Error::Io(reason)) if reason == "threads"));
    assert!(!storage.is_running());
    assert!(!storage.can_start());
    match Storage::<u32, u32>::stopped(Err("panicked".to_string())) {
        Err(Error::Other(text)) => assert_eq!(text, "failed to join sched_handle, err:panicked"),
        other => panic!("{:?}", other),
    }
}

#[test]
fn test_engine_failures_are_answered() {
    let mut scheduler: Scheduler<(), u32> = Scheduler::new(4);
    let engine = || EngineError { reason: "disk".to_string() };
    let storage: Storage<u32, u32> = {
        let mut storage = Storage::from_engine(Ok(0)).unwrap();
        storage.start().unwrap();
        storage.started(Ok(0)).unwrap();
        storage
    };
    // No snapshot can be asked for.
    let msg: Msg<(), u32, ()> = storage.async_get((), make_key(b"a"), 1, 11).unwrap();
    assert!(matches!(scheduler.notify(msg), Action::GetSnapshot { cid: 1 }));
    let answer = scheduler.get_snapshot(1, Err(engine())).unwrap();
    assert_eq!(answer.callback, 11);
    assert!(matches!(answer.reply, Reply::Value(Err(Error::Txn(TxnError::Engine(_))))));
    // No snapshot comes.
    let msg: Msg<(), u32, ()> = storage.async_scan((), make_key(b"a"), 1, 1, 12).unwrap();
    assert!(matches!(scheduler.notify(msg), Action::GetSnapshot { cid: 2 }));
    let msg: Msg<(), u32, ()> = Msg::SnapshotFinish { cid: 2, snapshot: Err(engine()) };
    match scheduler.notify(msg) {
        Action::Reply { answer } => {
            assert_eq!(answer.callback, 12);
            assert!(matches!(answer.reply, Reply::Pairs(Err(Error::Txn(TxnError::Engine(_))))));
        }
        other => panic!("{:?}", other),
    }
    // The changes are not stored.
    let keys = vec![make_key(b"a")];
    let msg: Msg<(), u32, ()> = storage.async_commit((), keys, 1, 2, 13).unwrap();
    assert!(matches!(scheduler.notify(msg), Action::GetSnapshot { cid: 3 }));
    let outcome = TaskOutcome::submitted(Ok(()));
    assert!(scheduler.snapshot_finished(3, Ok(outcome)).is_none());
    let msg: Msg<(), u32, ()> =
        Msg::WriteFinish { cid: 3, pr: ProcessResult::Nothing, result: Err(engine()) };
    match scheduler.notify(msg) {
        Action::Reply { answer } => {
            assert_eq!(answer.callback, 13);
            assert!(matches!(answer.reply, Reply::Unit(Err(Error::Engine(_)))));
        }
        other => panic!("{:?}", other),
    }
    // The engine refuses the changes.
    let msg: Msg<(), u32, ()> = storage.async_rollback((), vec![], 1, 14).unwrap();
    assert!(matches!(scheduler.notify(msg), Action::GetSnapshot { cid: 4 }));
    let outcome = TaskOutcome::submitted(Err(engine()));
    let answer = scheduler.snapshot_finished(4, Ok(outcome)).unwrap();
    assert_eq!(answer.callback, 14);
    assert!(matches!(answer.reply, Reply::Unit(Err(Error::Txn(TxnError::Engine(_))))));
    // The scan has no scanner.
    let msg: Msg<(), u32, ()> = storage.async_scan((), make_key(b"a"), 1, 1, 15).unwrap();
    assert!(matches!(scheduler.notify(msg), Action::GetSnapshot { cid: 5 }));
    let outcome = TaskOutcome::NoScanner { err: TxnError::Other("none".to_string()) };
    let answer = scheduler.snapshot_finished(5, Ok(outcome)).unwrap();
    assert_eq!(answer.callback, 15);
    assert!(matches!(answer.reply, Reply::Pairs(Err(Error::Txn(TxnError::Other(_))))));
}
