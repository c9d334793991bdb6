use txnsched::command::Command;
use txnsched::error::{EngineError, Error, MvccError, TxnError};
use txnsched::key::{Key, Mutation};

type Cmd = Command<(), u32>;

fn key(bytes: &[u8]) -> Key {
    Key::from_encoded(bytes.to_vec())
}

fn all_commands() -> Vec<Cmd> {
    vec![
        Command::Get { ctx: (), key: key(b"k1"), start_ts: 5, callback: Some(1) },
        Command::BatchGet { ctx: (), keys: vec![key(b"a"), key(b"b")], start_ts: 6, callback: Some(2) },
        Command::Scan { ctx: (), start_key: key(b"s"), limit: 1000, start_ts: 7, callback: Some(3) },
        Command::Prewrite {
            ctx: (),
            mutations: vec![
                Mutation::Put((key(b"p"), b"v".to_vec())),
                Mutation::Delete(key(b"d")),
                Mutation::Lock(key(b"l")),
            ],
            primary: b"p".to_vec(),
            start_ts: 8,
            callback: Some(4),
        },
        Command::Commit { ctx: (), keys: vec![key(b"c")], lock_ts: 9, commit_ts: 10, callback: Some(5) },
        Command::CommitThenGet {
            ctx: (),
            key: key(&[7, 120]),
            lock_ts: 11,
            commit_ts: 12,
            get_ts: 13,
            callback: Some(6),
        },
        Command::Cleanup { ctx: (), key: key(b"z\n\"\\\t\r\x01\xff "), start_ts: 14, callback: Some(7) },
        Command::Rollback { ctx: (), keys: vec![], start_ts: 15, callback: Some(8) },
        Command::RollbackThenGet { ctx: (), key: key(b"r"), lock_ts: u64::MAX, callback: Some(9) },
    ]
}

#[test]
fn test_readonly() {
    let readonly: Vec<bool> = all_commands().iter().map(|cmd| cmd.readonly()).collect();
    assert_eq!(readonly, vec![true, true, true, false, false, false, false, false, false]);
}

#[test]
fn test_command_text() {
    let lines: Vec<String> = all_commands().iter().map(|cmd| cmd.to_string()).collect();
    assert_eq!(
        lines,
        vec![
            "kv::command::get k1 @ 5",
            "kv::command_batch_get 2 @ 6",
            "kv::command::scan s(1000) @ 7",
            "kv::command::prewrite mutations(3) @ 8",
            "kv::command::commit 1 9 -> 10",
            "kv::command::commit_then_get Key([7, 120]) 11 -> 12 @ 13",
            "kv::command::cleanup z\\n\\\"\\\\\\t\\r\\001\\377  @ 14",
            "kv::command::rollback keys(0) @ 15",
            "kv::rollback_then_get r @ 18446744073709551615",
        ]
    );
}

#[test]
fn test_latch_keys() {
    let names: Vec<Vec<Vec<u8>>> = all_commands()
        .iter()
        .map(|cmd| cmd.latch_keys().iter().map(|key| key.encoded().clone()).collect())
        .collect();
    assert_eq!(names[0], Vec::<Vec<u8>>::new());
    assert_eq!(names[1], Vec::<Vec<u8>>::new());
    assert_eq!(names[2], Vec::<Vec<u8>>::new());
    assert_eq!(names[3], vec![b"p".to_vec(), b"d".to_vec(), b"l".to_vec()]);
    assert_eq!(names[4], vec![b"c".to_vec()]);
    assert_eq!(names[5], vec![vec![7, 120]]);
    assert_eq!(names[7], Vec::<Vec<u8>>::new());
    assert_eq!(names[8], vec![b"r".to_vec()]);
}

#[test]
fn test_callback_is_taken_once() {
    for (i, mut cmd) in all_commands().into_iter().enumerate() {
        let text = cmd.to_string();
        assert!(cmd.has_callback());
        assert_eq!(cmd.take_callback(), Some(i as u32 + 1));
        assert!(!cmd.has_callback());
        assert_eq!(cmd.take_callback(), None);
        assert_eq!(cmd.to_string(), text);
    }
}

#[test]
fn test_mutation_key() {
    let put = Mutation::Put((key(b"a"), b"v".to_vec()));
    assert_eq!(put.key(), &key(b"a"));
    assert_eq!(Mutation::Delete(key(b"b")).key(), &key(b"b"));
    assert_eq!(Mutation::Lock(key(b"c")).key(), &key(b"c"));
    match put.clone() {
        Mutation::Put((k, v)) => assert_eq!((k, v), (key(b"a"), b"v".to_vec())),
        other => panic!("{:?}", other),
    }
}

#[test]
fn test_error_descriptions() {
    let engine = || EngineError { reason: "disk".to_string() };
    let locked = || MvccError::KeyIsLocked {
        key: vec![1],
        primary: vec![2],
        ts: 3,
        reason: "locked by 3".to_string(),
    };
    assert_eq!(Error::Closed.description(), "storage is closed.");
    assert_eq!(Error::from(engine()).description(), "disk");
    assert_eq!(Error::from(TxnError::from(engine())).description(), "disk");
    assert_eq!(Error::from(TxnError::from(locked())).description(), "locked by 3");
    assert_eq!(MvccError::Other("conflict".to_string()).description(), "conflict");
    assert_eq!(TxnError::Other("why".to_string()).description(), "why");
    assert_eq!(Error::Other("x".to_string()).description(), "x");
    assert_eq!(Error::Io("y".to_string()).description(), "y");
}
