#![allow(deprecated)]

use std::hash::{Hash, Hasher, SipHasher};

use txnsched::key::Key;
use txnsched::latch::{Latch, Latches};

fn key(bytes: &[u8]) -> Key {
    Key::from_encoded(bytes.to_vec())
}

fn sip_slot(bytes: &[u8], size: usize) -> usize {
    let mut hasher = SipHasher::new();
    bytes.to_vec().hash(&mut hasher);
    (hasher.finish() as usize) % size
}

#[test]
fn test_wakeup_cmd() {
    let mut latches = Latches::new(256);

    let indices_a: Vec<usize> = vec![1, 3, 5];
    let indices_b: Vec<usize> = vec![4, 5, 6];
    let cid_a: u64 = 1;
    let cid_b: u64 = 2;

    let acquired_a: usize = latches.acquire_by_indices(&indices_a, cid_a);
    assert_eq!(acquired_a, 3);

    let acquired_b: usize = latches.acquire_by_indices(&indices_b, cid_b);
    assert_eq!(acquired_b, 1);

    let wakeup = latches.release_by_indices(&indices_a, cid_a);
    assert_eq!(wakeup[0], cid_b);
}

#[test]
fn test_woken_command_goes_on() {
    let mut latches = Latches::new(8);
    assert_eq!(latches.acquire_by_indices(&[1, 3], 1), 2);
    assert_eq!(latches.acquire_by_indices(&[0, 3, 4], 2), 1);
    assert_eq!(latches.release_by_indices(&[1, 3], 1), vec![2]);
    // The rest of what the second command needs, now that it is at the front of slot 3.
    assert_eq!(latches.acquire_by_indices(&[3, 4], 2), 2);
    assert_eq!(latches.release_by_indices(&[0, 3, 4], 2), Vec::<u64>::new());
}

#[test]
fn test_first_come_first_served() {
    let mut latches = Latches::new(4);
    assert_eq!(latches.acquire_by_indices(&[2], 10), 1);
    assert_eq!(latches.acquire_by_indices(&[2], 30), 0);
    assert_eq!(latches.acquire_by_indices(&[2], 20), 0);
    // Asking again gives no better place and no second one.
    assert_eq!(latches.acquire_by_indices(&[2], 20), 0);
    assert_eq!(latches.release_by_indices(&[2], 10), vec![30]);
    assert_eq!(latches.acquire_by_indices(&[2], 30), 1);
    assert_eq!(latches.release_by_indices(&[2], 30), vec![20]);
    assert_eq!(latches.release_by_indices(&[2], 20), Vec::<u64>::new());
}

#[test]
fn test_acquire_again_changes_nothing() {
    let mut latches = Latches::new(4);
    assert_eq!(latches.acquire_by_indices(&[0, 1], 1), 2);
    assert_eq!(latches.acquire_by_indices(&[0, 1], 1), 2);
    assert_eq!(latches.release_by_indices(&[0, 1], 1), Vec::<u64>::new());
    // All free again.
    assert_eq!(latches.acquire_by_indices(&[0, 1], 2), 2);
}

#[test]
fn test_acquire_stops_before_a_missing_slot() {
    let mut latches = Latches::new(2);
    assert_eq!(latches.acquire_by_indices(&[0], 1), 1);
    // Slot 7 does not exist, but is not reached.
    assert_eq!(latches.acquire_by_indices(&[0, 7], 2), 0);
}

#[test]
fn test_wakeup_list_in_slot_order() {
    let mut latches = Latches::new(8);
    assert_eq!(latches.acquire_by_indices(&[1, 2, 5], 1), 3);
    assert_eq!(latches.acquire_by_indices(&[5], 2), 0);
    assert_eq!(latches.acquire_by_indices(&[1], 3), 0);
    assert_eq!(latches.release_by_indices(&[1, 2, 5], 1), vec![3, 2]);
}

#[test]
fn test_nothing_to_take() {
    let mut latches = Latches::new(0);
    assert_eq!(latches.size(), 0);
    assert_eq!(latches.acquire_by_indices(&[], 1), 0);
    assert_eq!(latches.release_by_indices(&[], 1), Vec::<u64>::new());
    assert_eq!(latches.calc_latches_indices(&[]), Vec::<usize>::new());
    let _ = Latch::new();
}

#[test]
fn test_index_is_the_sip_hash() {
    for size in [1usize, 7, 256, 10240] {
        let latches = Latches::new(size);
        for bytes in [&b""[..], b"a", b"x", b"key", b"\x00\xff", b"0123456789abcdef"] {
            assert_eq!(latches.calc_index(&key(bytes)), sip_slot(bytes, size));
        }
    }
}

#[test]
fn test_indices_sorted_and_deduplicated() {
    let latches = Latches::new(10240);
    let names: Vec<Vec<u8>> = (0u8..40).map(|i| vec![b'k', i]).collect();
    let keys: Vec<Key> = names.iter().map(|name| key(name)).collect();
    let mut expected: Vec<usize> = names.iter().map(|name| sip_slot(name, 10240)).collect();
    expected.sort();
    expected.dedup();

    let forward: Vec<&Key> = keys.iter().collect();
    assert_eq!(latches.calc_latches_indices(&forward), expected);

    let mut twice_backward: Vec<&Key> = keys.iter().rev().collect();
    twice_backward.extend(keys.iter());
    assert_eq!(latches.calc_latches_indices(&twice_backward), expected);

    let one_slot = Latches::new(1);
    assert_eq!(one_slot.calc_latches_indices(&forward), vec![0]);
}
