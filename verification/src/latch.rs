//! Latches: a fixed table of first-come first-served queues.

use crate::hasher::hash_bytes;
use crate::hasher::hash_of;
use crate::key::Key;
use std::collections::{BTreeSet, VecDeque};
use vstd::prelude::*;

verus! {

/// Whether `who` may hold the latch with this queue: nobody is queued, or `who` is at the front.
pub open spec fn free_for(queue: Seq<u64>, who: u64) -> bool {
    queue.len() == 0 || queue[0] == who
}

/// Whether one of the first `n` entries of `indices` is the slot `slot`.
pub open spec fn names_slot(indices: Seq<usize>, n: int, slot: int) -> bool {
    exists|j: int| 0 <= j < n && #[trigger] indices[j] == slot
}

/// How many leading slots of `indices` are free for `who`.
pub open spec fn leading_free(queues: Seq<Seq<u64>>, indices: Seq<usize>, who: u64) -> nat
    decreases indices.len(),
{
    if indices.len() > 0 && free_for(queues[indices[0] as int], who) {
        1 + leading_free(queues, indices.drop_first(), who)
    } else {
        0
    }
}

/// Whether every slot that an acquisition of `indices` looks at exists: the leading free ones and
/// the first that is not free.
pub open spec fn visits_exist(queues: Seq<Seq<u64>>, indices: Seq<usize>, who: u64) -> bool {
    forall|j: int|
        0 <= j < indices.len() && (forall|i: int|
            0 <= i < j ==> free_for(queues[#[trigger] indices[i] as int], who)) ==> (
        #[trigger] indices[j]) < queues.len()
}

/// The queues once `who` has tried to take the latches of `indices` in order: an empty queue that
/// it reaches holds `who` alone, and it is queued at the first slot that another command holds.
pub open spec fn after_acquire(
    queues: Seq<Seq<u64>>,
    indices: Seq<usize>,
    who: u64,
) -> Seq<Seq<u64>> {
    let n = leading_free(queues, indices, who) as int;
    Seq::new(
        queues.len(),
        |s: int|
            if names_slot(indices, n, s) && queues[s].len() == 0 {
                seq![who]
            } else if n < indices.len() && indices[n] == s && !queues[s].contains(who) {
                queues[s].push(who)
            } else {
                queues[s]
            },
    )
}

/// Whether `who` is at the front of every slot of `indices`.
pub open spec fn holds_all(queues: Seq<Seq<u64>>, indices: Seq<usize>, who: u64) -> bool {
    forall|j: int|
        0 <= j < indices.len() ==> (#[trigger] indices[j]) < queues.len()
            && queues[indices[j] as int].len() > 0 && queues[indices[j] as int][0] == who
}

/// The queues once the front of every slot of `indices` has left.
pub open spec fn after_release(queues: Seq<Seq<u64>>, indices: Seq<usize>) -> Seq<Seq<u64>> {
    Seq::new(
        queues.len(),
        |s: int|
            if names_slot(indices, indices.len() as int, s) {
                queues[s].drop_first()
            } else {
                queues[s]
            },
    )
}

/// Who is second in line at the slots of `indices`, in the order of `indices`.
pub open spec fn next_in_line(queues: Seq<Seq<u64>>, indices: Seq<usize>) -> Seq<u64>
    decreases indices.len(),
{
    if indices.len() == 0 {
        Seq::empty()
    } else {
        let before = next_in_line(queues, indices.drop_last());
        let queue = queues[indices.last() as int];
        if queue.len() > 1 {
            before.push(queue[1])
        } else {
            before
        }
    }
}

/// The slot of a key in a table of `size` latches.
pub open spec fn slot_of(key: Seq<u8>, size: int) -> int {
    (hash_of(key) as usize) as int % size
}

/// Whether the slots are listed in ascending order, none of them twice.
pub open spec fn ascending(slots: Seq<usize>) -> bool {
    forall|i: int, j: int| 0 <= i < j < slots.len() ==> slots[i] < slots[j]
}

/// Whether `slot` is the slot of one of `keys`.
pub open spec fn some_key_at(keys: Seq<Seq<u8>>, size: int, slot: int) -> bool {
    exists|i: int| 0 <= i < keys.len() && slot == slot_of(#[trigger] keys[i], size)
}

/// Whether `slots` lists the slots of `keys`, and no other, in ascending order.
pub open spec fn lists_slots(slots: Seq<usize>, keys: Seq<Seq<u8>>, size: int) -> bool {
    &&& ascending(slots)
    &&& forall|i: int|
        0 <= i < keys.len() ==> names_slot(
            slots,
            slots.len() as int,
            slot_of(#[trigger] keys[i], size),
        )
    &&& forall|j: int|
        0 <= j < slots.len() ==> some_key_at(keys, size, #[trigger] slots[j] as int)
}

/// The slots of `keys`, in ascending order, each once.
pub open spec fn slots_of(keys: Seq<Seq<u8>>, size: int) -> Seq<usize> {
    choose|slots: Seq<usize>| lists_slots(slots, keys, size)
}

/// Two ascending lists of the same slots are equal.
proof fn lemma_ascending_unique(a: Seq<usize>, b: Seq<usize>)
    requires
        ascending(a),
        ascending(b),
        forall|j: int| 0 <= j < a.len() ==> names_slot(b, b.len() as int, #[trigger] a[j] as int),
        forall|j: int| 0 <= j < b.len() ==> names_slot(a, a.len() as int, #[trigger] b[j] as int),
    ensures
        a == b,
    decreases a.len(),
{
    if a.len() == 0 {
        if b.len() > 0 {
            assert(names_slot(a, 0, b[0] as int));
        }
        assert(a =~= b);
    } else {
        assert(names_slot(b, b.len() as int, a[0] as int));
        let at_b = choose|j: int| 0 <= j < b.len() && b[j] == a.last();
        let at_a = choose|j: int| 0 <= j < a.len() && a[j] == b.last();
        assert(names_slot(b, b.len() as int, a[a.len() - 1] as int));
        assert(names_slot(a, a.len() as int, b[b.len() - 1] as int));
        assert(a.last() == b.last());
        let (c, d) = (a.drop_last(), b.drop_last());
        assert forall|j: int| 0 <= j < c.len() implies names_slot(
            d,
            d.len() as int,
            #[trigger] c[j] as int,
        ) by {
            assert(names_slot(b, b.len() as int, a[j] as int));
            let k = choose|k: int| 0 <= k < b.len() && b[k] == a[j];
            assert(d[k] == c[j]);
        }
        assert forall|j: int| 0 <= j < d.len() implies names_slot(
            c,
            c.len() as int,
            #[trigger] d[j] as int,
        ) by {
            assert(names_slot(a, a.len() as int, b[j] as int));
            let k = choose|k: int| 0 <= k < a.len() && a[k] == b[j];
            assert(c[k] == d[j]);
        }
        lemma_ascending_unique(c, d);
        assert(a =~= c.push(a.last()));
        assert(b =~= d.push(b.last()));
    }
}

/// The slots of `keys` below `bound`, in ascending order.
spec fn slots_below(keys: Seq<Seq<u8>>, size: int, bound: nat) -> Seq<usize>
    decreases bound,
{
    if bound == 0 {
        Seq::empty()
    } else {
        let lower = slots_below(keys, size, (bound - 1) as nat);
        if some_key_at(keys, size, bound - 1) {
            lower.push((bound - 1) as usize)
        } else {
            lower
        }
    }
}

proof fn lemma_slots_below(keys: Seq<Seq<u8>>, size: int, bound: nat)
    requires
        bound <= usize::MAX,
    ensures
        ascending(slots_below(keys, size, bound)),
        forall|j: int|
            0 <= j < slots_below(keys, size, bound).len() ==> (#[trigger] slots_below(
                keys,
                size,
                bound,
            )[j]) < bound && some_key_at(keys, size, slots_below(keys, size, bound)[j] as int),
        forall|i: int|
            0 <= i < keys.len() && 0 <= slot_of(#[trigger] keys[i], size) < bound ==> names_slot(
                slots_below(keys, size, bound),
                slots_below(keys, size, bound).len() as int,
                slot_of(keys[i], size),
            ),
    decreases bound,
{
    if bound > 0 {
        lemma_slots_below(keys, size, (bound - 1) as nat);
        let lower = slots_below(keys, size, (bound - 1) as nat);
        let slots = slots_below(keys, size, bound);
        assert forall|j: int| 0 <= j < slots.len() implies (#[trigger] slots[j]) < bound
            && some_key_at(keys, size, slots[j] as int) by {
            if j < lower.len() {
                assert(slots[j] == lower[j]);
            }
        }
        assert forall|i: int|
            0 <= i < keys.len() && 0 <= slot_of(
                #[trigger] keys[i],
                size,
            ) < bound implies names_slot(slots, slots.len() as int, slot_of(keys[i], size)) by {
            let slot = slot_of(keys[i], size);
            if slot == bound - 1 {
                assert(slots[lower.len() as int] == slot);
            } else {
                assert(names_slot(lower, lower.len() as int, slot));
                let j = choose|j: int| 0 <= j < lower.len() && lower[j] == slot;
                assert(slots[j] == slot);
            }
        }
    }
}

/// `slots_of` lists the slots of the keys, and each of them is a slot of the table.
pub proof fn lemma_slots_of(keys: Seq<Seq<u8>>, size: int)
    requires
        0 <= size <= usize::MAX,
        size > 0 || keys.len() == 0,
    ensures
        lists_slots(slots_of(keys, size), keys, size),
        forall|j: int|
            0 <= j < slots_of(keys, size).len() ==> (#[trigger] slots_of(keys, size)[j]) < size,
{
    let witness = slots_below(keys, size, size as nat);
    lemma_slots_below(keys, size, size as nat);
    assert forall|i: int| 0 <= i < keys.len() implies names_slot(
        witness,
        witness.len() as int,
        slot_of(#[trigger] keys[i], size),
    ) by {
        assert(0 <= slot_of(keys[i], size) < size);
    }
    assert(lists_slots(witness, keys, size));
    let slots = slots_of(keys, size);
    assert forall|j: int| 0 <= j < slots.len() implies (#[trigger] slots[j]) < size by {
        assert(some_key_at(keys, size, slots[j] as int));
        let i = choose|i: int|
            0 <= i < keys.len() && slots[j] == slot_of(#[trigger] keys[i], size);
        assert(slot_of(keys[i], size) < size);
    }
}

/// Whatever lists the slots of `keys` in ascending order is `slots_of(keys, size)`.
pub proof fn lemma_slots_of_is(slots: Seq<usize>, keys: Seq<Seq<u8>>, size: int)
    requires
        lists_slots(slots, keys, size),
    ensures
        slots == slots_of(keys, size),
{
    lemma_same_keys_same_slots(slots, keys, slots_of(keys, size), keys, size);
}

/// Lists of the slots of the same keys are equal, in whatever order and however often the keys
/// are given.
pub proof fn lemma_same_keys_same_slots(
    a: Seq<usize>,
    a_keys: Seq<Seq<u8>>,
    b: Seq<usize>,
    b_keys: Seq<Seq<u8>>,
    size: int,
)
    requires
        lists_slots(a, a_keys, size),
        lists_slots(b, b_keys, size),
        forall|key: Seq<u8>| a_keys.contains(key) <==> b_keys.contains(key),
    ensures
        a == b,
{
    assert forall|j: int| 0 <= j < a.len() implies names_slot(
        b,
        b.len() as int,
        #[trigger] a[j] as int,
    ) by {
        assert(some_key_at(a_keys, size, a[j] as int));
        let i = choose|i: int| 0 <= i < a_keys.len() && a[j] == slot_of(#[trigger] a_keys[i], size);
        assert(a_keys.contains(a_keys[i]));
        let k = choose|k: int| 0 <= k < b_keys.len() && b_keys[k] == a_keys[i];
        assert(names_slot(b, b.len() as int, slot_of(b_keys[k], size)));
    }
    assert forall|j: int| 0 <= j < b.len() implies names_slot(
        a,
        a.len() as int,
        #[trigger] b[j] as int,
    ) by {
        assert(some_key_at(b_keys, size, b[j] as int));
        let i = choose|i: int| 0 <= i < b_keys.len() && b[j] == slot_of(#[trigger] b_keys[i], size);
        assert(b_keys.contains(b_keys[i]));
        let k = choose|k: int| 0 <= k < a_keys.len() && a_keys[k] == b_keys[i];
        assert(names_slot(a, a.len() as int, slot_of(a_keys[k], size)));
    }
    lemma_ascending_unique(a, b);
}

/// Adds a slot to an ascending list, unless it is there.
fn insert_slot(slots: &mut Vec<usize>, slot: usize)
    requires
        ascending(old(slots)@),
    ensures
        ascending(final(slots)@),
        forall|s: int|
            #[trigger] names_slot(final(slots)@, final(slots)@.len() as int, s) <==> (names_slot(
                old(slots)@,
                old(slots)@.len() as int,
                s,
            ) || s == slot),
{
    let ghost before = slots@;
    let mut at: usize = 0;
    while at < slots.len() && slots[at] < slot
        invariant
            slots@ == before,
            ascending(before),
            at <= before.len(),
            forall|j: int| 0 <= j < at ==> before[j] < slot,
        decreases before.len() - at,
    {
        at += 1;
    }
    if at < slots.len() && slots[at] == slot {
        assert(names_slot(before, before.len() as int, slot as int));
    } else {
        slots.insert(at, slot);
        proof {
            let after = slots@;
            assert forall|s: int| #[trigger] names_slot(after, after.len() as int, s) <==> (
            names_slot(before, before.len() as int, s) || s == slot) by {
                if names_slot(before, before.len() as int, s) {
                    let j = choose|j: int| 0 <= j < before.len() && before[j] == s;
                    assert(after[if j < at { j } else { j + 1 }] == s);
                }
                if names_slot(after, after.len() as int, s) {
                    let j = choose|j: int| 0 <= j < after.len() && after[j] == s;
                    if j < at {
                        assert(before[j] == s);
                    } else if j > at {
                        assert(before[j - 1] == s);
                    }
                }
                assert(after[at as int] == slot);
            }
        }
    }
}

/// Any count with the defining property of `leading_free` is `leading_free`.
pub proof fn lemma_leading_free_is(
    queues: Seq<Seq<u64>>,
    indices: Seq<usize>,
    who: u64,
    n: int,
)
    requires
        0 <= n <= indices.len(),
        forall|j: int| 0 <= j < n ==> free_for(queues[#[trigger] indices[j] as int], who),
        n < indices.len() ==> !free_for(queues[indices[n] as int], who),
    ensures
        leading_free(queues, indices, who) == n,
    decreases indices.len(),
{
    if n > 0 {
        let rest = indices.drop_first();
        assert forall|j: int| 0 <= j < n - 1 implies free_for(
            queues[#[trigger] rest[j] as int],
            who,
        ) by {
            assert(rest[j] == indices[j + 1]);
        }
        assert(free_for(queues[indices[0] as int], who));
        lemma_leading_free_is(queues, rest, who, n - 1);
    }
}

/// `leading_free` counts slots that are free, and stops only at one that is not.
pub proof fn lemma_leading_free(queues: Seq<Seq<u64>>, indices: Seq<usize>, who: u64)
    ensures
        leading_free(queues, indices, who) <= indices.len(),
        forall|j: int|
            0 <= j < leading_free(queues, indices, who) ==> free_for(
                queues[#[trigger] indices[j] as int],
                who,
            ),
        leading_free(queues, indices, who) < indices.len() ==> !free_for(
            queues[indices[leading_free(queues, indices, who) as int] as int],
            who,
        ),
    decreases indices.len(),
{
    if indices.len() > 0 && free_for(queues[indices[0] as int], who) {
        let rest = indices.drop_first();
        lemma_leading_free(queues, rest, who);
        assert forall|j: int| 0 <= j < leading_free(queues, indices, who) implies free_for(
            queues[#[trigger] indices[j] as int],
            who,
        ) by {
            if j > 0 {
                assert(rest[j - 1] == indices[j]);
            }
        }
    }
}

/// What an acquisition leaves at one slot: whoever was queued there still is, the holder is the
/// same, and only `who` can be new, at a slot that it reached.
pub proof fn lemma_after_acquire_slot(
    queues: Seq<Seq<u64>>,
    indices: Seq<usize>,
    who: u64,
    s: int,
)
    requires
        0 <= s < queues.len(),
        queues[s].no_duplicates(),
    ensures
        after_acquire(queues, indices, who)[s].no_duplicates(),
        queues[s].len() > 0 ==> after_acquire(queues, indices, who)[s].len() > 0
            && after_acquire(queues, indices, who)[s][0] == queues[s][0],
        queues[s].len() == 0 && after_acquire(queues, indices, who)[s].len() > 0
            ==> after_acquire(queues, indices, who)[s][0] == who,
        forall|c: u64| #[trigger]
            queues[s].contains(c) ==> after_acquire(queues, indices, who)[s].contains(c),
        forall|c: u64| #[trigger]
            after_acquire(queues, indices, who)[s].contains(c) ==> queues[s].contains(c) || (c
                == who && exists|j: int|
                0 <= j < indices.len() && j <= leading_free(queues, indices, who)
                    && #[trigger] indices[j] == s),
{
    lemma_leading_free(queues, indices, who);
    let n = leading_free(queues, indices, who) as int;
    let before = queues[s];
    let after = after_acquire(queues, indices, who)[s];
    assert forall|c: u64| #[trigger] before.contains(c) implies after.contains(c) by {
        let i = choose|i: int| 0 <= i < before.len() && before[i] == c;
        assert(after[i] == c);
    }
    assert forall|c: u64| #[trigger] after.contains(c) implies before.contains(c) || (c == who
        && exists|j: int|
        0 <= j < indices.len() && j <= n && #[trigger] indices[j] == s) by {
        if !before.contains(c) {
            let i = choose|i: int| 0 <= i < after.len() && after[i] == c;
            if names_slot(indices, n, s) && before.len() == 0 {
                let j = choose|j: int| 0 <= j < n && indices[j] == s;
                assert(indices[j] == s);
            } else {
                if i < before.len() {
                    assert(before[i] == c);
                }
                assert(indices[n] == s);
            }
        }
    }
}

/// What an acquisition gives `who`: the front of every slot that is counted, and a place, behind
/// another, at the first slot that is not.
pub proof fn lemma_after_acquire_who(queues: Seq<Seq<u64>>, indices: Seq<usize>, who: u64)
    requires
        forall|j: int| 0 <= j < indices.len() ==> (#[trigger] indices[j]) < queues.len(),
    ensures
        ({
            let n = leading_free(queues, indices, who) as int;
            let after = after_acquire(queues, indices, who);
            &&& n <= indices.len()
            &&& forall|j: int|
                0 <= j < n ==> after[#[trigger] indices[j] as int].len() > 0
                    && after[indices[j] as int][0] == who
            &&& n < indices.len() ==> after[indices[n] as int].contains(who)
                && after[indices[n] as int][0] != who
        }),
{
    lemma_leading_free(queues, indices, who);
    let n = leading_free(queues, indices, who) as int;
    let after = after_acquire(queues, indices, who);
    assert forall|j: int| 0 <= j < n implies after[#[trigger] indices[j] as int].len() > 0
        && after[indices[j] as int][0] == who by {
        let s = indices[j] as int;
        assert(names_slot(indices, n, s));
    }
    if n < indices.len() {
        let s = indices[n] as int;
        assert(!free_for(queues[s], who));
        if !queues[s].contains(who) {
            assert(after[s] == queues[s].push(who));
            assert(after[s][queues[s].len() as int] == who);
        }
    }
}

/// What a release leaves at one slot: the front has left a slot of `indices`, no other slot
/// changes.
pub proof fn lemma_after_release_slot(queues: Seq<Seq<u64>>, indices: Seq<usize>, s: int)
    requires
        0 <= s < queues.len(),
        queues[s].no_duplicates(),
        names_slot(indices, indices.len() as int, s) ==> queues[s].len() > 0,
    ensures
        after_release(queues, indices)[s].no_duplicates(),
        forall|c: u64| #[trigger]
            after_release(queues, indices)[s].contains(c) <==> queues[s].contains(c) && !(
            names_slot(indices, indices.len() as int, s) && queues[s][0] == c),
{
    let before = queues[s];
    let after = after_release(queues, indices)[s];
    assert forall|c: u64| #[trigger] after.contains(c) <==> before.contains(c) && !(names_slot(
        indices,
        indices.len() as int,
        s,
    ) && before[0] == c) by {
        if names_slot(indices, indices.len() as int, s) {
            if before.contains(c) && before[0] != c {
                let i = choose|i: int| 0 <= i < before.len() && before[i] == c;
                assert(after[i - 1] == c);
            }
            if after.contains(c) {
                let i = choose|i: int| 0 <= i < after.len() && after[i] == c;
                assert(before[i + 1] == c);
            }
        }
    }
}

/// Who is next in line: exactly the second of each queue of `indices`.
pub proof fn lemma_next_in_line(queues: Seq<Seq<u64>>, indices: Seq<usize>)
    ensures
        forall|c: u64| #[trigger]
            next_in_line(queues, indices).contains(c) <==> exists|j: int|
                0 <= j < indices.len() && queues[#[trigger] indices[j] as int].len() > 1
                    && queues[indices[j] as int][1] == c,
    decreases indices.len(),
{
    if indices.len() > 0 {
        let rest = indices.drop_last();
        let last = indices.len() - 1;
        lemma_next_in_line(queues, rest);
        let before = next_in_line(queues, rest);
        let all = next_in_line(queues, indices);
        assert forall|c: u64| #[trigger] all.contains(c) <==> exists|j: int|
            0 <= j < indices.len() && queues[#[trigger] indices[j] as int].len() > 1
                && queues[indices[j] as int][1] == c by {
            if all.contains(c) {
                let i = choose|i: int| 0 <= i < all.len() && all[i] == c;
                if i < before.len() {
                    assert(before[i] == c);
                    assert(before.contains(c));
                    let j = choose|j: int|
                        0 <= j < rest.len() && queues[#[trigger] rest[j] as int].len() > 1
                            && queues[rest[j] as int][1] == c;
                    assert(indices[j] == rest[j]);
                } else {
                    assert(indices[last] == indices.last());
                }
            }
            if exists|j: int|
                0 <= j < indices.len() && queues[#[trigger] indices[j] as int].len() > 1
                    && queues[indices[j] as int][1] == c {
                let j = choose|j: int|
                    0 <= j < indices.len() && queues[#[trigger] indices[j] as int].len() > 1
                        && queues[indices[j] as int][1] == c;
                if j < last {
                    assert(rest[j] == indices[j]);
                    assert(before.contains(c));
                    let i = choose|i: int| 0 <= i < before.len() && before[i] == c;
                    assert(all[i] == c);
                } else {
                    assert(all[before.len() as int] == c);
                }
            }
        }
    } else {
        assert(next_in_line(queues, indices) =~= Seq::<u64>::empty());
    }
}

/// Nobody is next in line twice, where the seconds of the queues differ.
pub proof fn lemma_next_in_line_distinct(queues: Seq<Seq<u64>>, indices: Seq<usize>)
    requires
        forall|i: int, j: int|
            0 <= i < j < indices.len() && queues[#[trigger] indices[i] as int].len() > 1
                && queues[#[trigger] indices[j] as int].len() > 1 ==> queues[indices[i] as int][1]
                != queues[indices[j] as int][1],
    ensures
        next_in_line(queues, indices).no_duplicates(),
    decreases indices.len(),
{
    if indices.len() > 0 {
        let rest = indices.drop_last();
        let last = indices.len() - 1;
        assert forall|i: int, j: int|
            0 <= i < j < rest.len() && queues[#[trigger] rest[i] as int].len() > 1
                && queues[#[trigger] rest[j] as int].len() > 1 implies queues[rest[i] as int][1]
            != queues[rest[j] as int][1] by {
            assert(rest[i] == indices[i] && rest[j] == indices[j]);
        }
        lemma_next_in_line_distinct(queues, rest);
        lemma_next_in_line(queues, rest);
        let before = next_in_line(queues, rest);
        let queue = queues[indices[last] as int];
        if queue.len() > 1 && before.contains(queue[1]) {
            let j = choose|j: int|
                0 <= j < rest.len() && queues[#[trigger] rest[j] as int].len() > 1
                    && queues[rest[j] as int][1] == queue[1];
            assert(rest[j] == indices[j]);
        }
    }
}

/// The latch of one slot: the commands queued there, oldest first, the front one holding it.
pub struct Latch {
    waiting: VecDeque<u64>,
    set: BTreeSet<u64>,
}

impl Latch {
    /// The queue, oldest command first.
    pub closed spec fn view(&self) -> Seq<u64> {
        self.waiting@
    }

    /// Nobody is queued twice, and the set holds exactly the queued commands.
    pub closed spec fn wf(&self) -> bool {
        &&& self.waiting@.no_duplicates()
        &&& self.set@ == self.waiting@.to_set()
    }

    /// In a well-formed latch nobody is queued twice.
    pub proof fn law_queue_distinct(&self)
        requires
            self.wf(),
        ensures
            self@.no_duplicates(),
    {
    }

    /// A latch that nobody holds.
    pub fn new() -> (latch: Latch)
        ensures
            latch.wf(),
            latch@ == Seq::<u64>::empty(),
    {
        let latch = Latch { waiting: VecDeque::new(), set: BTreeSet::new() };
        assert(latch.set@ =~= latch.waiting@.to_set());
        latch
    }

    /// Takes the latch for `who`, or queues `who` behind the holder; says whether `who` holds it.
    fn acquire(&mut self, who: u64) -> (held: bool)
        requires
            old(self).wf(),
        ensures
            final(self).wf(),
            held == free_for(old(self)@, who),
            final(self)@ == if old(self)@.len() == 0 {
                seq![who]
            } else if !free_for(old(self)@, who) && !old(self)@.contains(who) {
                old(self)@.push(who)
            } else {
                old(self)@
            },
    {
        if self.waiting.len() == 0 {
            self.waiting.push_back(who);
            self.set.insert(who);
            proof {
                assert(self.waiting@ =~= seq![who]);
                assert(self.set@ =~= self.waiting@.to_set()) by {
                    assert(self.waiting@[0] == who);
                }
            }
            return true;
        }
        let front: u64 = self.waiting[0];
        if front == who {
            return true;
        }
        if !self.set.contains(&who) {
            self.waiting.push_back(who);
            self.set.insert(who);
            proof {
                let before = old(self).waiting@;
                assert(self.set@ =~= self.waiting@.to_set()) by {
                    assert forall|x: u64| self.waiting@.contains(x) <==> before.contains(x) || x
                        == who by {
                        if before.contains(x) {
                            let i = choose|i: int| 0 <= i < before.len() && before[i] == x;
                            assert(self.waiting@[i] == x);
                        }
                        assert(self.waiting@[before.len() as int] == who);
                    }
                }
            }
        }
        false
    }

    /// Gives the latch up for `who`, and says who holds it now.
    fn release(&mut self, who: u64) -> (next: Option<u64>)
        requires
            old(self).wf(),
            old(self)@.len() > 0,
            old(self)@[0] == who,
        ensures
            final(self).wf(),
            final(self)@ == old(self)@.drop_first(),
            next == if old(self)@.len() > 1 {
                Some(old(self)@[1])
            } else {
                None
            },
    {
        let _ = self.waiting.pop_front();
        self.set.remove(&who);
        proof {
            let before = old(self).waiting@;
            assert(self.set@ =~= self.waiting@.to_set()) by {
                assert forall|x: u64| self.waiting@.contains(x) <==> before.contains(x) && x
                    != who by {
                    if before.contains(x) && x != who {
                        let i = choose|i: int| 0 <= i < before.len() && before[i] == x;
                        assert(self.waiting@[i - 1] == x);
                    }
                    if self.waiting@.contains(x) {
                        let i = choose|i: int| 0 <= i < self.waiting@.len() && self.waiting@[i] == x;
                        assert(before[i + 1] == x);
                    }
                }
            }
        }
        if self.waiting.len() > 0 {
            let next: u64 = self.waiting[0];
            Some(next)
        } else {
            None
        }
    }
}

/// The latches of all slots.
pub struct Latches {
    locks: Vec<Latch>,
    size: usize,
}

impl Latches {
    /// The queues, slot by slot.
    pub closed spec fn view(&self) -> Seq<Seq<u64>> {
        self.locks@.map_values(|latch: Latch| latch@)
    }

    /// The table has the size that it was made with, and every latch is well formed.
    pub closed spec fn wf(&self) -> bool {
        &&& self.locks@.len() == self.size
        &&& forall|s: int| 0 <= s < self.locks@.len() ==> (#[trigger] self.locks@[s]).wf()
    }

    /// In a well-formed table nobody is queued twice at one slot.
    pub proof fn law_queues_distinct(&self)
        requires
            self.wf(),
        ensures
            forall|s: int| 0 <= s < self@.len() ==> (#[trigger] self@[s]).no_duplicates(),
    {
        assert forall|s: int| 0 <= s < self@.len() implies (
        #[trigger] self@[s]).no_duplicates() by {
            assert(self.locks@[s].wf());
        }
    }

    /// A table of `size` latches that nobody holds.
    pub fn new(size: usize) -> (latches: Latches)
        ensures
            latches.wf(),
            latches@ == Seq::new(size as nat, |s: int| Seq::<u64>::empty()),
    {
        let mut locks: Vec<Latch> = Vec::new();
        let mut made: usize = 0;
        while made < size
            invariant
                made <= size,
                locks@.len() == made,
                forall|s: int|
                    0 <= s < made ==> (#[trigger] locks@[s]).wf() && locks@[s]@ == Seq::<u64>::empty(),
            decreases size - made,
        {
            locks.push(Latch::new());
            made += 1;
        }
        let latches = Latches { locks, size };
        assert(latches@ =~= Seq::new(size as nat, |s: int| Seq::<u64>::empty()));
        latches
    }

    /// The number of slots.
    pub fn size(&self) -> (size: usize)
        requires
            self.wf(),
        ensures
            size == self@.len(),
    {
        self.size
    }

    /// The slot of `key`.
    pub fn calc_index(&self, key: &Key) -> (slot: usize)
        requires
            self.wf(),
            self@.len() > 0,
        ensures
            slot == slot_of(key@, self@.len() as int),
            slot < self@.len(),
    {
        let hash: u64 = hash_bytes(key.encoded().as_slice());
        (hash as usize) % self.size
    }

    /// The slots of `keys`, in ascending order and each once: commands that take their latches in
    /// this order cannot deadlock.
    pub fn calc_latches_indices(&self, keys: &[&Key]) -> (indices: Vec<usize>)
        requires
            self.wf(),
            self@.len() > 0 || keys@.len() == 0,
        ensures
            lists_slots(indices@, keys@.map_values(|key: &Key| key@), self@.len() as int),
            indices@ == slots_of(keys@.map_values(|key: &Key| key@), self@.len() as int),
    {
        let mut indices: Vec<usize> = Vec::new();
        let mut done: usize = 0;
        let ghost size = self@.len() as int;
        while done < keys.len()
            invariant
                self.wf(),
                self@.len() == size,
                size > 0 || keys@.len() == 0,
                done <= keys@.len(),
                lists_slots(
                    indices@,
                    keys@.map_values(|key: &Key| key@).take(done as int),
                    size,
                ),
            decreases keys@.len() - done,
        {
            let ghost names = keys@.map_values(|key: &Key| key@);
            let ghost before = indices@;
            let slot: usize = self.calc_index(keys[done]);
            insert_slot(&mut indices, slot);
            done += 1;
            proof {
                let old_names = names.take(done - 1);
                let new_names = names.take(done as int);
                assert forall|i: int| 0 <= i < new_names.len() implies names_slot(
                    indices@,
                    indices@.len() as int,
                    slot_of(#[trigger] new_names[i], size),
                ) by {
                    if i < done - 1 {
                        assert(new_names[i] == old_names[i]);
                        assert(names_slot(
                            before,
                            before.len() as int,
                            slot_of(old_names[i], size),
                        ));
                    }
                }
                assert forall|j: int| 0 <= j < indices@.len() implies some_key_at(
                    new_names,
                    size,
                    #[trigger] indices@[j] as int,
                ) by {
                    let s = indices@[j] as int;
                    assert(names_slot(indices@, indices@.len() as int, s));
                    if s == slot {
                        assert(slot_of(new_names[done - 1], size) == s);
                    } else {
                        assert(names_slot(before, before.len() as int, s));
                        let k = choose|k: int| 0 <= k < before.len() && before[k] == s;
                        assert(some_key_at(old_names, size, before[k] as int));
                        let i = choose|i: int|
                            0 <= i < old_names.len() && before[k] == slot_of(
                                #[trigger] old_names[i],
                                size,
                            );
                        assert(new_names[i] == old_names[i]);
                    }
                }
            }
        }
        proof {
            let names = keys@.map_values(|key: &Key| key@);
            assert(names.take(done as int) =~= names);
            lemma_slots_of_is(indices@, names, size);
        }
        indices
    }

    /// Takes the latches of `indices` for `who`, in order, up to the first that another command
    /// holds, where `who` is queued. Returns how many of them `who` holds.
    pub fn acquire_by_indices(&mut self, indices: &[usize], who: u64) -> (acquired_count: usize)
        requires
            old(self).wf(),
            visits_exist(old(self)@, indices@, who),
        ensures
            final(self).wf(),
            acquired_count == leading_free(old(self)@, indices@, who),
            final(self)@ == after_acquire(old(self)@, indices@, who),
    {
        let ghost before = self@;
        let mut acquired_count: usize = 0;
        while acquired_count < indices.len()
            invariant
                self.wf(),
                before == old(self)@,
                visits_exist(before, indices@, who),
                self@.len() == before.len(),
                acquired_count <= indices@.len(),
                forall|j: int|
                    0 <= j < acquired_count ==> free_for(before[#[trigger] indices@[j] as int], who),
                forall|s: int|
                    0 <= s < before.len() ==> #[trigger] self@[s] == if names_slot(
                        indices@,
                        acquired_count as int,
                        s,
                    ) && before[s].len() == 0 {
                        seq![who]
                    } else {
                        before[s]
                    },
            decreases indices@.len() - acquired_count,
        {
            let slot: usize = indices[acquired_count];
            assert(indices@[acquired_count as int] == slot);
            assert(slot < self.locks@.len());
            let ghost here = self@;
            let held = self.locks[slot].acquire(who);
            proof {
                assert forall|s: int| 0 <= s < before.len() && s != slot implies #[trigger] self@[s]
                    == here[s] by {}
                assert(here[slot as int] == before[slot as int] || here[slot as int] =~= seq![who]);
                assert(held == free_for(before[slot as int], who));
            }
            if !held {
                proof {
                    lemma_leading_free_is(before, indices@, who, acquired_count as int);
                    assert(self@ =~= after_acquire(before, indices@, who));
                }
                return acquired_count;
            }
            acquired_count += 1;
            proof {
                assert forall|s: int| 0 <= s < before.len() implies #[trigger] self@[s]
                    == if names_slot(indices@, acquired_count as int, s) && before[s].len() == 0 {
                    seq![who]
                } else {
                    before[s]
                } by {
                    if s == slot {
                        assert(indices@[acquired_count - 1] == s);
                    }
                }
            }
        }
        proof {
            lemma_leading_free_is(before, indices@, who, acquired_count as int);
            assert(self@ =~= after_acquire(before, indices@, who));
        }
        acquired_count
    }

    /// Gives up the latches of `indices`, all of which `who` holds, and returns the wake-up list:
    /// the commands that hold one of them now, in the order of `indices`.
    pub fn release_by_indices(&mut self, indices: &[usize], who: u64) -> (wakeup_list: Vec<u64>)
        requires
            old(self).wf(),
            indices@.no_duplicates(),
            holds_all(old(self)@, indices@, who),
        ensures
            final(self).wf(),
            final(self)@ == after_release(old(self)@, indices@),
            wakeup_list@ == next_in_line(old(self)@, indices@),
    {
        let ghost before = self@;
        let mut wakeup_list: Vec<u64> = Vec::new();
        let mut done: usize = 0;
        while done < indices.len()
            invariant
                self.wf(),
                before == old(self)@,
                indices@.no_duplicates(),
                holds_all(before, indices@, who),
                self@.len() == before.len(),
                done <= indices@.len(),
                wakeup_list@ == next_in_line(before, indices@.take(done as int)),
                forall|s: int|
                    0 <= s < before.len() ==> #[trigger] self@[s] == if names_slot(
                        indices@,
                        done as int,
                        s,
                    ) {
                        before[s].drop_first()
                    } else {
                        before[s]
                    },
            decreases indices@.len() - done,
        {
            let slot: usize = indices[done];
            assert(indices@[done as int] == slot);
            let ghost here = self@;
            assert(!names_slot(indices@, done as int, slot as int));
            assert(here[slot as int] == before[slot as int]);
            let next = self.locks[slot].release(who);
            if let Some(wakeup) = next {
                wakeup_list.push(wakeup);
            }
            done += 1;
            proof {
                assert(indices@.take(done as int).drop_last() =~= indices@.take(done - 1));
                assert forall|s: int| 0 <= s < before.len() implies #[trigger] self@[s]
                    == if names_slot(indices@, done as int, s) {
                    before[s].drop_first()
                } else {
                    before[s]
                } by {
                    if s == slot {
                        assert(indices@[done - 1] == s);
                    } else {
                        assert(self@[s] == here[s]);
                    }
                }
            }
        }
        proof {
            assert(indices@.take(done as int) =~= indices@);
            assert(self@ =~= after_release(before, indices@));
        }
        wakeup_list
    }
}

} // verus!
