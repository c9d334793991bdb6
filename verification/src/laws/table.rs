//! What the calls of the table of latches do and return, and how keys are spread over it.

use crate::hasher::{hash_bytes, low_bytes, memory_bytes, sip_finish};
use crate::key::Key;
use crate::latch::{
    free_for, lemma_after_acquire_who, lemma_leading_free, lemma_slots_of, names_slot, next_in_line,
    slot_of, Latch, Latches,
};
use vstd::prelude::*;

verus! {

/// A new table has as many latches as asked for, and nobody holds one.
pub proof fn law_new_table(size: usize, latches: Latches, told: usize, latch: Latch)
    requires
        call_ensures(Latches::new, (size,), latches),
        call_ensures(Latches::size, (&latches,), told),
        call_ensures(Latch::new, (), latch),
    ensures
        latches.wf(),
        told == size,
        latches@.len() == size,
        forall|s: int| 0 <= s < size ==> (#[trigger] latches@[s]).len() == 0,
        latch@.len() == 0,
{
}

/// Latches are taken in the order given, up to the first that another holds. Whoever takes a latch
/// is at its front; whoever is stopped is queued there, behind everybody; nobody else moves.
pub proof fn law_acquire(latches: &mut Latches, indices: &[usize], who: u64, count: usize)
    requires
        forall|j: int| 0 <= j < indices@.len() ==> (#[trigger] indices@[j]) < latches@.len(),
        call_ensures(Latches::acquire_by_indices, (latches, indices, who), count),
    ensures
        final(latches).wf(),
        count <= indices@.len(),
        final(latches)@.len() == old(latches)@.len(),
        forall|j: int|
            0 <= j < count ==> {
                &&& final(latches)@[#[trigger] indices@[j] as int].len() > 0
                &&& final(latches)@[indices@[j] as int][0] == who
            },
        forall|j: int|
            0 <= j < count ==> {
                ||| old(latches)@[#[trigger] indices@[j] as int].len() == 0
                ||| old(latches)@[indices@[j] as int][0] == who
            },
        count < indices@.len() ==> {
            &&& old(latches)@[indices@[count as int] as int].len() > 0
            &&& old(latches)@[indices@[count as int] as int][0] != who
            &&& final(latches)@[indices@[count as int] as int]
                == if old(latches)@[indices@[count as int] as int].contains(who) {
                old(latches)@[indices@[count as int] as int]
            } else {
                old(latches)@[indices@[count as int] as int].push(who)
            }
        },
        forall|s: int|
            0 <= s < old(latches)@.len() ==> {
                ||| (#[trigger] final(latches)@[s]) == old(latches)@[s]
                ||| final(latches)@[s] == old(latches)@[s].push(who)
            },
        forall|s: int|
            0 <= s < old(latches)@.len() && (#[trigger] final(latches)@[s]) != old(latches)@[s]
                ==> exists|j: int| 0 <= j <= count && j < indices@.len() && indices@[j] == s,
{
    let queues = latches@;
    let after = final(latches)@;
    let n = count as int;
    lemma_leading_free(queues, indices@, who);
    lemma_after_acquire_who(queues, indices@, who);
    assert forall|j: int| 0 <= j < n implies {
        ||| queues[#[trigger] indices@[j] as int].len() == 0
        ||| queues[indices@[j] as int][0] == who
    } by {
        assert(free_for(queues[indices@[j] as int], who));
    }
    if n < indices@.len() {
        let s = indices@[n] as int;
        assert(!free_for(queues[s], who));
        assert(after[s] == if queues[s].contains(who) {
            queues[s]
        } else {
            queues[s].push(who)
        });
    }
    assert forall|s: int| 0 <= s < queues.len() implies {
        ||| (#[trigger] after[s]) == queues[s]
        ||| after[s] == queues[s].push(who)
    } by {
        if names_slot(indices@, n, s) && queues[s].len() == 0 {
            assert(after[s] =~= queues[s].push(who));
        }
    }
    assert forall|s: int|
        0 <= s < queues.len() && (#[trigger] after[s]) != queues[s] implies exists|j: int|
        0 <= j <= n && j < indices@.len() && indices@[j] == s by {
        if names_slot(indices@, n, s) {
            let j = choose|j: int| 0 <= j < n && indices@[j] == s;
            assert(0 <= j <= n && j < indices@.len() && indices@[j] == s);
        } else {
            assert(0 <= n <= n && n < indices@.len() && indices@[n] == s);
        }
    }
}

/// The places in `indices`, among the first `n`, at whose slot somebody waits.
spec fn waited_for(queues: Seq<Seq<u64>>, indices: Seq<usize>, n: int) -> Seq<int>
    decreases n,
{
    if n <= 0 {
        Seq::empty()
    } else if queues[indices[n - 1] as int].len() > 1 {
        waited_for(queues, indices, n - 1).push(n - 1)
    } else {
        waited_for(queues, indices, n - 1)
    }
}

/// Those next in line are those who wait, in the order of the slots.
proof fn lemma_waited_for(queues: Seq<Seq<u64>>, indices: Seq<usize>)
    ensures
        ({
            let at = waited_for(queues, indices, indices.len() as int);
            let seconds = next_in_line(queues, indices);
            &&& seconds.len() == at.len()
            &&& forall|i: int, j: int| 0 <= i < j < at.len() ==> at[i] < at[j]
            &&& forall|k: int|
                0 <= k < at.len() ==> 0 <= #[trigger] at[k] < indices.len()
                    && queues[indices[at[k]] as int].len() > 1 && seconds[k]
                    == queues[indices[at[k]] as int][1]
            &&& forall|j: int|
                0 <= j < indices.len() && queues[#[trigger] indices[j] as int].len() > 1
                    ==> at.contains(j)
        }),
    decreases indices.len(),
{
    if indices.len() > 0 {
        let rest = indices.drop_last();
        let n = indices.len() as int;
        lemma_waited_for(queues, rest);
        lemma_waited_for_prefix(queues, indices, rest, n - 1);
        let before = waited_for(queues, rest, n - 1);
        let at = waited_for(queues, indices, n);
        assert forall|k: int| 0 <= k < at.len() implies 0 <= #[trigger] at[k] < indices.len()
            && queues[indices[at[k]] as int].len() > 1 && next_in_line(queues, indices)[k]
            == queues[indices[at[k]] as int][1] by {
            if k < before.len() {
                assert(before[k] == at[k]);
                assert(rest[before[k]] == indices[at[k]]);
            }
        }
        assert forall|j: int|
            0 <= j < indices.len() && queues[#[trigger] indices[j] as int].len()
                > 1 implies at.contains(j) by {
            if j < n - 1 {
                assert(rest[j] == indices[j]);
                assert(before.contains(j));
                let k = choose|k: int| 0 <= k < before.len() && before[k] == j;
                assert(at[k] == j);
            } else {
                assert(at.last() == j);
            }
        }
    }
}

/// `waited_for` looks at the first slots alone.
proof fn lemma_waited_for_prefix(
    queues: Seq<Seq<u64>>,
    indices: Seq<usize>,
    rest: Seq<usize>,
    n: int,
)
    requires
        0 <= n <= rest.len(),
        rest.is_prefix_of(indices),
    ensures
        waited_for(queues, rest, n) == waited_for(queues, indices, n),
    decreases n,
{
    if n > 0 {
        lemma_waited_for_prefix(queues, indices, rest, n - 1);
        assert(rest[n - 1] == indices[n - 1]);
    }
}

/// Giving latches up takes the front away from each of them and from no other. Returned is whoever
/// holds one of them now, in the order in which they were given up: entry `k` is the new holder
/// of the latch at place `at[k]`.
pub proof fn law_release(
    latches: &mut Latches,
    indices: &[usize],
    who: u64,
    wakeup_list: Vec<u64>,
) -> (at: Seq<int>)
    requires
        forall|j: int|
            0 <= j < indices@.len() ==> (#[trigger] indices@[j]) < latches@.len()
                && latches@[indices@[j] as int].len() > 0,
        call_ensures(Latches::release_by_indices, (latches, indices, who), wakeup_list),
    ensures
        final(latches).wf(),
        final(latches)@.len() == old(latches)@.len(),
        forall|j: int|
            0 <= j < indices@.len() ==> final(latches)@[#[trigger] indices@[j] as int]
                == old(latches)@[indices@[j] as int].drop_first(),
        forall|s: int|
            0 <= s < old(latches)@.len() && !indices@.contains(s as usize) ==> (
            #[trigger] final(latches)@[s]) == old(latches)@[s],
        wakeup_list@.len() == at.len(),
        forall|i: int, j: int| 0 <= i < j < at.len() ==> at[i] < at[j],
        forall|k: int|
            0 <= k < at.len() ==> {
                &&& 0 <= #[trigger] at[k] < indices@.len()
                &&& final(latches)@[indices@[at[k]] as int].len() > 0
                &&& wakeup_list@[k] == final(latches)@[indices@[at[k]] as int][0]
            },
        forall|j: int|
            0 <= j < indices@.len() ==> (final(latches)@[#[trigger] indices@[j] as int].len() > 0
                ==> at.contains(j)),
{
    let queues = latches@;
    let after = final(latches)@;
    lemma_waited_for(queues, indices@);
    let at = waited_for(queues, indices@, indices@.len() as int);
    assert forall|j: int| 0 <= j < indices@.len() implies after[#[trigger] indices@[j] as int]
        == queues[indices@[j] as int].drop_first() by {
        assert(names_slot(indices@, indices@.len() as int, indices@[j] as int));
    }
    assert forall|s: int| 0 <= s < queues.len() && !indices@.contains(s as usize) implies (
    #[trigger] after[s]) == queues[s] by {
        if names_slot(indices@, indices@.len() as int, s) {
            let j = choose|j: int| 0 <= j < indices@.len() && indices@[j] == s;
            assert(indices@[j] == s as usize);
        }
    }
    at
}

/// The slot of a key is the remainder of the hash of its bytes.
pub proof fn law_slot(latches: &Latches, key: &Key, slot: usize, bytes: &[u8], hash: u64)
    requires
        latches@.len() > 0,
        bytes@ == key@,
        call_ensures(Latches::calc_index, (latches, key), slot),
        call_ensures(hash_bytes, (bytes,), hash),
    ensures
        slot < latches@.len(),
        slot as int == (hash as usize) as int % latches@.len() as int,
{
}

/// The slots of keys are those of the keys one by one, in ascending order and each once.
pub proof fn law_slots_of_keys(latches: &Latches, keys: &[&Key], indices: Vec<usize>)
    requires
        0 < latches@.len() <= usize::MAX,
        call_ensures(Latches::calc_latches_indices, (latches, keys), indices),
    ensures
        forall|i: int, j: int| 0 <= i < j < indices@.len() ==> indices@[i] < indices@[j],
        forall|i: int, slot: usize|
            0 <= i < keys@.len() && #[trigger] call_ensures(
                Latches::calc_index,
                (latches, #[trigger] keys@[i]),
                slot,
            ) ==> indices@.contains(slot),
        forall|slot: usize| #[trigger]
            indices@.contains(slot) ==> exists|i: int|
                0 <= i < keys@.len() && slot_of((#[trigger] keys@[i])@, latches@.len() as int)
                    == slot,
{
    let size = latches@.len() as int;
    let names = keys@.map_values(|key: &Key| key@);
    lemma_slots_of(names, size);
    assert forall|i: int, slot: usize|
        0 <= i < keys@.len() && #[trigger] call_ensures(
            Latches::calc_index,
            (latches, #[trigger] keys@[i]),
            slot,
        ) implies indices@.contains(slot) by {
        assert(names[i] == keys@[i]@);
        let j = choose|j: int| 0 <= j < indices@.len() && indices@[j] == slot_of(names[i], size);
        assert(indices@[j] == slot);
    }
    assert forall|slot: usize| #[trigger] indices@.contains(slot) implies exists|i: int|
        0 <= i < keys@.len() && slot_of((#[trigger] keys@[i])@, size) == slot by {
        let j = choose|j: int| 0 <= j < indices@.len() && indices@[j] == slot;
        let i = choose|i: int| 0 <= i < names.len() && indices@[j] == slot_of(
            #[trigger] names[i],
            size,
        );
        assert(names[i] == keys@[i]@);
    }
}

/// The number that a byte string stands for, its lowest byte first.
pub open spec fn number(bytes: Seq<u8>) -> nat
    decreases bytes.len(),
{
    if bytes.len() == 0 {
        0
    } else {
        bytes[0] as nat + 256 * number(bytes.drop_first())
    }
}

/// What is left of `n` without its lowest `width` bytes.
spec fn rest_of(n: nat, width: nat) -> nat
    decreases width,
{
    if width == 0 {
        n
    } else {
        rest_of(n / 256, (width - 1) as nat)
    }
}

/// Enough bytes of a number stand for it.
proof fn lemma_low_bytes(n: nat, width: nat)
    ensures
        low_bytes(n, width).len() == width,
        rest_of(n, width) == 0 ==> number(low_bytes(n, width)) == n,
    decreases width,
{
    if width > 0 {
        lemma_low_bytes(n / 256, (width - 1) as nat);
        let bytes = low_bytes(n, width);
        assert(bytes.drop_first() =~= low_bytes(n / 256, (width - 1) as nat));
        assert(bytes[0] == (n % 256) as u8);
        assert(n == n % 256 + 256 * (n / 256));
    }
}

/// A number in memory can be read back: its bytes, or its bytes from last to first, stand for it,
/// and there are as many as a `usize` has.
pub proof fn law_memory_bytes(n: usize)
    ensures
        memory_bytes(n).len() * 8 == usize::BITS,
        number(memory_bytes(n)) == n || number(memory_bytes(n).reverse()) == n,
{
    let width = usize::BITS as nat / 8;
    lemma_low_bytes(n as nat, width);
    assert(usize::BITS == 32 || usize::BITS == 64);
    reveal_with_fuel(rest_of, 9);
    assert(usize::BITS == 32 ==> n <= 0xffff_ffff);
    let k = n as nat;
    assert(k / 256 / 256 / 256 / 256 / 256 / 256 / 256 / 256 == 0) by (nonlinear_arith)
        requires
            k <= 0xffff_ffff_ffff_ffff,
    ;
    if usize::BITS == 32 {
        assert(k / 256 / 256 / 256 / 256 == 0) by (nonlinear_arith)
            requires
                k <= 0xffff_ffff,
        ;
    }
    let bytes = low_bytes(k, width);
    assert(bytes.reverse().reverse() =~= bytes);
}

/// A byte string is hashed with its length before it, and whole.
pub proof fn law_hash_covers_bytes(bytes: &[u8], hash: u64)
    requires
        call_ensures(hash_bytes, (bytes,), hash),
    ensures
        exists|written: Seq<Seq<u8>>|
            {
                &&& hash == #[trigger] sip_finish(written)
                &&& written.len() == 2
                &&& written[0] == memory_bytes(bytes@.len() as usize)
                &&& written[1] == bytes@
            },
{
    let written = seq![memory_bytes(bytes@.len() as usize), bytes@];
    assert(hash == sip_finish(written));
}

} // verus!
