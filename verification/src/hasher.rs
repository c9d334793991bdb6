//! The hash function that spreads keys over latch slots: `std`'s SipHash with both keys zero.
//!
//! What is stated of `std::hash::SipHasher` and of `usize::to_ne_bytes` here is believed, not
//! proved.

#![allow(deprecated)]

use std::hash::{Hasher, SipHasher};
use vstd::endian::{endianness, Endian};
use vstd::prelude::*;

verus! {

/// `std::hash::SipHasher`, opaque.
#[verifier::external_type_specification]
#[verifier::external_body]
pub struct ExSipHasher(SipHasher);

/// The byte strings written to a hasher so far, one for each call of `write`.
pub uninterp spec fn sip_written(hasher: SipHasher) -> Seq<Seq<u8>>;

/// What `SipHasher::finish` returns once these byte strings have been written to a new hasher.
pub uninterp spec fn sip_finish(written: Seq<Seq<u8>>) -> u64;

/// `SipHasher::new` makes a hasher whose two keys are zero, with nothing written to it.
pub assume_specification[ SipHasher::new ]() -> (hasher: SipHasher)
    ensures
        sip_written(hasher) == Seq::<Seq<u8>>::empty(),
;

/// `SipHasher::write` adds one byte string to what has been written.
pub assume_specification[ <SipHasher as Hasher>::write ](hasher: &mut SipHasher, bytes: &[u8])
    ensures
        sip_written(*final(hasher)) == sip_written(*old(hasher)).push(bytes@),
;

/// `SipHasher::finish` returns the hash of what has been written, and of nothing else.
pub assume_specification[ <SipHasher as Hasher>::finish ](hasher: &SipHasher) -> (hash: u64)
    ensures
        hash == sip_finish(sip_written(*hasher)),
;

/// The lowest `width` bytes of `n`, the lowest first.
pub open spec fn low_bytes(n: nat, width: nat) -> Seq<u8>
    decreases width,
{
    if width == 0 {
        Seq::empty()
    } else {
        seq![(n % 256) as u8] + low_bytes(n / 256, (width - 1) as nat)
    }
}

/// `n` as the machine holds it in memory: as many bytes as a `usize` has, in the machine's order.
pub open spec fn memory_bytes(n: usize) -> Seq<u8> {
    let bytes = low_bytes(n as nat, usize::BITS as nat / 8);
    match endianness() {
        Endian::Little => bytes,
        Endian::Big => bytes.reverse(),
    }
}

/// `usize::to_ne_bytes` returns the memory representation of a number, in the byte order of the
/// machine that runs.
#[verifier::external_body]
fn native_bytes(n: usize) -> (bytes: Vec<u8>)
    ensures
        bytes@ == memory_bytes(n),
{
    n.to_ne_bytes().to_vec()
}

/// The hash of a byte string: its length, as the machine holds it in memory, is written before it,
/// as `std` does for a `Vec<u8>`.
pub open spec fn hash_of(bytes: Seq<u8>) -> u64 {
    sip_finish(seq![memory_bytes(bytes.len() as usize), bytes])
}

/// Hashes a byte string.
pub fn hash_bytes(bytes: &[u8]) -> (hash: u64)
    ensures
        hash == hash_of(bytes@),
{
    let length: Vec<u8> = native_bytes(bytes.len());
    let mut hasher = SipHasher::new();
    hasher.write(length.as_slice());
    hasher.write(bytes);
    assert(sip_written(hasher) =~= seq![memory_bytes(bytes@.len() as usize), bytes@]);
    hasher.finish()
}

} // verus!
