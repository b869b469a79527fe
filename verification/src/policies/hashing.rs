//! The hash that places keys and workers on the ring.
//!
//! FNV-1a over the bytes, followed by a finalizer that spreads the state
//! over all 64 bits. The hash is fixed: the same bytes give the same
//! position in every process.

use vstd::prelude::*;

verus! {

pub const FNV_OFFSET: u64 = 0xcbf2_9ce4_8422_2325;

pub const FNV_PRIME: u64 = 0x0000_0100_0000_01b3;

pub const MIX_FIRST: u64 = 0xff51_afd7_ed55_8ccd;

pub const MIX_SECOND: u64 = 0xc4ce_b9fe_1a85_ec53;

/// One round of FNV-1a: the byte is folded into the state, then the state is
/// multiplied by the prime, modulo 2^64.
pub open spec fn fnv1a_step(state: u64, byte: u8) -> u64 {
    (state ^ (byte as u64)).wrapping_mul(FNV_PRIME)
}

/// FNV-1a over `bytes`, started from `state`.
pub open spec fn fnv1a_fold(state: u64, bytes: Seq<u8>) -> u64
    decreases bytes.len(),
{
    if bytes.len() == 0 {
        state
    } else {
        fnv1a_step(fnv1a_fold(state, bytes.drop_last()), bytes.last())
    }
}

/// The finalizer: two rounds of xor-shift and multiplication, and a last
/// xor-shift.
pub open spec fn mix(state: u64) -> u64 {
    let a = state ^ (state >> 33);
    let b = a.wrapping_mul(MIX_FIRST);
    let c = b ^ (b >> 33);
    let d = c.wrapping_mul(MIX_SECOND);
    d ^ (d >> 33)
}

/// The position of `bytes` on the ring.
pub open spec fn hash_bytes(bytes: Seq<u8>) -> u64 {
    mix(fnv1a_fold(FNV_OFFSET, bytes))
}

/// The two bytes that tell the virtual nodes of one worker apart.
pub open spec fn replica_tag(replica: u16) -> Seq<u8> {
    seq![(replica & 0xff) as u8, (replica >> 8) as u8]
}

/// The position of virtual node `replica` of a worker, from the state that
/// folding the worker's URL ends in: the two bytes of the tag are folded in,
/// then the state is finished.
pub open spec fn replica_position_from(url_state: u64, replica: u16) -> u64 {
    mix(
        fnv1a_step(
            fnv1a_step(url_state, (replica & 0xff) as u8),
            (replica >> 8) as u8,
        ),
    )
}

/// The position of virtual node `replica` of the worker at `url`.
pub open spec fn ring_position(url: Seq<u8>, replica: u16) -> u64 {
    replica_position_from(fnv1a_fold(FNV_OFFSET, url), replica)
}

/// Folding over a sequence with one more byte is one more round.
pub proof fn lemma_fold_push(state: u64, bytes: Seq<u8>, byte: u8)
    ensures
        fnv1a_fold(state, bytes.push(byte)) == fnv1a_step(fnv1a_fold(state, bytes), byte),
{
    assert(bytes.push(byte).drop_last() == bytes);
}

pub fn step(state: u64, byte: u8) -> (next: u64)
    ensures
        next == fnv1a_step(state, byte),
{
    (state ^ (byte as u64)).wrapping_mul(FNV_PRIME)
}

/// FNV-1a over `bytes`, started from `state`.
pub fn fold(state: u64, bytes: &[u8]) -> (end: u64)
    ensures
        end == fnv1a_fold(state, bytes@),
{
    let mut end = state;
    let mut i: usize = 0;
    while i < bytes.len()
        invariant
            i <= bytes.len(),
            end == fnv1a_fold(state, bytes@.take(i as int)),
        decreases bytes.len() - i,
    {
        proof {
            assert(bytes@.take(i + 1).drop_last() == bytes@.take(i as int));
        }
        end = step(end, bytes[i]);
        i += 1;
    }
    proof {
        assert(bytes@.take(i as int) == bytes@);
    }
    end
}

/// FNV-1a over the bytes of `bytes` from `from` up to `to`, started from
/// `state`.
pub fn fold_range(state: u64, bytes: &[u8], from: usize, to: usize) -> (end: u64)
    requires
        from <= to <= bytes@.len(),
    ensures
        end == fnv1a_fold(state, bytes@.subrange(from as int, to as int)),
{
    let mut end = state;
    let mut i: usize = from;
    while i < to
        invariant
            from <= i <= to,
            to <= bytes@.len(),
            end == fnv1a_fold(state, bytes@.subrange(from as int, i as int)),
        decreases to - i,
    {
        proof {
            assert(bytes@.subrange(from as int, i + 1).drop_last() == bytes@.subrange(
                from as int,
                i as int,
            ));
        }
        end = step(end, bytes[i]);
        i += 1;
    }
    end
}

pub fn finish(state: u64) -> (position: u64)
    ensures
        position == mix(state),
{
    let a = state ^ (state >> 33);
    let b = a.wrapping_mul(MIX_FIRST);
    let c = b ^ (b >> 33);
    let d = c.wrapping_mul(MIX_SECOND);
    d ^ (d >> 33)
}

/// The position of `bytes` on the ring.
pub fn hash(bytes: &[u8]) -> (position: u64)
    ensures
        position == hash_bytes(bytes@),
{
    finish(fold(FNV_OFFSET, bytes))
}

/// The position of virtual node `replica` of a worker, from the state that
/// folding the worker's URL ends in.
pub fn replica_position(url_state: u64, replica: u16) -> (position: u64)
    ensures
        position == replica_position_from(url_state, replica),
{
    let low = (replica & 0xff) as u8;
    let high = (replica >> 8) as u8;
    finish(step(step(url_state, low), high))
}

/// A virtual node lies where the worker's URL, followed by the node's tag,
/// hashes to.
pub proof fn law_ring_position_is_a_hash(url: Seq<u8>, replica: u16)
    ensures
        ring_position(url, replica) == hash_bytes(url + replica_tag(replica)),
{
    let low = (replica & 0xff) as u8;
    let high = (replica >> 8) as u8;
    lemma_fold_push(FNV_OFFSET, url, low);
    lemma_fold_push(FNV_OFFSET, url.push(low), high);
    assert(url + replica_tag(replica) == url.push(low).push(high));
}

} // verus!
