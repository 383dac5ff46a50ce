//! Reusable arena buffers for the arena buffer strategy.
//!
//! The pool is a plain vector of buffers; callers keep one per thread.
use vstd::prelude::*;

verus! {

/// Default capacity of a fresh arena buffer.
pub const DEFAULT_ARENA_CAPACITY: usize = 4096;

/// All bytes are zero.
pub open spec fn all_zero(s: Seq<u8>) -> bool {
    forall|i: int| 0 <= i < s.len() ==> s[i] == 0
}

/// Calls `Vec::capacity`. Claims what its documentation guarantees: the
/// capacity is never below the length.
#[verifier::external_body]
fn capacity(v: &Vec<u8>) -> (c: usize)
    ensures
        c >= v@.len(),
{
    v.capacity()
}

/// Calls `Vec::reserve_exact`. Claims: the contents are unchanged. (Its
/// documentation also promises a capacity of at least the length plus
/// `additional`; the capacity is what the allocator gave and is left unsaid
/// here, so callers size the refill themselves.)
#[verifier::external_body]
fn reserve_exact(v: &mut Vec<u8>, additional: usize)
    ensures
        final(v)@ == old(v)@,
{
    v.reserve_exact(additional)
}

/// Refills a buffer with zeros over its whole capacity, and over at least
/// `at_least` bytes. After a reserve of room for `at_least` bytes the capacity
/// already covers them, so the refill is exactly the capacity.
fn zero_fill(buf: &mut Vec<u8>, at_least: usize)
    ensures
        all_zero(final(buf)@),
        final(buf)@.len() >= old(buf)@.len(),
        final(buf)@.len() >= at_least,
{
    let cap = capacity(buf);
    let n = if cap >= at_least {
        cap
    } else {
        at_least
    };
    buf.clear();
    buf.resize(n, 0u8);
}

/// Takes a buffer from `pool` (or makes a new one) with room for at least
/// `min_capacity` bytes (and at least [`DEFAULT_ARENA_CAPACITY`]), zero-filled
/// over its whole capacity.
pub fn acquire_arena(pool: &mut Vec<Vec<u8>>, min_capacity: usize) -> (buf: Vec<u8>)
    ensures
        all_zero(buf@),
        old(pool)@.len() == 0 ==> final(pool)@ == old(pool)@ && buf@.len() == if min_capacity
            > DEFAULT_ARENA_CAPACITY {
            min_capacity
        } else {
            DEFAULT_ARENA_CAPACITY
        },
        old(pool)@.len() > 0 ==> final(pool)@ == old(pool)@.drop_last() && buf@.len() >= old(
            pool,
        )@.last()@.len() && buf@.len() >= if min_capacity > DEFAULT_ARENA_CAPACITY {
            min_capacity
        } else {
            DEFAULT_ARENA_CAPACITY
        },
{
    let target = if min_capacity > DEFAULT_ARENA_CAPACITY {
        min_capacity
    } else {
        DEFAULT_ARENA_CAPACITY
    };
    match pool.pop() {
        Some(mut buf) => {
            let cap = capacity(&buf);
            if cap < target {
                let extra = target - buf.len();
                reserve_exact(&mut buf, extra);
            }
            zero_fill(&mut buf, target);
            buf
        },
        None => vec![0u8; target],
    }
}

/// Returns a buffer to `pool` for reuse.
pub fn release_arena(pool: &mut Vec<Vec<u8>>, buf: Vec<u8>)
    ensures
        final(pool)@ == old(pool)@.push(buf),
{
    pool.push(buf);
}

/// Grows `buf` to hold at least `needed_capacity` bytes and zero-fills it
/// over its whole capacity.
pub fn grow_arena(buf: &mut Vec<u8>, needed_capacity: usize)
    ensures
        all_zero(final(buf)@),
        final(buf)@.len() >= old(buf)@.len(),
        final(buf)@.len() >= needed_capacity,
{
    let cap = capacity(buf);
    if cap < needed_capacity {
        let extra = needed_capacity - buf.len();
        reserve_exact(buf, extra);
    }
    zero_fill(buf, needed_capacity);
}

} // verus!
