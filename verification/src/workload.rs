//! The shared workload sequence and the pseudo-random fill buffers.

use vstd::prelude::*;
use rand::Rng;

verus! {

/// Relies on `rand::thread_rng` and `rand::Rng::gen_range`: a uniformly
/// distributed value in `[0, bound)`. `gen_range` panics only on an empty
/// range, which `bound >= 1` rules out.
#[verifier::external_body]
fn random_below(bound: u64) -> (r: u64)
    requires
        bound >= 1,
    ensures
        r < bound,
{
    rand::thread_rng().gen_range(0..bound)
}

/// Relies on `rand::thread_rng` and `rand::Rng::gen`: one random byte;
/// nothing is promised of its value.
#[verifier::external_body]
fn random_byte() -> u8 {
    rand::thread_rng().gen()
}

/// Produces the one shared workload sequence of a run:
/// `floor(operationCount / threadCount)` chunk indices, each in
/// `[0, chunk_count)`. Every worker replays a copy of this same sequence.
pub fn generate_workload(wrnum: u32, threadnums: u64, chunk_count: u64) -> (v: Vec<u64>)
    requires
        threadnums >= 1,
        chunk_count >= 1,
    ensures
        v@.len() == (wrnum as int) / (threadnums as int),
        forall|i: int| 0 <= i < v@.len() ==> v@[i] < chunk_count,
{
    let n: u64 = (wrnum as u64) / threadnums;
    let mut v: Vec<u64> = Vec::new();
    let mut i: u64 = 0;
    while i < n
        invariant
            0 <= i <= n,
            n == (wrnum as int) / (threadnums as int),
            v@.len() == i,
            forall|t: int| 0 <= t < v@.len() ==> v@[t] < chunk_count,
            chunk_count >= 1,
        decreases n - i,
    {
        v.push(random_below(chunk_count));
        i = i + 1;
    }
    v
}

/// A pseudo-random fill buffer of the given length, generated once up
/// front and shared read-only by the provisioning tasks.
pub fn random_buffer(n: usize) -> (v: Vec<u8>)
    ensures
        v@.len() == n,
{
    let mut v: Vec<u8> = Vec::new();
    let mut i: usize = 0;
    while i < n
        invariant
            0 <= i <= n,
            v@.len() == i,
        decreases n - i,
    {
        v.push(random_byte());
        i = i + 1;
    }
    v
}

} // verus!
