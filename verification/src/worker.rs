//! The mapped I/O worker: replays the shared workload sequence against one
//! memory-mapped backing file, chunk by chunk, in order.

use vstd::prelude::*;
use crate::CHUNKSIZE;
use crate::chunk::{
    chunk_base, spec_apply_ops, spec_rmw_chunk, spec_write_chunk,
};
use crate::mapped::{mmap_bytes, mmap_flush, mmap_len, mmap_read, mmap_write};
use crate::words::{be_byte, fill_value, spec_fill_value, spec_word_at, wrap_add32, wrapping_add32};

verus! {

/// Why a worker run failed. Any of these aborts the whole run; none is
/// retried.
#[derive(Clone, Copy, Debug, PartialEq, Eq, Structural)]
pub enum WorkerError {
    /// The mapped file's length is not the expected per-file size.
    SizeMismatch,
    /// A workload index lies outside the file's chunk range.
    IndexOutOfRange,
    /// A flush of the mapped region failed.
    FlushFailed,
}

/// Overwrites every 4-byte word of chunk `c` with the chunk's fill value,
/// big-endian.
fn apply_write_chunk(m: &mut memmap::MmapMut, c: u64)
    requires
        mmap_bytes(*old(m)).len() <= usize::MAX,
        (c as int) * (CHUNKSIZE as int) + (CHUNKSIZE as int) <= mmap_bytes(*old(m)).len(),
    ensures
        mmap_bytes(*final(m)) == spec_write_chunk(mmap_bytes(*old(m)), c as int),
{
    let ghost s0 = mmap_bytes(*m);
    let ghost base = chunk_base(c as int);
    let fill = fill_value(c);
    let b0 = (fill / 0x100_0000) as u8;
    let b1 = ((fill / 0x1_0000) % 0x100) as u8;
    let b2 = ((fill / 0x100) % 0x100) as u8;
    let b3 = (fill % 0x100) as u8;
    let words: u64 = CHUNKSIZE / 4;
    let mut j: u64 = 0;
    while j < words
        invariant
            0 <= j <= words,
            words == CHUNKSIZE / 4,
            base == chunk_base(c as int),
            s0.len() <= usize::MAX,
            (c as int) * (CHUNKSIZE as int) + (CHUNKSIZE as int) <= s0.len(),
            fill == spec_fill_value(c as int),
            b0 == be_byte(fill, 0),
            b1 == be_byte(fill, 1),
            b2 == be_byte(fill, 2),
            b3 == be_byte(fill, 3),
            mmap_bytes(*m).len() == s0.len(),
            forall|i: int|
                0 <= i < s0.len() ==> mmap_bytes(*m)[i] == (if base <= i < base + 4 * j {
                    be_byte(fill, (i - base) % 4)
                } else {
                    s0[i]
                }),
        decreases words - j,
    {
        let off: u64 = c * CHUNKSIZE + 4 * j;
        mmap_write(m, off as usize, b0);
        mmap_write(m, (off + 1) as usize, b1);
        mmap_write(m, (off + 2) as usize, b2);
        mmap_write(m, (off + 3) as usize, b3);
        proof {
            vstd::arithmetic::div_mod::lemma_mod_multiples_vanish(j as int, 0, 4);
            vstd::arithmetic::div_mod::lemma_mod_multiples_vanish(j as int, 1, 4);
            vstd::arithmetic::div_mod::lemma_mod_multiples_vanish(j as int, 2, 4);
            vstd::arithmetic::div_mod::lemma_mod_multiples_vanish(j as int, 3, 4);
            assert((off - base) % 4 == 0 && (off + 1 - base) % 4 == 1 && (off + 2 - base) % 4 == 2
                && (off + 3 - base) % 4 == 3);
        }
        j = j + 1;
    }
    proof {
        assert(mmap_bytes(*m) =~= spec_write_chunk(s0, c as int));
    }
}

/// Adds the chunk's fill value, with 32-bit wraparound, to every 4-byte
/// big-endian word of chunk `c`.
fn apply_rmw_chunk(m: &mut memmap::MmapMut, c: u64)
    requires
        mmap_bytes(*old(m)).len() <= usize::MAX,
        (c as int) * (CHUNKSIZE as int) + (CHUNKSIZE as int) <= mmap_bytes(*old(m)).len(),
    ensures
        mmap_bytes(*final(m)) == spec_rmw_chunk(mmap_bytes(*old(m)), c as int),
{
    let ghost s0 = mmap_bytes(*m);
    let ghost base = chunk_base(c as int);
    let fill = fill_value(c);
    let words: u64 = CHUNKSIZE / 4;
    let mut j: u64 = 0;
    while j < words
        invariant
            0 <= j <= words,
            words == CHUNKSIZE / 4,
            base == chunk_base(c as int),
            s0.len() <= usize::MAX,
            (c as int) * (CHUNKSIZE as int) + (CHUNKSIZE as int) <= s0.len(),
            fill == spec_fill_value(c as int),
            mmap_bytes(*m).len() == s0.len(),
            forall|i: int|
                0 <= i < s0.len() ==> mmap_bytes(*m)[i] == (if base <= i < base + 4 * j {
                    be_byte(wrap_add32(spec_word_at(s0, i - (i - base) % 4), fill), (i - base) % 4)
                } else {
                    s0[i]
                }),
        decreases words - j,
    {
        let off: u64 = c * CHUNKSIZE + 4 * j;
        let r0 = mmap_read(m, off as usize);
        let r1 = mmap_read(m, (off + 1) as usize);
        let r2 = mmap_read(m, (off + 2) as usize);
        let r3 = mmap_read(m, (off + 3) as usize);
        let w: u32 = (r0 as u32) * 0x100_0000 + (r1 as u32) * 0x1_0000 + (r2 as u32) * 0x100 + (
        r3 as u32);
        proof {
            assert(w == spec_word_at(s0, off as int));
        }
        let v = wrapping_add32(w, fill);
        let v0 = (v / 0x100_0000) as u8;
        let v1 = ((v / 0x1_0000) % 0x100) as u8;
        let v2 = ((v / 0x100) % 0x100) as u8;
        let v3 = (v % 0x100) as u8;
        mmap_write(m, off as usize, v0);
        mmap_write(m, (off + 1) as usize, v1);
        mmap_write(m, (off + 2) as usize, v2);
        mmap_write(m, (off + 3) as usize, v3);
        proof {
            vstd::arithmetic::div_mod::lemma_mod_multiples_vanish(j as int, 0, 4);
            vstd::arithmetic::div_mod::lemma_mod_multiples_vanish(j as int, 1, 4);
            vstd::arithmetic::div_mod::lemma_mod_multiples_vanish(j as int, 2, 4);
            vstd::arithmetic::div_mod::lemma_mod_multiples_vanish(j as int, 3, 4);
            assert((off - base) % 4 == 0 && (off + 1 - base) % 4 == 1 && (off + 2 - base) % 4 == 2
                && (off + 3 - base) % 4 == 3);
        }
        j = j + 1;
    }
    proof {
        assert(mmap_bytes(*m) =~= spec_rmw_chunk(s0, c as int));
    }
}

/// Replays the shared workload sequence against one mapped backing file:
/// write-only or read-modify-write per chunk, an optional flush after each
/// operation, and one unconditional flush at the end. Returns the mapped
/// length on success. A size mismatch, an out-of-range index, or a failed
/// flush is reported as an error and nothing is retried.
pub fn speedtest_testfunc(
    m: &mut memmap::MmapMut,
    expected_size: u64,
    rndvec: &Vec<u64>,
    readwrite: bool,
    async_opt: bool,
) -> (r: Result<u64, WorkerError>)
    ensures
        mmap_bytes(*final(m)).len() == mmap_bytes(*old(m)).len(),
        (r == Err::<u64, WorkerError>(WorkerError::SizeMismatch)) <==> mmap_bytes(*old(m)).len()
            != expected_size as int,
        (r == Err::<u64, WorkerError>(WorkerError::IndexOutOfRange)) <==> (mmap_bytes(
            *old(m),
        ).len() == expected_size as int && exists|q: int|
            0 <= q < rndvec@.len() && rndvec@[q] >= expected_size / CHUNKSIZE),
        (r == Err::<u64, WorkerError>(WorkerError::SizeMismatch) || r == Err::<u64, WorkerError>(
            WorkerError::IndexOutOfRange,
        )) ==> mmap_bytes(*final(m)) == mmap_bytes(*old(m)),
        r is Ok ==> r->Ok_0 == expected_size && mmap_bytes(*final(m)) == spec_apply_ops(
            mmap_bytes(*old(m)),
            rndvec@,
            readwrite,
        ),
        r == Err::<u64, WorkerError>(WorkerError::FlushFailed) ==> exists|k: int|
            0 <= k <= rndvec@.len() && mmap_bytes(*final(m)) == spec_apply_ops(
                mmap_bytes(*old(m)),
                rndvec@.take(k),
                readwrite,
            ),
{
    let len = mmap_len(m);
    if (len as u64) != expected_size {
        return Err(WorkerError::SizeMismatch);
    }
    let chunk_count = expected_size / CHUNKSIZE;
    let mut q: usize = 0;
    while q < rndvec.len()
        invariant
            0 <= q <= rndvec@.len(),
            chunk_count == expected_size / CHUNKSIZE,
            mmap_bytes(*m) == mmap_bytes(*old(m)),
            mmap_bytes(*old(m)).len() == expected_size as int,
            forall|t: int| 0 <= t < q ==> rndvec@[t] < chunk_count,
        decreases rndvec@.len() - q,
    {
        if rndvec[q] >= chunk_count {
            proof {
                assert((q as int) < rndvec@.len() && rndvec@[q as int] >= expected_size
                    / CHUNKSIZE);
            }
            return Err(WorkerError::IndexOutOfRange);
        }
        q = q + 1;
    }
    let ghost s0 = mmap_bytes(*m);
    let mut i: usize = 0;
    while i < rndvec.len()
        invariant
            0 <= i <= rndvec@.len(),
            chunk_count == expected_size / CHUNKSIZE,
            forall|t: int| 0 <= t < rndvec@.len() ==> rndvec@[t] < chunk_count,
            s0.len() == expected_size as int,
            s0.len() <= usize::MAX,
            mmap_bytes(*m).len() == s0.len(),
            s0 == mmap_bytes(*old(m)),
            mmap_bytes(*m) == spec_apply_ops(s0, rndvec@.take(i as int), readwrite),
        decreases rndvec@.len() - i,
    {
        let c = rndvec[i];
        proof {
            vstd::arithmetic::div_mod::lemma_fundamental_div_mod(
                expected_size as int,
                CHUNKSIZE as int,
            );
            vstd::arithmetic::div_mod::lemma_mod_bound(expected_size as int, CHUNKSIZE as int);
            vstd::arithmetic::mul::lemma_mul_inequality(
                c as int + 1,
                chunk_count as int,
                CHUNKSIZE as int,
            );
        }
        if readwrite {
            apply_rmw_chunk(m, c);
        } else {
            apply_write_chunk(m, c);
        }
        proof {
            crate::chunk::lemma_apply_ops_push(s0, rndvec@.take(i as int), c, readwrite);
            assert(rndvec@.take(i as int).push(c) =~= rndvec@.take(i as int + 1));
        }
        if !async_opt {
            if !mmap_flush(m) {
                proof {
                    let k = i as int + 1;
                    assert(0 <= k <= rndvec@.len() && mmap_bytes(*m) == spec_apply_ops(
                        s0,
                        rndvec@.take(k),
                        readwrite,
                    ));
                }
                return Err(WorkerError::FlushFailed);
            }
        }
        i = i + 1;
    }
    proof {
        assert(rndvec@.take(rndvec@.len() as int) =~= rndvec@);
    }
    if !mmap_flush(m) {
        proof {
            let k = rndvec@.len() as int;
            assert(0 <= k <= rndvec@.len() && mmap_bytes(*m) == spec_apply_ops(
                s0,
                rndvec@.take(k),
                readwrite,
            ));
        }
        return Err(WorkerError::FlushFailed);
    }
    Ok(expected_size)
}

} // verus!
