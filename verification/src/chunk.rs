//! The two chunk operations of the random-access phase, as functions on
//! byte sequences: overwrite a chunk with its fill value, or add the fill
//! value to every word of the chunk with 32-bit wraparound.

use vstd::prelude::*;
use crate::CHUNKSIZE;
use crate::words::{be_byte, spec_fill_value, spec_word_at, wrap_add32};

verus! {

/// Byte offset at which chunk `c` starts.
pub open spec fn chunk_base(c: int) -> int {
    c * (CHUNKSIZE as int)
}

/// Whether byte `i` lies within chunk `c`.
pub open spec fn in_chunk(c: int, i: int) -> bool {
    chunk_base(c) <= i < chunk_base(c) + CHUNKSIZE
}

/// Write-only operation on chunk `c`: every 4-byte word of the chunk is
/// overwritten with the chunk's fill value, big-endian; all other bytes
/// are untouched.
pub open spec fn spec_write_chunk(s: Seq<u8>, c: int) -> Seq<u8> {
    Seq::new(
        s.len(),
        |i: int|
            if in_chunk(c, i) {
                be_byte(spec_fill_value(c), (i - chunk_base(c)) % 4)
            } else {
                s[i]
            },
    )
}

/// Read-modify-write operation on chunk `c`: every 4-byte word of the
/// chunk is decoded big-endian, increased by the chunk's fill value with
/// 32-bit wraparound, and re-encoded; all other bytes are untouched.
pub open spec fn spec_rmw_chunk(s: Seq<u8>, c: int) -> Seq<u8> {
    Seq::new(
        s.len(),
        |i: int|
            if in_chunk(c, i) {
                be_byte(
                    wrap_add32(spec_word_at(s, i - (i - chunk_base(c)) % 4), spec_fill_value(c)),
                    (i - chunk_base(c)) % 4,
                )
            } else {
                s[i]
            },
    )
}

/// One operation of the workload: read-modify-write when `readwrite` is
/// set, write-only otherwise.
pub open spec fn spec_apply_op(s: Seq<u8>, c: int, readwrite: bool) -> Seq<u8> {
    if readwrite {
        spec_rmw_chunk(s, c)
    } else {
        spec_write_chunk(s, c)
    }
}

/// The whole workload applied in order.
pub open spec fn spec_apply_ops(s: Seq<u8>, idxs: Seq<u64>, readwrite: bool) -> Seq<u8>
    decreases idxs.len(),
{
    if idxs.len() == 0 {
        s
    } else {
        spec_apply_ops(spec_apply_op(s, idxs[0] as int, readwrite), idxs.drop_first(), readwrite)
    }
}

/// A workload extended by one index is the workload followed by one more
/// operation.
pub proof fn lemma_apply_ops_push(s: Seq<u8>, idxs: Seq<u64>, x: u64, readwrite: bool)
    ensures
        spec_apply_ops(s, idxs.push(x), readwrite) == spec_apply_op(
            spec_apply_ops(s, idxs, readwrite),
            x as int,
            readwrite,
        ),
    decreases idxs.len(),
{
    if idxs.len() == 0 {
        assert(idxs.push(x)[0] == x);
        assert(idxs.push(x).drop_first() =~= idxs);
        assert(spec_apply_ops(s, idxs.push(x), readwrite) == spec_apply_ops(
            spec_apply_op(s, x as int, readwrite),
            idxs,
            readwrite,
        ));
        assert(spec_apply_ops(spec_apply_op(s, x as int, readwrite), idxs, readwrite)
            == spec_apply_op(s, x as int, readwrite));
        assert(spec_apply_ops(s, idxs, readwrite) == s);
    } else {
        let hd = spec_apply_op(s, idxs[0] as int, readwrite);
        assert(idxs.push(x)[0] == idxs[0]);
        assert(idxs.push(x).drop_first() =~= idxs.drop_first().push(x));
        assert(spec_apply_ops(s, idxs.push(x), readwrite) == spec_apply_ops(
            hd,
            idxs.drop_first().push(x),
            readwrite,
        ));
        lemma_apply_ops_push(hd, idxs.drop_first(), x, readwrite);
        assert(spec_apply_ops(s, idxs, readwrite) == spec_apply_ops(
            hd,
            idxs.drop_first(),
            readwrite,
        ));
    }
}

/// Write-only mode is idempotent per chunk: applying it twice to the same
/// index yields the same bytes as applying it once.
pub proof fn lemma_write_chunk_idempotent(s: Seq<u8>, c: int)
    ensures
        spec_write_chunk(spec_write_chunk(s, c), c) == spec_write_chunk(s, c),
{
    assert(spec_write_chunk(spec_write_chunk(s, c), c) =~= spec_write_chunk(s, c));
}

/// Helper: reading word `j` of chunk `c` after a read-modify-write
/// operation gives the old word increased by the fill value, and after a
/// write-only operation gives the fill value itself.
proof fn lemma_chunk_word(s: Seq<u8>, c: int, j: int)
    requires
        0 <= c,
        0 <= j < CHUNKSIZE / 4,
        chunk_base(c) + CHUNKSIZE <= s.len(),
    ensures
        spec_word_at(spec_write_chunk(s, c), chunk_base(c) + 4 * j) == spec_fill_value(c),
        spec_word_at(spec_rmw_chunk(s, c), chunk_base(c) + 4 * j) == wrap_add32(
            spec_word_at(s, chunk_base(c) + 4 * j),
            spec_fill_value(c),
        ),
{
    let base = chunk_base(c);
    let off = base + 4 * j;
    let f = spec_fill_value(c);
    vstd::arithmetic::div_mod::lemma_mod_multiples_vanish(j, 0, 4);
    vstd::arithmetic::div_mod::lemma_mod_multiples_vanish(j, 1, 4);
    vstd::arithmetic::div_mod::lemma_mod_multiples_vanish(j, 2, 4);
    vstd::arithmetic::div_mod::lemma_mod_multiples_vanish(j, 3, 4);
    assert((off - base) % 4 == 0);
    assert((off + 1 - base) % 4 == 1);
    assert((off + 2 - base) % 4 == 2);
    assert((off + 3 - base) % 4 == 3);
    assert(in_chunk(c, off) && in_chunk(c, off + 1) && in_chunk(c, off + 2) && in_chunk(
        c,
        off + 3,
    ));
    crate::words::lemma_word_at_encoded(spec_write_chunk(s, c), off, f);
    let v = wrap_add32(spec_word_at(s, off), f);
    assert(spec_rmw_chunk(s, c)[off] == be_byte(v, 0));
    assert(spec_rmw_chunk(s, c)[off + 1] == be_byte(v, 1));
    assert(spec_rmw_chunk(s, c)[off + 2] == be_byte(v, 2));
    assert(spec_rmw_chunk(s, c)[off + 3] == be_byte(v, 3));
    crate::words::lemma_word_at_encoded(spec_rmw_chunk(s, c), off, v);
}

/// After a write-only operation on a chunk, every word of the chunk reads
/// back as the chunk's fill value, big-endian.
pub proof fn lemma_write_chunk_round_trip(s: Seq<u8>, c: int, j: int)
    requires
        0 <= c,
        0 <= j < CHUNKSIZE / 4,
        chunk_base(c) + CHUNKSIZE <= s.len(),
    ensures
        spec_word_at(spec_write_chunk(s, c), chunk_base(c) + 4 * j) == spec_fill_value(c),
{
    lemma_chunk_word(s, c, j);
}

/// Read-modify-write mode is additive: two successive operations on the
/// same chunk increase every word of the chunk by twice the fill value,
/// with 32-bit wraparound, relative to its value before the first.
pub proof fn lemma_rmw_chunk_additive(s: Seq<u8>, c: int, j: int)
    requires
        0 <= c,
        0 <= j < CHUNKSIZE / 4,
        chunk_base(c) + CHUNKSIZE <= s.len(),
    ensures
        spec_word_at(spec_rmw_chunk(spec_rmw_chunk(s, c), c), chunk_base(c) + 4 * j) == wrap_add32(
            spec_word_at(s, chunk_base(c) + 4 * j),
            wrap_add32(spec_fill_value(c), spec_fill_value(c)),
        ),
{
    let off = chunk_base(c) + 4 * j;
    let f = spec_fill_value(c);
    let w0 = spec_word_at(s, off);
    lemma_chunk_word(s, c, j);
    lemma_chunk_word(spec_rmw_chunk(s, c), c, j);
    crate::words::lemma_wrap_add_twice(w0, f);
}

} // verus!
