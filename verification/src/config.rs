//! The validated configuration of one benchmark run and the sizes derived
//! from it.

use vstd::prelude::*;
use crate::CHUNKSIZE;

verus! {

/// Parameters of one run, immutable once validated and shared read-only by
/// every worker.
pub struct RunConfig {
    /// Total backing size across all threads, in MB.
    pub mbyte: u64,
    /// Defer per-operation flushes to one flush at the end.
    pub async_opt: bool,
    /// Read-modify-write instead of write-only.
    pub readwrite: bool,
    /// Total operation count across all threads.
    pub wrnum: u32,
    /// Worker thread count; one backing file per worker.
    pub threadnums: u64,
    /// Retain the backing files after the run.
    pub keepfiles: bool,
}

impl RunConfig {
    /// Total requested backing size in bytes across all threads.
    pub open spec fn spec_total_bytes(self) -> int {
        self.mbyte * 0x10_0000
    }

    /// Total number of chunks across all threads.
    pub open spec fn spec_total_chunks(self) -> int {
        self.spec_total_bytes() / (CHUNKSIZE as int)
    }

    /// Size in bytes of every backing file:
    /// `CHUNKSIZE * (totalChunks / threadCount)`.
    pub open spec fn spec_filesize(self) -> int {
        (CHUNKSIZE as int) * (self.spec_total_chunks() / (self.threadnums as int))
    }

    /// A valid configuration: positive size, operation count and thread
    /// count; a total size whose byte count is representable; and at least
    /// one whole chunk per thread.
    pub open spec fn wf(self) -> bool {
        &&& self.mbyte >= 1
        &&& self.wrnum >= 1
        &&& self.threadnums >= 1
        &&& self.mbyte <= (u64::MAX as int) / 0x10_0000
        &&& self.spec_total_chunks() / (self.threadnums as int) >= 1
    }

    /// Validates raw parameters into a run configuration; rejects exactly
    /// the parameter sets that no valid run can use.
    pub fn new(
        mbyte: u64,
        async_opt: bool,
        readwrite: bool,
        wrnum: u32,
        threadnums: u64,
        keepfiles: bool,
    ) -> (r: Option<RunConfig>)
        ensures
            r is Some <==> (RunConfig {
                mbyte,
                async_opt,
                readwrite,
                wrnum,
                threadnums,
                keepfiles,
            }).wf(),
            r is Some ==> r->Some_0 == (RunConfig {
                mbyte,
                async_opt,
                readwrite,
                wrnum,
                threadnums,
                keepfiles,
            }),
    {
        if mbyte >= 1 && wrnum >= 1 && threadnums >= 1 && mbyte <= u64::MAX / 0x10_0000 {
            proof {
                lemma_mul_div_le(mbyte as int, u64::MAX as int, 0x10_0000);
            }
            let total: u64 = mbyte * 0x10_0000;
            let chunks: u64 = total / CHUNKSIZE;
            if chunks / threadnums >= 1 {
                Some(
                    RunConfig {
                        mbyte,
                        async_opt,
                        readwrite,
                        wrnum,
                        threadnums,
                        keepfiles,
                    },
                )
            } else {
                None
            }
        } else {
            None
        }
    }

    /// Size in bytes of each backing file.
    pub fn filesize(&self) -> (r: u64)
        requires
            self.wf(),
        ensures
            r == self.spec_filesize(),
            r >= CHUNKSIZE,
            r % CHUNKSIZE == 0,
    {
        proof {
            lemma_mul_div_le(self.mbyte as int, u64::MAX as int, 0x10_0000);
        }
        let total: u64 = self.mbyte * 0x10_0000;
        let chunks: u64 = total / CHUNKSIZE;
        let per: u64 = chunks / self.threadnums;
        proof {
            vstd::arithmetic::div_mod::lemma_div_is_ordered_by_denominator(
                chunks as int,
                1,
                self.threadnums as int,
            );
            vstd::arithmetic::mul::lemma_mul_inequality(
                per as int,
                chunks as int,
                CHUNKSIZE as int,
            );
            vstd::arithmetic::div_mod::lemma_fundamental_div_mod(total as int, CHUNKSIZE as int);
            vstd::arithmetic::div_mod::lemma_mod_bound(total as int, CHUNKSIZE as int);
            vstd::arithmetic::div_mod::lemma_mod_multiples_basic(per as int, CHUNKSIZE as int);
        }
        CHUNKSIZE * per
    }

    /// Number of chunks in each backing file.
    pub fn chunk_count(&self) -> (r: u64)
        requires
            self.wf(),
        ensures
            r == self.spec_filesize() / (CHUNKSIZE as int),
            r >= 1,
    {
        let r = self.filesize() / CHUNKSIZE;
        proof {
            vstd::arithmetic::div_mod::lemma_div_multiples_vanish(
                self.spec_total_chunks() / (self.threadnums as int),
                CHUNKSIZE as int,
            );
        }
        r
    }

    /// Number of operations each worker performs:
    /// `floor(operationCount / threadCount)`; the remainder is dropped.
    pub fn ops_per_thread(&self) -> (r: u64)
        requires
            self.wf(),
        ensures
            r == (self.wrnum as int) / (self.threadnums as int),
    {
        (self.wrnum as u64) / self.threadnums
    }

    /// Number of operations actually performed across the whole run.
    pub fn total_operations(&self) -> (r: u64)
        requires
            self.wf(),
        ensures
            r == ((self.wrnum as int) / (self.threadnums as int)) * (self.threadnums as int),
            r <= self.wrnum,
    {
        let per = self.ops_per_thread();
        proof {
            vstd::arithmetic::div_mod::lemma_fundamental_div_mod(
                self.wrnum as int,
                self.threadnums as int,
            );
            vstd::arithmetic::div_mod::lemma_mod_bound(self.wrnum as int, self.threadnums as int);
        }
        per * self.threadnums
    }
}

/// From `a <= m / d` (with `d > 0`) it follows that `a * d <= m`.
proof fn lemma_mul_div_le(a: int, m: int, d: int)
    requires
        0 < d,
        0 <= a <= m / d,
    ensures
        a * d <= m,
{
    vstd::arithmetic::mul::lemma_mul_inequality(a, m / d, d);
    vstd::arithmetic::div_mod::lemma_fundamental_div_mod(m, d);
    vstd::arithmetic::div_mod::lemma_mod_bound(m, d);
}

} // verus!
