//! Provisioning of the backing files: the per-file reuse-or-refill
//! decision, the sequential fill plan for a fresh file, and the policy for
//! reporting linear-write throughput.

use vstd::prelude::*;

verus! {

/// Length in bytes of the large pseudo-random fill buffer, a whole
/// multiple of the chunk size.
pub const FILLDATA_LEN: u64 = 128 * 1024;

/// What provisioning does with one backing file.
#[derive(Clone, Copy, Debug, PartialEq, Eq, Structural)]
pub enum ProvisionDecision {
    /// A file already exists with exactly the expected size: it is reused
    /// unmodified, its content never reset.
    Reuse,
    /// The file is missing or has the wrong size: it is created or
    /// truncated and refilled from scratch.
    Refill,
}

/// How one backing file was actually provisioned.
#[derive(Clone, Copy, Debug, PartialEq, Eq, Structural)]
pub enum ProvisionOutcome {
    /// The file was freshly created and filled in this run.
    Created,
    /// A correctly sized file pre-existed and was reused.
    Reused,
}

/// The per-file provisioning decision: reuse exactly when a file exists
/// whose size equals the expected per-file size.
pub fn provision_decision(existing_size: Option<u64>, filesize: u64) -> (d: ProvisionDecision)
    ensures
        (d == ProvisionDecision::Reuse) <==> existing_size == Some(filesize),
{
    match existing_size {
        Some(sz) => {
            if sz == filesize {
                ProvisionDecision::Reuse
            } else {
                ProvisionDecision::Refill
            }
        },
        None => ProvisionDecision::Refill,
    }
}

/// The result policy: aggregate linear-write throughput is reported if and
/// only if every backing file was freshly created in this run; one reused
/// file suppresses the measurement for the whole run.
pub fn throughput_measured(outcomes: &Vec<ProvisionOutcome>) -> (b: bool)
    ensures
        b <==> (forall|i: int|
            0 <= i < outcomes@.len() ==> outcomes@[i] == ProvisionOutcome::Created),
{
    let mut i: usize = 0;
    while i < outcomes.len()
        invariant
            0 <= i <= outcomes@.len(),
            forall|t: int| 0 <= t < i ==> outcomes@[t] == ProvisionOutcome::Created,
        decreases outcomes@.len() - i,
    {
        if outcomes[i] == ProvisionOutcome::Reused {
            proof {
                assert(outcomes@[i as int] != ProvisionOutcome::Created);
            }
            return false;
        }
        i = i + 1;
    }
    true
}

/// The sequential fill plan for a fresh backing file: how many whole
/// copies of the large fill buffer fit, then how many chunk-sized copies
/// cover what remains.
pub fn fill_plan(filesize: u64, big_len: u64, chunk_len: u64) -> (r: (u64, u64))
    requires
        big_len >= 1,
        chunk_len >= 1,
    ensures
        r.0 == filesize / big_len,
        r.1 == (filesize % big_len) / chunk_len,
{
    let mut remain: u64 = filesize;
    let mut nbig: u64 = 0;
    while remain >= big_len
        invariant
            big_len >= 1,
            nbig * big_len + remain == filesize,
        decreases remain,
    {
        proof {
            vstd::arithmetic::mul::lemma_mul_inequality(1, big_len as int, nbig as int);
            vstd::arithmetic::mul::lemma_mul_is_commutative(big_len as int, nbig as int);
        }
        remain = remain - big_len;
        nbig = nbig + 1;
        proof {
            vstd::arithmetic::mul::lemma_mul_is_distributive_add_other_way(
                big_len as int,
                nbig as int - 1,
                1,
            );
        }
    }
    proof {
        vstd::arithmetic::div_mod::lemma_fundamental_div_mod_converse(
            filesize as int,
            big_len as int,
            nbig as int,
            remain as int,
        );
    }
    let mut nchunk: u64 = 0;
    let ghost rem0 = remain as int;
    while remain >= chunk_len
        invariant
            chunk_len >= 1,
            0 <= rem0 <= u64::MAX,
            nchunk * chunk_len + remain == rem0,
        decreases remain,
    {
        proof {
            vstd::arithmetic::mul::lemma_mul_inequality(1, chunk_len as int, nchunk as int);
            vstd::arithmetic::mul::lemma_mul_is_commutative(chunk_len as int, nchunk as int);
        }
        remain = remain - chunk_len;
        nchunk = nchunk + 1;
        proof {
            vstd::arithmetic::mul::lemma_mul_is_distributive_add_other_way(
                chunk_len as int,
                nchunk as int - 1,
                1,
            );
        }
    }
    proof {
        vstd::arithmetic::div_mod::lemma_fundamental_div_mod_converse(
            rem0,
            chunk_len as int,
            nchunk as int,
            remain as int,
        );
    }
    (nbig, nchunk)
}

/// A fresh backing file is filled to exactly the requested size: when the
/// chunk size divides both the file size and the large buffer's length,
/// the fill plan's writes cover every byte of the file.
pub proof fn lemma_fill_plan_covers(filesize: int, big_len: int, chunk_len: int)
    requires
        chunk_len >= 1,
        big_len >= 1,
        0 <= filesize,
        big_len % chunk_len == 0,
        filesize % chunk_len == 0,
    ensures
        (filesize / big_len) * big_len + ((filesize % big_len) / chunk_len) * chunk_len
            == filesize,
{
    let q = filesize / big_len;
    let r = filesize % big_len;
    vstd::arithmetic::div_mod::lemma_fundamental_div_mod(filesize, big_len);
    vstd::arithmetic::div_mod::lemma_mod_bound(filesize, big_len);
    vstd::arithmetic::mul::lemma_mul_is_commutative(big_len, q);
    assert(filesize == q * big_len + r);
    vstd::arithmetic::div_mod::lemma_fundamental_div_mod(big_len, chunk_len);
    let b = big_len / chunk_len;
    assert(big_len == chunk_len * b);
    assert(q * big_len == (q * b) * chunk_len) by {
        vstd::arithmetic::mul::lemma_mul_is_associative(q, b, chunk_len);
        vstd::arithmetic::mul::lemma_mul_is_commutative(chunk_len, b);
        vstd::arithmetic::mul::lemma_mul_is_associative(q, chunk_len, b);
        vstd::arithmetic::mul::lemma_mul_is_commutative(q * chunk_len, b);
        vstd::arithmetic::mul::lemma_mul_is_commutative(q * b, chunk_len);
    }
    assert((q * big_len) % chunk_len == 0) by {
        vstd::arithmetic::div_mod::lemma_mod_multiples_basic(q * b, chunk_len);
    }
    assert(r % chunk_len == 0) by {
        vstd::arithmetic::div_mod::lemma_add_mod_noop(q * big_len, r, chunk_len);
        vstd::arithmetic::div_mod::lemma_mod_bound(r, chunk_len);
        vstd::arithmetic::div_mod::lemma_small_mod((r % chunk_len) as nat, chunk_len as nat);
    }
    vstd::arithmetic::div_mod::lemma_fundamental_div_mod(r, chunk_len);
    vstd::arithmetic::mul::lemma_mul_is_commutative(chunk_len, r / chunk_len);
}

} // verus!
