//! Aggregation of the parallel phase: the run's total byte count is the
//! sum of the mapped lengths the workers return.

use vstd::prelude::*;

verus! {

/// The sum of a sequence of byte counts.
pub open spec fn spec_sum(s: Seq<u64>) -> int
    decreases s.len(),
{
    if s.len() == 0 {
        0
    } else {
        spec_sum(s.drop_last()) + s.last()
    }
}

/// One more element adds its value to the sum.
proof fn lemma_sum_take_step(s: Seq<u64>, k: int)
    requires
        0 <= k < s.len(),
    ensures
        spec_sum(s.take(k + 1)) == spec_sum(s.take(k)) + s[k],
{
    assert(s.take(k + 1).drop_last() =~= s.take(k));
    assert(s.take(k + 1).last() == s[k]);
}

/// A prefix never sums to more than the whole sequence.
proof fn lemma_sum_prefix_le(s: Seq<u64>, m: int)
    requires
        0 <= m <= s.len(),
    ensures
        spec_sum(s.take(m)) <= spec_sum(s),
    decreases s.len() - m,
{
    if m == s.len() {
        assert(s.take(m) =~= s);
    } else {
        lemma_sum_take_step(s, m);
        lemma_sum_prefix_le(s, m + 1);
    }
}

/// Sums the mapped lengths returned by the workers; reports when the
/// total does not fit in 64 bits instead of wrapping.
pub fn sum_lengths(lens: &Vec<u64>) -> (r: Option<u64>)
    ensures
        r is Some <==> spec_sum(lens@) <= u64::MAX,
        r is Some ==> r->Some_0 == spec_sum(lens@),
{
    let mut total: u64 = 0;
    let mut i: usize = 0;
    while i < lens.len()
        invariant
            0 <= i <= lens@.len(),
            total == spec_sum(lens@.take(i as int)),
        decreases lens@.len() - i,
    {
        let x = lens[i];
        proof {
            lemma_sum_take_step(lens@, i as int);
        }
        if total > u64::MAX - x {
            proof {
                lemma_sum_prefix_le(lens@, i as int + 1);
            }
            return None;
        }
        total = total + x;
        i = i + 1;
    }
    proof {
        assert(lens@.take(lens@.len() as int) =~= lens@);
    }
    Some(total)
}

} // verus!
