//! Overflow-checked summation of unsigned 32-bit integers.

use vstd::prelude::*;

verus! {

/// The mathematical sum of the elements of `s`.
pub open spec fn total(s: Seq<u32>) -> nat
    decreases s.len(),
{
    if s.len() == 0 {
        0
    } else {
        total(s.drop_last()) + s.last() as nat
    }
}

/// The sum of a prefix never exceeds the sum of the whole sequence.
pub proof fn lemma_total_prefix(s: Seq<u32>, n: int)
    requires
        0 <= n <= s.len(),
    ensures
        total(s.take(n)) <= total(s),
    decreases s.len() - n,
{
    if n == s.len() {
        assert(s.take(n) =~= s);
    } else {
        lemma_total_prefix(s, n + 1);
        assert(s.take(n + 1).drop_last() =~= s.take(n));
    }
}

/// Adds up `num_vector`, returning `None` as soon as a partial sum no longer
/// fits in a `u32`.
///
/// Since every element is non-negative, a partial sum overflows exactly when
/// the full sum does, so the result is `Some` of the exact total whenever that
/// total is representable and `None` otherwise.
pub fn u32_sum(num_vector: &[u32]) -> (result: Option<u32>)
    ensures
        match result {
            Some(sum) => sum as nat == total(num_vector@),
            None => total(num_vector@) > u32::MAX,
        },
{
    let mut sum: u32 = 0;
    let mut i: usize = 0;
    while i < num_vector.len()
        invariant
            i <= num_vector.len(),
            sum as nat == total(num_vector@.take(i as int)),
        decreases num_vector.len() - i,
    {
        proof {
            assert(num_vector@.take(i + 1).drop_last() =~= num_vector@.take(i as int));
            lemma_total_prefix(num_vector@, i + 1);
        }
        match sum.checked_add(num_vector[i]) {
            Some(s) => {
                sum = s;
            },
            None => {
                return None;
            },
        }
        i += 1;
    }
    proof {
        assert(num_vector@.take(i as int) =~= num_vector@);
    }
    Some(sum)
}

} // verus!
