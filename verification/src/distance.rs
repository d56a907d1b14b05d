//! Squared Euclidean distance between integer vectors.
//!
//! The squared distance of two equal-length vectors is the sum of the squared
//! elementwise differences. Every comparison the store makes is between
//! squared distances, which orders records exactly as the rooted distance
//! would, since the square root is monotone.

use crate::error::VectorError;
use vstd::prelude::*;

verus! {

/// The squared difference of the components at position `i - 1`.
pub open spec fn sq_diff_at(a: Seq<i32>, b: Seq<i32>, i: int) -> int {
    (a[i - 1] - b[i - 1]) * (a[i - 1] - b[i - 1])
}

/// The sum of squared differences over the first `n` positions.
pub open spec fn dist_sq_upto(a: Seq<i32>, b: Seq<i32>, n: int) -> int
    decreases n,
{
    if n <= 0 {
        0
    } else {
        dist_sq_upto(a, b, n - 1) + sq_diff_at(a, b, n)
    }
}

/// The squared Euclidean distance of `a` and `b`, meaningful when the two
/// sequences have equal length.
pub open spec fn dist_sq(a: Seq<i32>, b: Seq<i32>) -> int {
    dist_sq_upto(a, b, a.len() as int)
}

/// A partial sum of squared `i32` differences is non-negative and at most
/// `n` times the largest possible squared difference, `(2^32 - 1)^2`.
pub proof fn lemma_dist_sq_upto_bound(a: Seq<i32>, b: Seq<i32>, n: int)
    requires
        0 <= n <= a.len(),
        a.len() == b.len(),
    ensures
        0 <= dist_sq_upto(a, b, n) <= n * 0xFFFF_FFFE_0000_0001,
    decreases n,
{
    if n > 0 {
        lemma_dist_sq_upto_bound(a, b, n - 1);
        let d = a[n - 1] - b[n - 1];
        assert(0 <= d * d <= 0xFFFF_FFFE_0000_0001) by (nonlinear_arith)
            requires
                -0x1_0000_0000 < d < 0x1_0000_0000,
        ;
    }
}

/// Computes `dist_sq` over vectors already known to have equal length.
///
/// The accumulator cannot overflow: a vector holds fewer than `2^64`
/// components and each squared difference is at most `(2^32 - 1)^2`, so the
/// sum stays below `2^128`.
pub(crate) fn dist_sq_exec(a: &Vec<i32>, b: &Vec<i32>) -> (r: u128)
    requires
        a@.len() == b@.len(),
    ensures
        r == dist_sq(a@, b@),
{
    let n: usize = a.len();
    let mut sum: u128 = 0;
    let mut i: usize = 0;
    while i < n
        invariant
            i <= n,
            n == a@.len(),
            a@.len() == b@.len(),
            sum == dist_sq_upto(a@, b@, i as int),
        decreases n - i,
    {
        let d: i64 = (a[i] as i64) - (b[i] as i64);
        proof {
            lemma_dist_sq_upto_bound(a@, b@, i as int);
            assert(0 <= (d as int) * (d as int) <= 0xFFFF_FFFE_0000_0001) by (nonlinear_arith)
                requires
                    -0x1_0000_0000 < d < 0x1_0000_0000,
            ;
        }
        let sq: u128 = ((d as i128) * (d as i128)) as u128;
        sum = sum + sq;
        i = i + 1;
    }
    sum
}

/// The squared Euclidean distance of `a` and `b`, or `DimensionMismatch`
/// exactly when the two vectors differ in length.
pub fn distance_squared(a: &Vec<i32>, b: &Vec<i32>) -> (r: Result<u128, VectorError>)
    ensures
        a@.len() == b@.len() ==> (r matches Ok(d) && d == dist_sq(a@, b@)),
        a@.len() != b@.len() ==> r == Err::<u128, VectorError>(VectorError::DimensionMismatch),
{
    if a.len() != b.len() {
        Err(VectorError::DimensionMismatch)
    } else {
        Ok(dist_sq_exec(a, b))
    }
}

} // verus!
