//! Simple arithmetic helpers gathered as methods on one carrier type.

use vstd::prelude::*;

verus! {

/// The sum of the first `k` elements of `s`.
pub open spec fn sum_prefix(s: Seq<i32>, k: int) -> int
    decreases k,
{
    if k <= 0 {
        0
    } else {
        sum_prefix(s, k - 1) + s[k - 1]
    }
}

/// A carrier for the arithmetic methods.
pub struct SimpleMethods {}

impl SimpleMethods {
    /// Twice the argument, staying within the 32-bit range.
    pub fn double_int32(x: i32) -> (r: i32)
        requires
            i32::MIN <= 2 * (x as int) <= i32::MAX,
        ensures
            r == 2 * (x as int),
    {
        x * 2
    }

    /// Twice the argument, widened so it always fits.
    pub fn double_int64(x: i32) -> (r: i64)
        ensures
            r == 2 * (x as int),
    {
        x as i64 * 2i64
    }

    /// The sum of the pair, staying within the 32-bit range.
    pub fn tuple_sum(tup: (i32, i32)) -> (r: i32)
        requires
            i32::MIN <= tup.0 + tup.1 <= i32::MAX,
        ensures
            r == tup.0 + tup.1,
    {
        tup.0 + tup.1
    }

    /// The sum of the three elements; every partial sum stays within the
    /// 32-bit range, as the running total is a 32-bit value.
    pub fn array_sum(arr: [i32; 3]) -> (r: i32)
        requires
            i32::MIN <= arr[0] + arr[1] <= i32::MAX,
            i32::MIN <= arr[0] + arr[1] + arr[2] <= i32::MAX,
        ensures
            r == arr[0] + arr[1] + arr[2],
    {
        proof {
            assert(sum_prefix(arr@, 0) == 0);
            assert(sum_prefix(arr@, 1) == arr[0]);
            assert(sum_prefix(arr@, 2) == arr[0] + arr[1]);
            assert(sum_prefix(arr@, 3) == arr[0] + arr[1] + arr[2]);
        }
        let mut sum: i32 = 0;
        let mut i: usize = 0;
        while i < 3
            invariant
                i <= 3,
                sum == sum_prefix(arr@, i as int),
                forall|k: int| 0 <= k <= 3 ==> i32::MIN <= #[trigger] sum_prefix(arr@, k)
                    <= i32::MAX,
            decreases 3 - i,
        {
            proof {
                assert(sum_prefix(arr@, i as int + 1) == sum_prefix(arr@, i as int) + arr[i as int]);
            }
            sum = sum + arr[i];
            i = i + 1;
        }
        sum
    }
}

} // verus!
