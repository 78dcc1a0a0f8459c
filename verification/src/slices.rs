//! Reference-returning utilities over pairs and slices.

use vstd::prelude::*;
use vstd::slice::slice_index_get;
use vstd::slice::slice_subrange;

verus! {

/// Returns a mutable reference into the pair: to the first element when
/// the flag is `false`, to the second when it is `true`.
pub fn first(tuple: &mut (usize, usize), boolean: bool) -> (r: &mut usize)
    ensures
        !boolean ==> *r == old(tuple).0 && *final(tuple) == (*final(r), old(tuple).1),
        boolean ==> *r == old(tuple).1 && *final(tuple) == (old(tuple).0, *final(r)),
{
    if boolean {
        &mut tuple.1
    } else {
        &mut tuple.0
    }
}

/// Returns a mutable reference to the `n`-th element of the slice.
pub fn second(x: &mut [i32], n: usize) -> (r: &mut i32)
    requires
        n < old(x)@.len(),
    ensures
        *r == old(x)@[n as int],
        final(x)@ == old(x)@.update(n as int, *final(r)),
{
    &mut x[n]
}

/// Returns a reference to the `n`-th element of the slice, counted from
/// its end.
pub fn third(x: &[i32], n: usize) -> (r: &i32)
    requires
        n < x@.len(),
    ensures
        *r == x@[x@.len() - 1 - n],
{
    let rev = x.len() - 1 - n;
    slice_index_get(x, rev)
}

/// Splits the slice at `n`: the elements before `n`, and those from `n`
/// to the end.
pub fn fourth(x: &[i32], n: usize) -> (r: (&[i32], &[i32]))
    requires
        n <= x@.len(),
    ensures
        r.0@ == x@.take(n as int),
        r.1@ == x@.skip(n as int),
{
    (slice_subrange(x, 0, n), slice_subrange(x, n, x.len()))
}

/// Where the first half of a slice of `len` elements ends when it is cut
/// into four parts: the extra elements of an uneven cut go to the front.
pub open spec fn half_split(len: int) -> int {
    if len % 4 == 0 {
        len / 2
    } else {
        len / 2 + 1
    }
}

/// Cuts the slice into four parts, as equal as possible, with the longer
/// parts first: the front half (rounded as `half_split` says) is cut at
/// its own midpoint rounded up, and so is the back half.
pub fn fifth(x: &[i32]) -> (r: [&[i32]; 4])
    ensures
        ({
            let len = x@.len() as int;
            let fs = half_split(len);
            let a = (fs + 1) / 2;
            let c = (len - fs + 1) / 2;
            &&& r[0]@ == x@.subrange(0, a)
            &&& r[1]@ == x@.subrange(a, fs)
            &&& r[2]@ == x@.subrange(fs, fs + c)
            &&& r[3]@ == x@.subrange(fs + c, len)
        }),
{
    let len = x.len();
    let fs = if len % 4 == 0 {
        len / 2
    } else {
        len / 2 + 1
    };
    let left = slice_subrange(x, 0, fs);
    let right = slice_subrange(x, fs, len);
    let a = (fs + 1) / 2;
    let c = (len - fs + 1) / 2;
    let r0 = slice_subrange(left, 0, a);
    let r1 = slice_subrange(left, a, fs);
    let r2 = slice_subrange(right, 0, c);
    let r3 = slice_subrange(right, c, len - fs);
    proof {
        assert(r0@ =~= x@.subrange(0, a as int));
        assert(r1@ =~= x@.subrange(a as int, fs as int));
        assert(r2@ =~= x@.subrange(fs as int, fs as int + c as int));
        assert(r3@ =~= x@.subrange(fs as int + c as int, x@.len() as int));
    }
    [r0, r1, r2, r3]
}

} // verus!
