//! Merge sort over slices of unsigned integers.
//!
//! The result is a nondecreasing rearrangement of the input: sortedness
//! and the multiset of elements are both part of the contract, which
//! together pin the output down completely.

use vstd::prelude::*;
use vstd::seq_lib::group_to_multiset_ensures;
use vstd::seq_lib::lemma_multiset_commutative;
use vstd::multiset::group_multiset_axioms;
use vstd::slice::slice_subrange;
use vstd::slice::slice_to_vec;

verus! {

/// Nondecreasing order.
pub open spec fn sorted(s: Seq<u64>) -> bool {
    forall|i: int, j: int| 0 <= i <= j < s.len() ==> s[i] <= s[j]
}

/// Pushing an element onto the left part of a concatenation adds exactly
/// that element to the multiset of the whole.
proof fn lemma_push_left_multiset(a: Seq<u64>, b: Seq<u64>, x: u64)
    ensures
        (a.push(x) + b).to_multiset() == (a + b).to_multiset().insert(x),
{
    broadcast use group_multiset_axioms, group_to_multiset_ensures;

    lemma_multiset_commutative(a.push(x), b);
    lemma_multiset_commutative(a, b);
    assert((a.push(x) + b).to_multiset() =~= (a + b).to_multiset().insert(x));
}

/// Pushing an element onto the right part of a concatenation adds exactly
/// that element to the multiset of the whole.
proof fn lemma_push_right_multiset(a: Seq<u64>, b: Seq<u64>, x: u64)
    ensures
        (a + b.push(x)).to_multiset() == (a + b).to_multiset().insert(x),
{
    broadcast use group_multiset_axioms, group_to_multiset_ensures;

    lemma_multiset_commutative(a, b.push(x));
    lemma_multiset_commutative(a, b);
    assert((a + b.push(x)).to_multiset() =~= (a + b).to_multiset().insert(x));
}

/// Merges two sorted slices into one sorted vector that holds every
/// element of both, by repeatedly moving over whichever head is smaller
/// (the left one on ties).
fn merge(left: &[u64], right: &[u64]) -> (merged: Vec<u64>)
    requires
        sorted(left@),
        sorted(right@),
    ensures
        sorted(merged@),
        merged@.len() == left@.len() + right@.len(),
        merged@.to_multiset() == (left@ + right@).to_multiset(),
{
    let mut merged: Vec<u64> = Vec::new();
    let mut li: usize = 0;
    let mut ri: usize = 0;
    proof {
        assert(left@.take(0) + right@.take(0) =~= Seq::<u64>::empty());
        assert(merged@ =~= Seq::<u64>::empty());
    }
    while li < left.len() && ri < right.len()
        invariant
            li <= left@.len(),
            ri <= right@.len(),
            sorted(left@),
            sorted(right@),
            sorted(merged@),
            merged@.len() == li + ri,
            merged@.to_multiset() == (left@.take(li as int) + right@.take(
                ri as int,
            )).to_multiset(),
            forall|k: int|
                0 <= k < merged@.len() && li < left@.len() ==> #[trigger] merged@[k] <= left@[li as int],
            forall|k: int|
                0 <= k < merged@.len() && ri < right@.len() ==> #[trigger] merged@[k]
                    <= right@[ri as int],
        decreases left@.len() + right@.len() - li - ri,
    {
        let ghost la = left@.take(li as int);
        let ghost rb = right@.take(ri as int);
        if left[li] <= right[ri] {
            let x = left[li];
            merged.push(x);
            li = li + 1;
            proof {
                broadcast use group_to_multiset_ensures;

                lemma_push_left_multiset(la, rb, x);
                assert(left@.take(li as int) =~= la.push(x));
                assert(merged@.to_multiset() =~= (la.push(x) + rb).to_multiset());
            }
        } else {
            let x = right[ri];
            merged.push(x);
            ri = ri + 1;
            proof {
                broadcast use group_to_multiset_ensures;

                lemma_push_right_multiset(la, rb, x);
                assert(right@.take(ri as int) =~= rb.push(x));
                assert(merged@.to_multiset() =~= (la + rb.push(x)).to_multiset());
            }
        }
    }
    while li < left.len()
        invariant
            li <= left@.len(),
            ri == right@.len() || li == left@.len(),
            sorted(left@),
            sorted(merged@),
            merged@.len() == li + ri,
            merged@.to_multiset() == (left@.take(li as int) + right@.take(
                ri as int,
            )).to_multiset(),
            forall|k: int|
                0 <= k < merged@.len() && li < left@.len() ==> #[trigger] merged@[k] <= left@[li as int],
            forall|k: int|
                0 <= k < merged@.len() && ri < right@.len() ==> #[trigger] merged@[k]
                    <= right@[ri as int],
        decreases left@.len() - li,
    {
        let ghost la = left@.take(li as int);
        let ghost rb = right@.take(ri as int);
        let x = left[li];
        merged.push(x);
        li = li + 1;
        proof {
            broadcast use group_to_multiset_ensures;

            lemma_push_left_multiset(la, rb, x);
            assert(left@.take(li as int) =~= la.push(x));
            assert(merged@.to_multiset() =~= (la.push(x) + rb).to_multiset());
        }
    }
    while ri < right.len()
        invariant
            li == left@.len(),
            ri <= right@.len(),
            sorted(right@),
            sorted(merged@),
            merged@.len() == li + ri,
            merged@.to_multiset() == (left@.take(li as int) + right@.take(
                ri as int,
            )).to_multiset(),
            forall|k: int|
                0 <= k < merged@.len() && ri < right@.len() ==> #[trigger] merged@[k]
                    <= right@[ri as int],
        decreases right@.len() - ri,
    {
        let ghost la = left@.take(li as int);
        let ghost rb = right@.take(ri as int);
        let x = right[ri];
        merged.push(x);
        ri = ri + 1;
        proof {
            broadcast use group_to_multiset_ensures;

            lemma_push_right_multiset(la, rb, x);
            assert(right@.take(ri as int) =~= rb.push(x));
            assert(merged@.to_multiset() =~= (la + rb.push(x)).to_multiset());
        }
    }
    proof {
        assert(left@.take(left@.len() as int) =~= left@);
        assert(right@.take(right@.len() as int) =~= right@);
    }
    merged
}

/// Sorts the input into a new vector: the result is a nondecreasing
/// rearrangement holding exactly the input's elements.
pub fn merge_sort(input: &[u64]) -> (output: Vec<u64>)
    ensures
        sorted(output@),
        output@.len() == input@.len(),
        output@.to_multiset() == input@.to_multiset(),
    decreases input@.len(),
{
    if input.len() <= 1 {
        return slice_to_vec(input);
    }
    let mid = input.len() / 2;
    let left = slice_subrange(input, 0, mid);
    let right = slice_subrange(input, mid, input.len());
    let left_sorted = merge_sort(left);
    let right_sorted = merge_sort(right);
    let merged = merge(left_sorted.as_slice(), right_sorted.as_slice());
    proof {
        assert(left@ + right@ =~= input@);
        lemma_multiset_commutative(left@, right@);
        lemma_multiset_commutative(left_sorted@, right_sorted@);
        assert(merged@.to_multiset() =~= input@.to_multiset());
    }
    merged
}

} // verus!
