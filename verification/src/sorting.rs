//! Sorting of floating-value encodings for the median pass.
//!
//! The order is `f32_total_le`: the IEEE-754 value order made total by
//! breaking the one tie (the two encodings of zero) on the raw bits.
//! Because the order is total, a sorted sequence with a given multiset of
//! elements is unique, so the result below is exactly
//! `Seq::sort_by(f32_le_order())` of the input.

use vstd::prelude::*;
use vstd::multiset::Multiset;
use vstd::relations::sorted_by;
use vstd::seq_lib::lemma_sorted_unique;
use crate::floatbits::{f32_le_order, f32_total_le, f32_total_le_bits, lemma_f32_le_total_ordering};

verus! {

/// Sorts the encodings ascending in the `f32_total_le` order.
pub fn sort_f32_bits(v: &Vec<u32>) -> (r: Vec<u32>)
    ensures
        r@.len() == v@.len(),
        r@.to_multiset() == v@.to_multiset(),
        sorted_by(r@, f32_le_order()),
        r@ == v@.sort_by(f32_le_order()),
{
    broadcast use vstd::seq_lib::group_to_multiset_ensures;
    broadcast use vstd::multiset::group_multiset_axioms;

    let mut rest: Vec<u32> = Vec::new();
    let mut i: usize = 0;
    while i < v.len()
        invariant
            i <= v@.len(),
            rest@ == v@.take(i as int),
        decreases v@.len() - i,
    {
        rest.push(v[i]);
        proof {
            assert(rest@ =~= v@.take(i + 1));
        }
        i = i + 1;
    }
    proof {
        assert(v@.take(v@.len() as int) =~= v@);
    }

    let mut out: Vec<u32> = Vec::new();
    while rest.len() > 0
        invariant
            out@.len() + rest@.len() == v@.len(),
            out@.to_multiset().add(rest@.to_multiset()) == v@.to_multiset(),
            sorted_by(out@, f32_le_order()),
            forall|a: int, b: int|
                0 <= a < out@.len() && 0 <= b < rest@.len() ==> f32_total_le(
                    #[trigger] out@[a],
                    #[trigger] rest@[b],
                ),
        decreases rest@.len(),
    {
        let mut mi: usize = 0;
        let mut j: usize = 1;
        while j < rest.len()
            invariant
                mi < j <= rest@.len(),
                rest@.len() > 0,
                forall|b: int| 0 <= b < j ==> f32_total_le(rest@[mi as int], #[trigger] rest@[b]),
            decreases rest@.len() - j,
        {
            if f32_total_le_bits(rest[j], rest[mi]) {
                mi = j;
            }
            j = j + 1;
        }
        let ghost old_out = out@;
        let ghost old_rest = rest@;
        let x = rest.remove(mi);
        out.push(x);
        proof {
            vstd::seq_lib::to_multiset_remove(old_rest, mi as int);
            vstd::seq_lib::to_multiset_build(old_out, x);
            assert(rest@.to_multiset() == old_rest.to_multiset().remove(x));
            assert(out@.to_multiset() =~= old_out.to_multiset().insert(x));
            old_rest.to_multiset_ensures();
            assert(old_rest.contains(x));
            assert(old_rest.to_multiset().count(x) > 0);
            assert(out@.to_multiset().add(rest@.to_multiset()) =~= v@.to_multiset());
            assert forall|a: int, b: int|
                0 <= a < out@.len() && 0 <= b < rest@.len() implies f32_total_le(
                #[trigger] out@[a],
                #[trigger] rest@[b],
            ) by {
                assert(rest@[b] == old_rest[if b < mi {
                    b
                } else {
                    b + 1
                }]);
                if a < out@.len() - 1 {
                    assert(out@[a] == old_out[a]);
                } else {
                    assert(out@[a] == x);
                }
            }
            assert(sorted_by(out@, f32_le_order()));
        }
    }
    proof {
        lemma_f32_le_total_ordering();
        assert(rest@.to_multiset() =~= Multiset::empty());
        assert(out@.to_multiset() =~= v@.to_multiset());
        v@.lemma_sort_by_ensures(f32_le_order());
        lemma_sorted_unique(out@, v@.sort_by(f32_le_order()), f32_le_order());
        assert(out@.to_multiset().len() == out@.len());
        assert(v@.to_multiset().len() == v@.len());
    }
    out
}

} // verus!
