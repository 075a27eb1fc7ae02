//! The order of the tiers.
//!
//! Provisioning creates the largest cluster, and an invocation may only shrink
//! it, so tiers are visited from the largest node count down.
use vstd::prelude::*;
use vstd::seq_lib::to_multiset_insert;

verus! {

/// `s` is in non-increasing order.
pub open spec fn non_increasing(s: Seq<usize>) -> bool {
    forall|i: int, j: int| 0 <= i < j < s.len() ==> s[i] >= s[j]
}

/// Sorts the tier sizes from the largest down, keeping every one of them.
pub fn sort_tiers(tiers: &mut Vec<usize>)
    ensures
        final(tiers)@.to_multiset() == old(tiers)@.to_multiset(),
        non_increasing(final(tiers)@),
{
    let mut sorted: Vec<usize> = Vec::new();
    let mut i: usize = 0;
    assert(sorted@ =~= tiers@.take(0));
    while i < tiers.len()
        invariant
            i <= tiers@.len(),
            sorted@.to_multiset() == tiers@.take(i as int).to_multiset(),
            non_increasing(sorted@),
        decreases tiers@.len() - i,
    {
        let x = tiers[i];
        let mut pos: usize = 0;
        while pos < sorted.len() && sorted[pos] >= x
            invariant
                pos <= sorted@.len(),
                forall|k: int| 0 <= k < pos ==> sorted@[k] >= x,
            decreases sorted@.len() - pos,
        {
            pos = pos + 1;
        }
        let ghost before = sorted@;
        sorted.insert(pos, x);
        proof {
            to_multiset_insert(before, pos as int, x);
            assert(tiers@.take(i + 1) =~= tiers@.take(i as int).push(x));
            vstd::seq_lib::to_multiset_build(tiers@.take(i as int), x);
            assert forall|a: int, b: int| 0 <= a < b < sorted@.len() implies sorted@[a] >= sorted@[b] by {
                if b == pos {
                    assert(sorted@[a] == before[a]);
                } else if a == pos {
                    assert(sorted@[b] == before[b - 1]);
                    if pos < before.len() {
                        assert(before[pos as int] < x);
                        assert(before[pos as int] >= before[b - 1]);
                    }
                } else {
                    let a0 = if a < pos { a } else { a - 1 };
                    let b0 = if b < pos { b } else { b - 1 };
                    assert(sorted@[a] == before[a0] && sorted@[b] == before[b0]);
                }
            }
        }
        i = i + 1;
    }
    assert(tiers@.take(tiers@.len() as int) =~= tiers@);
    *tiers = sorted;
}

} // verus!
