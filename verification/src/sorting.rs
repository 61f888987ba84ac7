//! An in-place ascending sort for roll populations, with the guarantee that
//! sorting keeps exactly the outcomes that were rolled and that sorting an
//! already-sorted population changes nothing.

use vstd::prelude::*;
use vstd::relations::{sorted_by, total_ordering};
use vstd::seq_lib::lemma_sorted_unique;
use vstd::seq_lib::group_to_multiset_ensures;
use vstd::multiset::group_multiset_axioms;

verus! {

/// The sequence is in ascending order.
pub open spec fn sorted(s: Seq<u8>) -> bool {
    forall|i: int, j: int| 0 <= i <= j < s.len() ==> s[i] <= s[j]
}

/// The ascending order on roll outcomes, as a relation.
spec fn leq_roll() -> spec_fn(u8, u8) -> bool {
    |a: u8, b: u8| a <= b
}

/// `sorted` is ascending order: it coincides with `sorted_by` under the
/// relation `leq_roll`, which is a total ordering.
proof fn lemma_sorted_is_sorted_by_leq(s: Seq<u8>)
    ensures
        total_ordering(leq_roll()),
        sorted(s) <==> sorted_by(s, leq_roll()),
{
    let leq = leq_roll();
    if sorted(s) {
        assert forall|i: int, j: int| 0 <= i < j < s.len() implies #[trigger] leq(s[i], s[j]) by {
            assert(s[i] <= s[j]);
        }
        assert(sorted_by(s, leq));
    }
    if sorted_by(s, leq) {
        assert forall|i: int, j: int| 0 <= i <= j < s.len() implies s[i] <= s[j] by {
            if i < j {
                assert(leq(s[i], s[j]));
            }
        }
        assert(sorted(s));
    }
}

/// Two sorted sequences made of the same outcomes are the same sequence.
pub proof fn lemma_sorted_same_multiset_equal(x: Seq<u8>, y: Seq<u8>)
    requires
        sorted(x),
        sorted(y),
        x.to_multiset() == y.to_multiset(),
    ensures
        x == y,
{
    lemma_sorted_is_sorted_by_leq(x);
    lemma_sorted_is_sorted_by_leq(y);
    lemma_sorted_unique(x, y, leq_roll());
}

/// Sort the population ascending, in place, by insertion. The sorted
/// population holds exactly the outcomes the unsorted one held, and sorting
/// an already-sorted population is a no-op.
pub fn sort_population(population: &mut Vec<u8>)
    ensures
        sorted(final(population)@),
        final(population)@.to_multiset() == old(population)@.to_multiset(),
        final(population)@.len() == old(population)@.len(),
        sorted(old(population)@) ==> final(population)@ == old(population)@,
{
    let ghost unsorted: Seq<u8> = population@;
    if population.len() < 2 {
        return;
    }
    let mut i: usize = 1;
    while i < population.len()
        invariant
            1 <= i <= population@.len(),
            population@.len() == unsorted.len(),
            population@.to_multiset() == unsorted.to_multiset(),
            sorted(population@.subrange(0, i as int)),
        decreases population@.len() - i,
    {
        let x = population[i];
        let mut p: usize = 0;
        while p < i && population[p] <= x
            invariant
                0 <= p <= i < population@.len(),
                forall|k: int| 0 <= k < p ==> population@[k] <= x,
            decreases i - p,
        {
            p = p + 1;
        }
        let ghost before: Seq<u8> = population@;
        let ghost ii: int = i as int;
        let ghost pp: int = p as int;
        let removed = population.remove(i);
        population.insert(p, removed);
        proof {
            broadcast use group_to_multiset_ensures;
            broadcast use group_multiset_axioms;

            let after = population@;
            assert(after == before.remove(ii).insert(pp, x));
            assert(after.to_multiset() =~= before.to_multiset()) by {
                assert(before[ii] == x);
                assert(before.remove(ii).to_multiset() =~= before.to_multiset().remove(x));
                assert(after.to_multiset() =~= before.to_multiset().remove(x).insert(x));
                assert(before.contains(x));
                assert(before.to_multiset().count(x) > 0);
                assert(before.to_multiset().remove(x).insert(x) =~= before.to_multiset());
            }
            assert forall|a: int, b: int| 0 <= a <= b < ii implies before[a] <= before[b] by {
                assert(before.subrange(0, ii)[a] == before[a]);
                assert(before.subrange(0, ii)[b] == before[b]);
            }
            assert(forall|k: int| 0 <= k < pp ==> #[trigger] after[k] == before[k]);
            assert(after[pp] == x);
            assert(forall|k: int| pp < k <= ii ==> #[trigger] after[k] == before[k - 1]);
            assert forall|k: int| pp < k <= ii implies x <= #[trigger] after[k] by {
                assert(after[k] == before[k - 1]);
                assert(pp <= k - 1 < ii);
                assert(x < before[pp]);
                assert(before[pp] <= before[k - 1]);
            }
            assert forall|a: int, b: int| 0 <= a <= b <= ii implies after[a] <= after[b] by {
                if b < pp {
                    assert(after[a] == before[a] && after[b] == before[b]);
                } else if a < pp && b == pp {
                    assert(after[a] == before[a] && after[a] <= x);
                } else if a < pp {
                    assert(after[a] <= x && x <= after[b]);
                } else if a == pp {
                    if b > pp {
                        assert(x <= after[b]);
                    }
                } else {
                    assert(after[a] == before[a - 1] && after[b] == before[b - 1]);
                    assert(before[a - 1] <= before[b - 1]);
                }
            }
            assert forall|a: int, b: int|
                0 <= a <= b < ii + 1 implies #[trigger] after.subrange(0, ii + 1)[a]
                    <= #[trigger] after.subrange(0, ii + 1)[b] by {
                assert(after.subrange(0, ii + 1)[a] == after[a]);
                assert(after.subrange(0, ii + 1)[b] == after[b]);
            }
            assert(sorted(after.subrange(0, ii + 1)));
        }
        i = i + 1;
    }
    proof {
        assert(population@.subrange(0, population@.len() as int) =~= population@);
        if sorted(unsorted) {
            lemma_sorted_same_multiset_equal(population@, unsorted);
        }
    }
}

} // verus!
