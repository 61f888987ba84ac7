//! Summary statistics over a sorted population of roll outcomes: median,
//! truncated mean, and the per-value occurrence counts behind the percentage
//! distribution.

use vstd::prelude::*;
use crate::sorting::sorted;

verus! {

/// The sum of the outcomes in the sequence.
pub open spec fn sum_of(s: Seq<u8>) -> int
    decreases s.len(),
{
    if s.len() == 0 {
        0
    } else {
        sum_of(s.drop_last()) + s.last()
    }
}

/// How many entries of the sequence equal `v`.
pub open spec fn count_of(s: Seq<u8>, v: u8) -> int
    decreases s.len(),
{
    if s.len() == 0 {
        0
    } else {
        count_of(s.drop_last(), v) + if s.last() == v {
            1int
        } else {
            0int
        }
    }
}

/// No value occurs more often than the sequence is long.
pub proof fn lemma_count_of_bounds(s: Seq<u8>, v: u8)
    ensures
        0 <= count_of(s, v) <= s.len(),
    decreases s.len(),
{
    if s.len() > 0 {
        lemma_count_of_bounds(s.drop_last(), v);
    }
}

/// The integer-truncated average of the values, or 0 for an empty slice
/// (the guarded error case).
pub fn get_vec_average(vals: &Vec<u8>) -> (avg: u8)
    ensures
        vals@.len() == 0 ==> avg == 0,
        vals@.len() > 0 ==> avg as int == sum_of(vals@) / vals@.len() as int,
{
    let length = vals.len();
    if length == 0 {
        return 0;
    }
    let mut sum: u128 = 0;
    let mut idx: usize = 0;
    while idx < length
        invariant
            idx <= length,
            length == vals@.len(),
            sum == sum_of(vals@.subrange(0, idx as int)),
            sum <= 255 * idx,
        decreases length - idx,
    {
        proof {
            assert(vals@.subrange(0, idx + 1).drop_last() =~= vals@.subrange(0, idx as int));
            assert(vals@.subrange(0, idx + 1).last() == vals@[idx as int]);
        }
        sum = sum + vals[idx] as u128;
        idx = idx + 1;
    }
    proof {
        assert(vals@.subrange(0, vals@.len() as int) =~= vals@);
        assert(sum / (length as u128) <= 255) by (nonlinear_arith)
            requires
                sum <= 255 * length,
                length > 0,
        ;
    }
    (sum / length as u128) as u8
}

/// How many entries of `vals` equal `num`.
pub fn count_occurrence(num: u8, vals: &Vec<u8>) -> (count: usize)
    ensures
        count == count_of(vals@, num),
{
    let mut count: usize = 0;
    let mut idx: usize = 0;
    while idx < vals.len()
        invariant
            idx <= vals@.len(),
            count == count_of(vals@.subrange(0, idx as int), num),
            count <= idx,
        decreases vals@.len() - idx,
    {
        proof {
            assert(vals@.subrange(0, idx + 1).drop_last() =~= vals@.subrange(0, idx as int));
            assert(vals@.subrange(0, idx + 1).last() == vals@[idx as int]);
        }
        if vals[idx] == num {
            count = count + 1;
        }
        idx = idx + 1;
    }
    proof {
        assert(vals@.subrange(0, vals@.len() as int) =~= vals@);
    }
    count
}

/// The occurrence of `num` in `vect` as a ratio: how many entries equal
/// `num`, over how many entries there are. The caller divides the pair to
/// obtain the fraction of occurrences.
pub fn get_percent_occurrence(num: u8, vect: Vec<u8>) -> (ratio: (usize, usize))
    ensures
        ratio.0 == count_of(vect@, num),
        ratio.1 == vect@.len(),
        ratio.0 <= ratio.1,
{
    proof {
        lemma_count_of_bounds(vect@, num);
    }
    let count = count_occurrence(num, &vect);
    (count, vect.len())
}

/// The report over one population: its median, its truncated mean, and for
/// each face value 1 through 20 how often it was rolled.
#[derive(Clone, Debug, PartialEq, Eq)]
pub struct Stats {
    /// The entry at index `len / 2 - 1` of the sorted population.
    pub median: u8,
    /// The integer-truncated average of the population.
    pub mean: u8,
    /// `counts[v]` is how many entries equal the face value `v + 1`.
    pub counts: Vec<usize>,
}

/// What a report over the population `s` holds, entry by entry.
pub open spec fn stats_describe(s: Seq<u8>, st: Stats) -> bool
    recommends
        s.len() >= 2,
{
    &&& st.median == s[s.len() as int / 2 - 1]
    &&& st.mean as int == sum_of(s) / s.len() as int
    &&& st.counts@.len() == 20
    &&& forall|v: int| 0 <= v < 20 ==> #[trigger] st.counts@[v] == count_of(s, (v + 1) as u8)
}

/// Compute the report over a sorted population: the median entry at index
/// `len / 2 - 1` (deliberately one below the usual middle), the truncated
/// mean, and the occurrence count of each face value. An empty population
/// is the guarded error case and yields no report.
pub fn display_stats(vals: &Vec<u8>) -> (report: Option<Stats>)
    requires
        sorted(vals@),
        vals@.len() != 1,
    ensures
        report is Some <==> vals@.len() >= 2,
        vals@.len() >= 2 ==> stats_describe(vals@, report.unwrap()),
{
    let n = vals.len();
    if n == 0 {
        return None;
    }
    let median = vals[n / 2 - 1];
    let mean = get_vec_average(vals);
    let mut counts: Vec<usize> = Vec::new();
    let mut face: usize = 0;
    while face < 20
        invariant
            face <= 20,
            counts@.len() == face,
            forall|v: int| 0 <= v < face ==> #[trigger] counts@[v] == count_of(vals@, (v + 1) as u8),
        decreases 20 - face,
    {
        let count = count_occurrence(face as u8 + 1, vals);
        counts.push(count);
        face = face + 1;
    }
    Some(Stats { median, mean, counts })
}

/// Reporting is a function of the population alone: two reports over the
/// same population agree in every entry, so re-running the reporter on an
/// unchanged population yields identical output.
pub proof fn lemma_stats_rerun_identical(s: Seq<u8>, r1: Option<Stats>, r2: Option<Stats>)
    requires
        (r1 is Some <==> s.len() >= 2),
        (r2 is Some <==> s.len() >= 2),
        s.len() >= 2 ==> stats_describe(s, r1.unwrap()) && stats_describe(s, r2.unwrap()),
    ensures
        r1 is Some <==> r2 is Some,
        r1 is Some ==> r1.unwrap().median == r2.unwrap().median,
        r1 is Some ==> r1.unwrap().mean == r2.unwrap().mean,
        r1 is Some ==> r1.unwrap().counts@ == r2.unwrap().counts@,
{
    if r1 is Some {
        let c1 = r1.unwrap().counts@;
        let c2 = r2.unwrap().counts@;
        assert(c1 =~= c2);
    }
}

} // verus!
