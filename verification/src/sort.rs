//! Ordering a population ascending by fitness score.

use vstd::prelude::*;
use vstd::multiset::Multiset;
use crate::fitness::{score_fitness, spec_score};

verus! {

/// The population seen mathematically: the sequence of its individuals'
/// byte sequences.
pub open spec fn chromosome_views(p: Seq<Vec<u8>>) -> Seq<Seq<u8>> {
    p.map_values(|c: Vec<u8>| c@)
}

/// The population reordered so that fitness scores against `target` are
/// non-decreasing (best first). The result is a permutation of the input:
/// the multiset of individuals is unchanged.
pub fn sort_by_score(population: Vec<Vec<u8>>, target: &Vec<u8>) -> (r: Vec<Vec<u8>>)
    ensures
        r@.len() == population@.len(),
        chromosome_views(r@).to_multiset() == chromosome_views(population@).to_multiset(),
        forall|a: int, b: int|
            0 <= a <= b < r@.len() ==> spec_score((#[trigger] r@[a])@, target@) <= spec_score(
                (#[trigger] r@[b])@,
                target@,
            ),
{
    broadcast use vstd::multiset::group_multiset_axioms;

    let mut scratch = population;
    let mut out: Vec<Vec<u8>> = Vec::new();
    proof {
        lemma_empty_views_multiset(out@);
        assert(chromosome_views(out@).to_multiset().add(
            chromosome_views(scratch@).to_multiset(),
        ) =~= chromosome_views(scratch@).to_multiset());
    }
    while scratch.len() > 0
        invariant
            out@.len() + scratch@.len() == population@.len(),
            chromosome_views(out@).to_multiset().add(chromosome_views(scratch@).to_multiset())
                == chromosome_views(population@).to_multiset(),
            forall|a: int, b: int|
                0 <= a <= b < out@.len() ==> spec_score((#[trigger] out@[a])@, target@)
                    <= spec_score((#[trigger] out@[b])@, target@),
            forall|a: int, b: int|
                0 <= a < out@.len() && 0 <= b < scratch@.len() ==> spec_score(
                    (#[trigger] out@[a])@,
                    target@,
                ) <= spec_score((#[trigger] scratch@[b])@, target@),
        decreases scratch@.len(),
    {
        let mut min_idx: usize = 0;
        let mut best_score = score_fitness(&scratch[0], target);
        let mut k: usize = 1;
        while k < scratch.len()
            invariant
                1 <= k <= scratch@.len(),
                min_idx < k,
                best_score == spec_score(scratch@[min_idx as int]@, target@),
                forall|j: int|
                    0 <= j < k ==> best_score <= spec_score((#[trigger] scratch@[j])@, target@),
            decreases scratch@.len() - k,
        {
            let s = score_fitness(&scratch[k], target);
            if s < best_score {
                best_score = s;
                min_idx = k;
            }
            k = k + 1;
        }
        let ghost old_scratch = scratch@;
        let ghost old_out = out@;
        let item = scratch.remove(min_idx);
        out.push(item);
        proof {
            let vs = chromosome_views(old_scratch);
            let vo = chromosome_views(old_out);
            assert(chromosome_views(scratch@) =~= vs.remove(min_idx as int));
            assert(chromosome_views(out@) =~= vo.push(item@));
            vstd::seq_lib::to_multiset_remove(vs, min_idx as int);
            vstd::seq_lib::to_multiset_build(vo, item@);
            vs.to_multiset_ensures();
            assert(vs[min_idx as int] == item@);
            assert(vs.contains(item@));
            assert(vs.to_multiset().count(item@) > 0);
            assert(chromosome_views(out@).to_multiset().add(
                chromosome_views(scratch@).to_multiset(),
            ) =~= chromosome_views(population@).to_multiset());
            assert forall|b: int| 0 <= b < scratch@.len() implies best_score <= spec_score(
                (#[trigger] scratch@[b])@,
                target@,
            ) by {
                if b < min_idx {
                    assert(scratch@[b] == old_scratch[b]);
                } else {
                    assert(scratch@[b] == old_scratch[b + 1]);
                }
            }
        }
    }
    proof {
        broadcast use vstd::multiset::group_multiset_axioms;

        lemma_empty_views_multiset(scratch@);
        assert(chromosome_views(out@).to_multiset().add(
            chromosome_views(scratch@).to_multiset(),
        ) =~= chromosome_views(out@).to_multiset());
    }
    out
}

/// An empty population has the empty multiset of views.
proof fn lemma_empty_views_multiset(p: Seq<Vec<u8>>)
    requires
        p.len() == 0,
    ensures
        chromosome_views(p).to_multiset() == Multiset::<Seq<u8>>::empty(),
{
    broadcast use vstd::multiset::group_multiset_axioms;

    let v = chromosome_views(p);
    v.to_multiset_ensures();
    assert forall|x: Seq<u8>| v.to_multiset().count(x) == 0 by {
        if v.to_multiset().count(x) > 0 {
            assert(v.contains(x));
        }
    }
    assert(v.to_multiset() =~= Multiset::<Seq<u8>>::empty());
}

} // verus!
