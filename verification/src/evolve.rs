//! The loop controller: generations of scoring, selection, breeding and
//! mutation until the target is matched or the generation cap is reached.

use vstd::prelude::*;
use crate::errors::EvolveError;
use crate::fitness::check_match;
use crate::render::copy_bytes;
use crate::reproduce::{crossover, mutate, sample_distinct};
use crate::rng::rand_below;
use crate::select::select_top_fraction;
use crate::sort::{chromosome_views, sort_by_score};

verus! {

/// How a run ended: the best individual matched the target exactly, or the
/// generation cap was reached first.
#[derive(Debug, Clone, Copy, PartialEq, Eq, Structural)]
pub enum Termination {
    Matched,
    LimitReached,
}

/// The result of a run: the terminal state, the number of completed
/// generations, and the best individual of every generation that was
/// evaluated, in order.
pub struct Outcome {
    pub termination: Termination,
    pub generations: usize,
    pub report: Vec<Vec<u8>>,
}

/// An individual fit to live in a population: exactly as long as the target,
/// with every symbol drawn from the genome alphabet.
pub open spec fn chromosome_wf(c: Seq<u8>, genome: Seq<u8>, target: Seq<u8>) -> bool {
    c.len() == target.len() && (forall|j: int|
        0 <= j < c.len() ==> genome.contains(#[trigger] c[j]))
}

/// Every member of the population is well formed.
pub open spec fn population_wf(p: Seq<Vec<u8>>, genome: Seq<u8>, target: Seq<u8>) -> bool {
    forall|i: int| 0 <= i < p.len() ==> chromosome_wf((#[trigger] p[i])@, genome, target)
}

/// Any permutation of a population's views preserves well-formedness.
proof fn lemma_permutation_preserves_wf(
    a: Seq<Vec<u8>>,
    b: Seq<Vec<u8>>,
    genome: Seq<u8>,
    target: Seq<u8>,
)
    requires
        chromosome_views(a).to_multiset() == chromosome_views(b).to_multiset(),
        population_wf(a, genome, target),
    ensures
        population_wf(b, genome, target),
{
    assert forall|i: int| 0 <= i < b.len() implies chromosome_wf(
        (#[trigger] b[i])@,
        genome,
        target,
    ) by {
        let va = chromosome_views(a);
        let vb = chromosome_views(b);
        va.to_multiset_ensures();
        vb.to_multiset_ensures();
        assert(vb[i] == b[i]@);
        assert(vb.contains(vb[i]));
        assert(vb.to_multiset().count(vb[i]) > 0);
        assert(va.to_multiset().count(vb[i]) > 0);
        assert(va.contains(vb[i]));
        let j = choose|j: int| 0 <= j < va.len() && va[j] == vb[i];
        assert(chromosome_wf(a[j]@, genome, target));
    }
}

/// Runs the evolutionary loop from a given starting population. Per
/// generation: sort ascending by score, record the best individual, stop
/// matched if it equals the target; otherwise carry the best tenth over
/// verbatim and refill the population with mutated crossovers of parents
/// drawn from the best half. The loop performs at most `max_generations`
/// iterations, so a report entry exists for every evaluated generation and
/// equals the target exactly on a matched run's last entry.
pub fn evolve_from(
    initial: Vec<Vec<u8>>,
    genome: &Vec<u8>,
    target: &Vec<u8>,
    max_generations: usize,
    rng: &mut rand::rngs::ThreadRng,
) -> (o: Outcome)
    requires
        initial@.len() >= 2,
        population_wf(initial@, genome@, target@),
    ensures
        o.generations <= max_generations,
        o.termination is Matched ==> o.generations < max_generations && o.report@.len()
            == o.generations + 1,
        o.termination is LimitReached ==> o.generations == max_generations && o.report@.len()
            == max_generations,
        forall|i: int|
            0 <= i < o.report@.len() ==> chromosome_wf(
                (#[trigger] o.report@[i])@,
                genome@,
                target@,
            ),
        forall|i: int|
            0 <= i < o.report@.len() ==> ((#[trigger] o.report@[i])@ == target@ <==> (
            o.termination is Matched && i + 1 == o.report@.len())),
{
    let population_size = initial.len();
    let mut population = initial;
    let mut report: Vec<Vec<u8>> = Vec::new();
    let mut generation: usize = 0;
    while generation < max_generations
        invariant
            generation <= max_generations,
            population@.len() == population_size,
            population_size >= 2,
            population_wf(population@, genome@, target@),
            report@.len() == generation,
            forall|i: int|
                0 <= i < report@.len() ==> chromosome_wf(
                    (#[trigger] report@[i])@,
                    genome@,
                    target@,
                ),
            forall|i: int| 0 <= i < report@.len() ==> (#[trigger] report@[i])@ != target@,
        decreases max_generations - generation,
    {
        let ghost prev = population@;
        let sorted = sort_by_score(population, target);
        proof {
            lemma_permutation_preserves_wf(prev, sorted@, genome@, target@);
        }
        let best = copy_bytes(&sorted[0]);
        report.push(best);
        if check_match(&sorted[0], target) {
            return Outcome { termination: Termination::Matched, generations: generation, report };
        }
        proof {
            assert(chromosome_wf(sorted@[0]@, genome@, target@));
            if target@.len() == 0 {
                assert(sorted@[0]@ =~= target@);
            }
            assert(target@.len() >= 1);
            assert(genome@.contains(sorted@[0]@[0]));
            assert(genome@.len() >= 1);
        }
        let elite = select_top_fraction(&sorted, 1, 10);
        let pool = select_top_fraction(&sorted, 1, 2);
        proof {
            assert(elite@.len() == population_size as int / 10);
            assert(pool@.len() == population_size as int / 2);
            assert(elite@.len() <= population_size);
            assert(pool@.len() >= 1);
            assert forall|i: int| 0 <= i < elite@.len() implies chromosome_wf(
                (#[trigger] elite@[i])@,
                genome@,
                target@,
            ) by {
                assert(elite@[i]@ == sorted@[i]@);
            }
            assert forall|i: int| 0 <= i < pool@.len() implies chromosome_wf(
                (#[trigger] pool@[i])@,
                genome@,
                target@,
            ) by {
                assert(pool@[i]@ == sorted@[i]@);
            }
        }
        let mut next = elite;
        while next.len() < population_size
            invariant
                next@.len() <= population_size,
                population_wf(next@, genome@, target@),
                pool@.len() >= 1,
                population_wf(pool@, genome@, target@),
                genome@.len() >= 1,
            decreases population_size - next@.len(),
        {
            let i1 = rand_below(rng, pool.len());
            let i2 = rand_below(rng, pool.len());
            let bred = crossover(&pool[i1], &pool[i2], rng);
            let child = mutate(&bred, genome, rng);
            proof {
                assert(chromosome_wf(pool@[i1 as int]@, genome@, target@));
                assert(chromosome_wf(pool@[i2 as int]@, genome@, target@));
                assert forall|j: int| 0 <= j < bred@.len() implies genome@.contains(
                    #[trigger] bred@[j],
                ) by {
                    assert(bred@[j] == pool@[i1 as int]@[j] || bred@[j] == pool@[i2 as int]@[j]);
                }
                assert(chromosome_wf(child@, genome@, target@));
            }
            next.push(child);
        }
        population = next;
        generation = generation + 1;
    }
    Outcome { termination: Termination::LimitReached, generations: generation, report }
}

/// A full run: build `population_size` random individuals of the target's
/// length from the genome alphabet, then evolve them. The configuration is
/// rejected as invalid exactly when the alphabet is smaller than the target
/// (sampling without replacement would be impossible) or the population is
/// too small to yield a non-empty breeding pool.
pub fn evolve(
    genome: &Vec<u8>,
    target: &Vec<u8>,
    population_size: usize,
    max_generations: usize,
    rng: &mut rand::rngs::ThreadRng,
) -> (r: Result<Outcome, EvolveError>)
    ensures
        r is Err <==> (genome@.len() < target@.len() || population_size < 2),
        r matches Err(e) ==> e == EvolveError::InvalidConfiguration,
        r matches Ok(o) ==> o.generations <= max_generations,
        r matches Ok(o) ==> (o.termination is Matched ==> o.generations < max_generations
            && o.report@.len() == o.generations + 1),
        r matches Ok(o) ==> (o.termination is LimitReached ==> o.generations == max_generations
            && o.report@.len() == max_generations),
        r matches Ok(o) ==> forall|i: int|
            0 <= i < o.report@.len() ==> chromosome_wf(
                (#[trigger] o.report@[i])@,
                genome@,
                target@,
            ),
        r matches Ok(o) ==> forall|i: int|
            0 <= i < o.report@.len() ==> ((#[trigger] o.report@[i])@ == target@ <==> (
            o.termination is Matched && i + 1 == o.report@.len())),
{
    if genome.len() < target.len() || population_size < 2 {
        return Err(EvolveError::InvalidConfiguration);
    }
    let mut initial: Vec<Vec<u8>> = Vec::new();
    while initial.len() < population_size
        invariant
            initial@.len() <= population_size,
            target@.len() <= genome@.len(),
            population_wf(initial@, genome@, target@),
        decreases population_size - initial@.len(),
    {
        let ind = sample_distinct(genome, target.len(), rng);
        initial.push(ind);
    }
    Ok(evolve_from(initial, genome, target, max_generations, rng))
}

} // verus!
