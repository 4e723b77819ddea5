//! The reproducer: crossover of two parents, pointwise mutation, and the
//! random initial individuals.

use vstd::prelude::*;
use vstd::seq_lib::group_to_multiset_ensures;
use crate::errors::EvolveError;
use crate::render::copy_bytes;
use crate::rng::rand_below;

verus! {

/// A child bred from two parents: position by position a fair coin picks the
/// symbol of `value` or the symbol of `other`. The child has `value`'s
/// length, so `other` must be at least as long.
pub fn crossover(value: &Vec<u8>, other: &Vec<u8>, rng: &mut rand::rngs::ThreadRng) -> (child:
    Vec<u8>)
    requires
        value@.len() <= other@.len(),
    ensures
        child@.len() == value@.len(),
        forall|i: int|
            0 <= i < child@.len() ==> #[trigger] child@[i] == value@[i] || child@[i] == other@[i],
{
    let mut offspring: Vec<u8> = Vec::new();
    let mut i: usize = 0;
    while i < value.len()
        invariant
            i <= value@.len(),
            value@.len() <= other@.len(),
            offspring@.len() == i,
            forall|k: int|
                0 <= k < i ==> #[trigger] offspring@[k] == value@[k] || offspring@[k] == other@[k],
        decreases value@.len() - i,
    {
        if rand_below(rng, 2) == 0 {
            offspring.push(value[i]);
        } else {
            offspring.push(other[i]);
        }
        i = i + 1;
    }
    offspring
}

/// A perturbed copy of `value`: each position keeps its symbol or, with
/// probability one in ten, is replaced by a symbol drawn uniformly (with
/// replacement) from the non-empty `genome`. The input is never modified,
/// and a symbol that changes is always replaced from the alphabet, so an
/// individual built from the alphabet stays inside it.
pub fn mutate(value: &Vec<u8>, genome: &Vec<u8>, rng: &mut rand::rngs::ThreadRng) -> (r: Vec<
    u8,
>)
    requires
        genome@.len() >= 1,
    ensures
        r@.len() == value@.len(),
        forall|i: int|
            0 <= i < r@.len() ==> #[trigger] r@[i] == value@[i] || genome@.contains(r@[i]),
        (forall|i: int| 0 <= i < value@.len() ==> genome@.contains(#[trigger] value@[i]))
            ==> (forall|i: int| 0 <= i < r@.len() ==> genome@.contains(#[trigger] r@[i])),
{
    let mut new_value: Vec<u8> = Vec::new();
    let mut i: usize = 0;
    while i < value.len()
        invariant
            i <= value@.len(),
            genome@.len() >= 1,
            new_value@.len() == i,
            forall|k: int|
                0 <= k < i ==> #[trigger] new_value@[k] == value@[k] || genome@.contains(
                    new_value@[k],
                ),
        decreases value@.len() - i,
    {
        if rand_below(rng, 10) == 0 {
            let j = rand_below(rng, genome.len());
            new_value.push(genome[j]);
        } else {
            new_value.push(value[i]);
        }
        i = i + 1;
    }
    new_value
}

/// `length` symbols drawn from `genome` without replacement, in the sampled
/// order: each draw removes the chosen symbol from a scratch copy of the
/// alphabet, so the result's multiset is contained in the alphabet's.
pub(crate) fn sample_distinct(genome: &Vec<u8>, length: usize, rng: &mut rand::rngs::ThreadRng) -> (r:
    Vec<u8>)
    requires
        length <= genome@.len(),
    ensures
        r@.len() == length,
        r@.to_multiset().subset_of(genome@.to_multiset()),
        forall|j: int| 0 <= j < r@.len() ==> genome@.contains(#[trigger] r@[j]),
{
    broadcast use group_to_multiset_ensures;

    let mut scratch = copy_bytes(genome);
    let mut r: Vec<u8> = Vec::new();
    while r.len() < length
        invariant
            r@.len() <= length,
            length <= genome@.len(),
            scratch@.len() + r@.len() == genome@.len(),
            scratch@.to_multiset().add(r@.to_multiset()) == genome@.to_multiset(),
        decreases length - r@.len(),
    {
        let ghost old_scratch = scratch@;
        let ghost old_r = r@;
        let j = rand_below(rng, scratch.len());
        let x = scratch.remove(j);
        r.push(x);
        proof {
            vstd::seq_lib::to_multiset_remove(old_scratch, j as int);
            vstd::seq_lib::to_multiset_build(old_r, x);
            assert(scratch@.to_multiset() == old_scratch.to_multiset().remove(x));
            assert(r@.to_multiset() == old_r.to_multiset().insert(x));
            assert(old_scratch.contains(x));
            old_scratch.to_multiset_ensures();
            assert(old_scratch.to_multiset().count(x) > 0);
            assert(scratch@.to_multiset().add(r@.to_multiset()) =~= genome@.to_multiset());
        }
    }
    proof {
        assert forall|y: u8|
            r@.to_multiset().count(y) <= genome@.to_multiset().count(y) by {
            assert(genome@.to_multiset().count(y) == scratch@.to_multiset().count(y)
                + r@.to_multiset().count(y));
        }
        assert forall|j: int| 0 <= j < r@.len() implies genome@.contains(#[trigger] r@[j]) by {
            assert(r@.contains(r@[j]));
            assert(r@.to_multiset().count(r@[j]) > 0);
            assert(genome@.to_multiset().count(r@[j]) > 0);
        }
    }
    r
}

/// An initial individual: `length` distinct draws from the genome alphabet.
/// Sampling is without replacement, so it needs an alphabet of at least
/// `length` symbols; a smaller one is an invalid configuration.
pub fn random_individual(genome: &Vec<u8>, length: usize, rng: &mut rand::rngs::ThreadRng) -> (r:
    Result<Vec<u8>, EvolveError>)
    ensures
        r is Ok <==> length <= genome@.len(),
        r matches Ok(ind) ==> ind@.len() == length && ind@.to_multiset().subset_of(
            genome@.to_multiset(),
        ) && forall|j: int| 0 <= j < ind@.len() ==> genome@.contains(#[trigger] ind@[j]),
{
    if genome.len() < length {
        return Err(EvolveError::InvalidConfiguration);
    }
    Ok(sample_distinct(genome, length, rng))
}

/// Sampling-without-replacement law: a sequence whose multiset is contained
/// in a duplicate-free alphabet is itself duplicate-free, so a random
/// individual repeats a symbol only if the genome itself repeats it.
pub proof fn lemma_sample_no_duplicates(r: Seq<u8>, genome: Seq<u8>)
    requires
        r.to_multiset().subset_of(genome.to_multiset()),
        genome.no_duplicates(),
    ensures
        r.no_duplicates(),
{
    broadcast use group_to_multiset_ensures;

    genome.lemma_multiset_has_no_duplicates();
    assert forall|x: u8| r.to_multiset().contains(x) implies r.to_multiset().count(x) == 1 by {
        assert(genome.to_multiset().count(x) >= r.to_multiset().count(x));
        assert(genome.to_multiset().contains(x));
    }
    r.lemma_multiset_has_no_duplicates_conv();
}

} // verus!
