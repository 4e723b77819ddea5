//! Truncation selection: the best fraction of a scored population.

use vstd::prelude::*;
use vstd::arithmetic::div_mod::{lemma_div_is_ordered, lemma_div_multiples_vanish};
use vstd::arithmetic::mul::lemma_mul_inequality;
use crate::render::copy_bytes;

verus! {

/// The first `floor(len * num / den)` individuals of `population`, copied by
/// value. With the population sorted ascending by fitness these are its best
/// `num / den` share; the selection is a deterministic prefix, not a weighted
/// sample. The fraction `num / den` must not exceed one.
pub fn select_top_fraction(population: &Vec<Vec<u8>>, num: usize, den: usize) -> (r: Vec<
    Vec<u8>,
>)
    requires
        1 <= den,
        num <= den,
    ensures
        r@.len() == population@.len() * num as int / den as int,
        forall|i: int| 0 <= i < r@.len() ==> (#[trigger] r@[i])@ == population@[i]@,
{
    let len = population.len();
    proof {
        assert((len as int) * (num as int) <= 0xffffffffffffffff * 0xffffffffffffffff)
            by (nonlinear_arith)
            requires
                0 <= len as int <= 0xffffffffffffffff,
                0 <= num as int <= 0xffffffffffffffff,
        ;
    }
    let count_wide: u128 = (len as u128) * (num as u128) / (den as u128);
    proof {
        let l = len as int;
        let n = num as int;
        let d = den as int;
        lemma_mul_inequality(n, d, l);
        assert(l * n == n * l && l * d == d * l) by (nonlinear_arith);
        lemma_div_is_ordered(l * n, l * d, d);
        lemma_div_multiples_vanish(l, d);
        assert(l * n / d <= l);
        assert(l * n >= 0) by (nonlinear_arith)
            requires
                l >= 0 && n >= 0,
        ;
    }
    let count = count_wide as usize;
    let mut r: Vec<Vec<u8>> = Vec::new();
    let mut i: usize = 0;
    while i < count
        invariant
            i <= count,
            count <= population@.len(),
            count as int == population@.len() * num as int / den as int,
            r@.len() == i,
            forall|k: int| 0 <= k < i ==> (#[trigger] r@[k])@ == population@[k]@,
        decreases count - i,
    {
        let c = copy_bytes(&population[i]);
        r.push(c);
        i = i + 1;
    }
    r
}

} // verus!
