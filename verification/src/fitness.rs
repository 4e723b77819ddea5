//! Fitness scoring: how far an individual is from the target.

use vstd::prelude::*;

verus! {

/// `v` has a symbol at position `j` and it agrees with `t` there.
pub open spec fn position_matches(v: Seq<u8>, t: Seq<u8>, j: int) -> bool {
    j < v.len() && v[j] == t[j]
}

/// Number of mismatching positions among `0..n`, judged against `t`.
/// A position at or past the end of `v` counts as a mismatch, so a
/// too-short individual is penalized rather than rejected.
pub open spec fn mismatches_upto(v: Seq<u8>, t: Seq<u8>, n: int) -> nat
    decreases n,
{
    if n <= 0 {
        0
    } else {
        mismatches_upto(v, t, n - 1) + (if position_matches(v, t, n - 1) {
            0nat
        } else {
            1nat
        })
    }
}

/// Fitness of `v` against target `t`: the count of positions in
/// `0..t.len()` at which `v` differs from `t` (missing positions count).
/// Lower is better; zero means `v` agrees with `t` everywhere `t` is defined.
pub open spec fn spec_score(v: Seq<u8>, t: Seq<u8>) -> nat {
    mismatches_upto(v, t, t.len() as int)
}

/// Hamming-style distance of `value` from `target`: one point for every
/// position of `target` at which `value` is missing or differs.
pub fn score_fitness(value: &Vec<u8>, target: &Vec<u8>) -> (score: usize)
    ensures
        score == spec_score(value@, target@),
        score <= target@.len(),
{
    let mut score: usize = 0;
    let mut i: usize = 0;
    while i < target.len()
        invariant
            i <= target@.len(),
            score <= i,
            score == mismatches_upto(value@, target@, i as int),
        decreases target@.len() - i,
    {
        if !(i < value.len() && value[i] == target[i]) {
            score = score + 1;
        }
        i = i + 1;
    }
    score
}

/// True exactly when `a` and `b` have equal length and agree at every
/// position; this is the loop's sole termination condition.
pub fn check_match(a: &Vec<u8>, b: &Vec<u8>) -> (r: bool)
    ensures
        r <==> a@ == b@,
{
    if a.len() != b.len() {
        return false;
    }
    let mut i: usize = 0;
    while i < a.len()
        invariant
            i <= a@.len(),
            a@.len() == b@.len(),
            forall|j: int| 0 <= j < i ==> a@[j] == b@[j],
        decreases a@.len() - i,
    {
        if a[i] != b[i] {
            return false;
        }
        i = i + 1;
    }
    proof {
        assert(a@ =~= b@);
    }
    true
}

/// Mismatch counts are bounded by the window they are taken over.
proof fn lemma_mismatches_upto_le(v: Seq<u8>, t: Seq<u8>, n: int)
    requires
        0 <= n,
    ensures
        mismatches_upto(v, t, n) <= n,
    decreases n,
{
    if n > 0 {
        lemma_mismatches_upto_le(v, t, n - 1);
    }
}

/// Pointwise agreement over a whole window leaves it mismatch-free.
proof fn lemma_agree_implies_zero(v: Seq<u8>, t: Seq<u8>, n: int)
    requires
        0 <= n,
        forall|j: int| 0 <= j < n ==> #[trigger] position_matches(v, t, j),
    ensures
        mismatches_upto(v, t, n) == 0,
    decreases n,
{
    if n > 0 {
        lemma_agree_implies_zero(v, t, n - 1);
    }
}

/// A prefix window is mismatch-free exactly when the two sequences agree
/// (where defined) at each of its positions.
proof fn lemma_mismatches_upto_zero(v: Seq<u8>, t: Seq<u8>, n: int)
    requires
        0 <= n,
    ensures
        mismatches_upto(v, t, n) == 0 <==> forall|j: int|
            0 <= j < n ==> #[trigger] position_matches(v, t, j),
    decreases n,
{
    if forall|j: int| 0 <= j < n ==> #[trigger] position_matches(v, t, j) {
        lemma_agree_implies_zero(v, t, n);
    }
    if n > 0 && mismatches_upto(v, t, n) == 0 {
        lemma_mismatches_upto_zero(v, t, n - 1);
        assert forall|j: int| 0 <= j < n implies #[trigger] position_matches(v, t, j) by {
            if j == n - 1 {
                assert(position_matches(v, t, n - 1));
            }
        }
    }
}

/// Every sequence scores zero against itself.
pub proof fn lemma_score_self_zero(t: Seq<u8>)
    ensures
        spec_score(t, t) == 0,
{
    assert forall|j: int| 0 <= j < t.len() implies #[trigger] position_matches(t, t, j) by {}
    lemma_agree_implies_zero(t, t, t.len() as int);
}

/// For equal-length sequences, a zero score is the same thing as an exact
/// match, so the termination check and "score is zero" coincide.
pub proof fn lemma_score_zero_iff_eq(a: Seq<u8>, t: Seq<u8>)
    requires
        a.len() == t.len(),
    ensures
        spec_score(a, t) == 0 <==> a == t,
{
    lemma_mismatches_upto_zero(a, t, t.len() as int);
    if spec_score(a, t) == 0 {
        assert forall|j: int| 0 <= j < a.len() implies a[j] == t[j] by {
            assert(position_matches(a, t, j));
        }
        assert(a =~= t);
    }
    if a == t {
        lemma_score_self_zero(t);
    }
}

/// The positions at which `v` fails to match `t`, within `t`'s length.
pub open spec fn mismatch_positions(v: Seq<u8>, t: Seq<u8>) -> Set<int> {
    Set::new(|j: int| 0 <= j < t.len() && !position_matches(v, t, j))
}

/// Counting mismatches over a window agrees with the size of the set of
/// mismatching positions in that window.
proof fn lemma_mismatch_set_upto(v: Seq<u8>, t: Seq<u8>, n: int)
    requires
        0 <= n,
    ensures
        Set::new(|j: int| 0 <= j < n && !position_matches(v, t, j)).finite(),
        Set::new(|j: int| 0 <= j < n && !position_matches(v, t, j)).len() == mismatches_upto(
            v,
            t,
            n,
        ),
    decreases n,
{
    broadcast use vstd::set::group_set_axioms;

    let s = Set::new(|j: int| 0 <= j < n && !position_matches(v, t, j));
    if n == 0 {
        assert(s =~= Set::<int>::empty());
    } else {
        lemma_mismatch_set_upto(v, t, n - 1);
        let sp = Set::new(|j: int| 0 <= j < n - 1 && !position_matches(v, t, j));
        if position_matches(v, t, n - 1) {
            assert(s =~= sp);
        } else {
            assert(!sp.contains(n - 1));
            assert(s =~= sp.insert(n - 1));
        }
    }
}

/// The fitness score is exactly the number of positions at which the
/// individual differs from (or falls short of) the target.
pub proof fn lemma_score_counts_mismatches(v: Seq<u8>, t: Seq<u8>)
    ensures
        mismatch_positions(v, t).finite(),
        mismatch_positions(v, t).len() == spec_score(v, t),
{
    lemma_mismatch_set_upto(v, t, t.len() as int);
}

/// A score never exceeds the target's length.
pub proof fn lemma_score_le_target_len(v: Seq<u8>, t: Seq<u8>)
    ensures
        spec_score(v, t) <= t.len(),
{
    lemma_mismatches_upto_le(v, t, t.len() as int);
}

} // verus!
