//! The seeded random subsample of a discovery.

use crate::mutants::{distinct_identities, Mutant, MutantView};
use rand::seq::IteratorRandom;
use rand::SeedableRng;
use vstd::prelude::*;

verus! {

/// The positions that the seeded generator chooses when `amount` of `len`
/// items are asked for.
pub uninterp spec fn chosen_positions(seed: u64, len: usize, amount: usize) -> Seq<usize>;

/// `rand_chacha::ChaCha8Rng::seed_from_u64`, then
/// `rand::seq::IteratorRandom::choose_multiple` on the positions
/// `0..len`. The contract names the result and says what holds of every
/// choice: exactly `amount` positions, each below `len`, none twice. It
/// asks for `amount <= len`, so that no more is reserved than there are
/// items.
#[verifier::external_body]
fn choose_positions(seed: u64, len: usize, amount: usize) -> (chosen: Vec<usize>)
    requires
        amount <= len,
    ensures
        chosen@ == chosen_positions(seed, len, amount),
        chosen.len() == amount,
        forall|i: int| 0 <= i < chosen.len() ==> chosen[i] < len,
        forall|i: int, j: int| 0 <= i < j < chosen.len() ==> chosen[i] != chosen[j],
{
    let mut rng = rand_chacha::ChaCha8Rng::seed_from_u64(seed);
    (0..len).choose_multiple(&mut rng, amount)
}

/// The mutants at the first `k` of `positions`, in that order; a position
/// beyond the list gives none.
pub open spec fn picked(found: Seq<MutantView>, positions: Seq<usize>, k: int) -> Seq<MutantView>
    decreases k,
{
    if k <= 0 {
        Seq::empty()
    } else if positions[k - 1] < found.len() {
        picked(found, positions, k - 1).push(found[positions[k - 1] as int])
    } else {
        picked(found, positions, k - 1)
    }
}

/// The subsample of `found`: all of it where no bound is set or the bound
/// is not below its length, else the mutants at the chosen positions.
pub open spec fn subsample(found: Seq<MutantView>, max_mutants: Option<usize>, seed: u64) -> Seq<
    MutantView,
> {
    match max_mutants {
        Some(max) if max < found.len() => {
            let positions = chosen_positions(seed, found.len() as usize, max);
            picked(found, positions, positions.len() as int)
        },
        _ => found,
    }
}

/// Valid positions pick one mutant each.
pub proof fn lemma_picked_valid(found: Seq<MutantView>, positions: Seq<usize>, k: int)
    requires
        0 <= k <= positions.len(),
        forall|i: int| 0 <= i < positions.len() ==> positions[i] < found.len(),
    ensures
        picked(found, positions, k).len() == k,
        forall|i: int|
            0 <= i < k ==> #[trigger] picked(found, positions, k)[i] == found[positions[i] as int],
    decreases k,
{
    if k > 0 {
        lemma_picked_valid(found, positions, k - 1);
    }
}

/// Different positions of a list without duplicates pick no identity
/// twice.
pub proof fn lemma_picked_distinct(found: Seq<MutantView>, positions: Seq<usize>)
    requires
        forall|i: int| 0 <= i < positions.len() ==> positions[i] < found.len(),
        forall|i: int, j: int|
            0 <= i < j < positions.len() ==> #[trigger] positions[i] != #[trigger] positions[j],
        distinct_identities(found),
    ensures
        distinct_identities(picked(found, positions, positions.len() as int)),
{
    let chosen = picked(found, positions, positions.len() as int);
    lemma_picked_valid(found, positions, positions.len() as int);
    assert forall|i: int, j: int| 0 <= i < j < chosen.len() implies #[trigger] chosen[i].identity()
        != #[trigger] chosen[j].identity() by {
        let a = positions[i] as int;
        let b = positions[j] as int;
        assert(chosen[i] == found[a] && chosen[j] == found[b]);
        if a < b {
            assert(found[a].identity() != found[b].identity());
        } else {
            assert(found[b].identity() != found[a].identity());
        }
    }
}

/// The mutants of `found` at `positions`, in the order of the positions.
pub fn pick(found: &Vec<Mutant>, positions: &Vec<usize>) -> (chosen: Vec<Mutant>)
    ensures
        chosen.deep_view() == picked(found.deep_view(), positions@, positions.len() as int),
{
    let mut chosen: Vec<Mutant> = Vec::new();
    let mut k: usize = 0;
    while k < positions.len()
        invariant
            k <= positions.len(),
            chosen.deep_view() == picked(found.deep_view(), positions@, k as int),
        decreases positions.len() - k,
    {
        let at = positions[k];
        if at < found.len() {
            chosen.push(found[at].clone());
        }
        k += 1;
    }
    chosen
}

/// The mutants to run: all that were found, or a random subsample of
/// `max_mutants` of them, chosen by a generator seeded with `seed`. The
/// subsample holds `max_mutants` mutants, each taken from its own
/// position of `found`, so that it holds no identity twice where `found`
/// holds none twice.
pub fn select_mutants(found: Vec<Mutant>, max_mutants: Option<usize>, seed: u64) -> (chosen: Vec<
    Mutant,
>)
    ensures
        chosen.deep_view() == subsample(found.deep_view(), max_mutants, seed),
        match max_mutants {
            Some(max) if max < found.len() => {
                let positions = chosen_positions(seed, found.len() as usize, max);
                &&& chosen.len() == max
                &&& positions.len() == max
                &&& forall|i: int|
                    0 <= i < max ==> (#[trigger] positions[i]) < found.len()
                        && chosen.deep_view()[i] == found.deep_view()[positions[i] as int]
                &&& forall|i: int, j: int|
                    0 <= i < j < max ==> #[trigger] positions[i] != #[trigger] positions[j]
            },
            _ => chosen.len() == found.len(),
        },
        distinct_identities(found.deep_view()) ==> distinct_identities(chosen.deep_view()),
{
    match max_mutants {
        Some(max) => {
            if max < found.len() {
                let positions = choose_positions(seed, found.len(), max);
                proof {
                    lemma_picked_valid(found.deep_view(), positions@, positions.len() as int);
                    if distinct_identities(found.deep_view()) {
                        lemma_picked_distinct(found.deep_view(), positions@);
                    }
                }
                pick(&found, &positions)
            } else {
                found
            }
        },
        None => found,
    }
}

} // verus!
