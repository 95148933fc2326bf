use rand::rngs::StdRng;
use rand::seq::SliceRandom;
use rand::SeedableRng;
use vstd::prelude::*;

use super::ring::{
    index_sequence, is_gift_ring, lemma_rearranged_identity_is_permutation,
    pairings_from_order,
};
use super::Algorithm;
use crate::contact::ContactMethod;
use crate::pairing::Pairing;
use crate::person::Person;

verus! {

/// `rand::rngs::StdRng`, the generator the randomized strategy draws from.
/// Nothing is known of its state.
#[verifier::external_type_specification]
#[verifier::external_body]
pub struct ExStdRng(rand::rngs::StdRng);

/// Pairs the participants along a randomly drawn closed loop through all of
/// them.
#[derive(Debug)]
pub struct Hamiltonian {
    prng: StdRng,
}

/// `SeedableRng::from_entropy` for `StdRng`: a generator seeded by the
/// operating system. Nothing is claimed of the result. The call aborts where
/// the operating system has no entropy to give.
#[verifier::external_body]
fn system_seeded() -> StdRng {
    StdRng::from_entropy()
}

/// `SliceRandom::shuffle` on the slice of `order`: the entries are swapped
/// among themselves in place, so afterwards each occurs as often as before.
/// Which arrangement comes out depends on the generator and is left open.
#[verifier::external_body]
fn shuffle_indices(order: &mut Vec<usize>, prng: &mut StdRng)
    ensures
        final(order)@.to_multiset() == old(order)@.to_multiset(),
{
    order.shuffle(prng);
}

impl Hamiltonian {
    /// The generator this strategy draws from.
    pub closed spec fn spec_prng(&self) -> StdRng {
        self.prng
    }

    /// Create a new Hamiltonian with the specified prng
    pub fn new(prng: StdRng) -> (algorithm: Self)
        ensures
            algorithm.spec_prng() == prng,
    {
        Self { prng }
    }
}

impl Default for Hamiltonian {
    /// A Hamiltonian that draws from a generator seeded by the system, which
    /// must be able to supply the seed.
    fn default() -> (algorithm: Self) {
        Self { prng: system_seeded() }
    }
}

impl<C: ContactMethod> Algorithm<C> for Hamiltonian {
    /// Any ring through all the participants: which one is up to the
    /// generator.
    open spec fn may_produce<'a>(
        &self,
        participants: Seq<Person<C>>,
        pairings: Seq<Pairing<'a, C>>,
    ) -> bool {
        is_gift_ring(participants, pairings)
    }

    fn generate_pairings<'a>(&mut self, participants: &'a [Person<C>]) -> (pairings: Vec<
        Pairing<'a, C>,
    >) {
        // First, use the prng to shuffle the participants
        let mut order = index_sequence(participants.len());
        shuffle_indices(&mut order, &mut self.prng);
        proof {
            lemma_rearranged_identity_is_permutation(order@, participants@.len());
        }
        // Now generate pairings based on the shuffled order
        pairings_from_order(participants, &order)
    }
}

} // verus!
