use vstd::prelude::*;

use super::ring::{identity_order, lemma_identity_is_permutation, next_place, ring_pairings};
use super::Algorithm;
use crate::contact::ContactMethod;
use crate::pairing::Pairing;
use crate::person::Person;

verus! {

/// Pairs the participants in the order in which they are listed.
#[derive(Debug)]
pub struct InOrder {}

impl Default for InOrder {
    fn default() -> (algorithm: Self)
        ensures
            algorithm == (InOrder {  }),
    {
        InOrder {  }
    }
}

impl<C: ContactMethod> Algorithm<C> for InOrder {
    /// Exactly one answer: the ring through the participants as listed.
    open spec fn may_produce<'a>(
        &self,
        participants: Seq<Person<C>>,
        pairings: Seq<Pairing<'a, C>>,
    ) -> bool {
        pairings == ring_pairings(participants, identity_order(participants.len()))
    }

    /// InOrder just pairs all the people in the order they appear in the participants list. The last person gets the first person
    fn generate_pairings<'a>(&mut self, participants: &'a [Person<C>]) -> (pairings: Vec<
        Pairing<'a, C>,
    >) {
        let n: usize = participants.len();
        let ghost order = identity_order(n as nat);
        let mut pairings: Vec<Pairing<'a, C>> = Vec::new();
        let mut i: usize = 0;
        while i + 1 < n
            invariant
                n == participants@.len(),
                n >= 1,
                i + 1 <= n,
                order == identity_order(n as nat),
                pairings@.len() == i,
                forall|k: int|
                    0 <= k < i ==> pairings@[k] == ring_pairings::<C>(participants@, order)[k],
            decreases n - i,
        {
            pairings.push(Pairing::new(&participants[i], &participants[i + 1]));
            i += 1;
        }
        pairings.push(Pairing::new(&participants[n - 1], &participants[0]));
        proof {
            assert(pairings@ =~= ring_pairings(participants@, order));
            lemma_identity_is_permutation(n as nat);
        }
        pairings
    }
}

/// The in-order strategy is deterministic: two answers of it to the same
/// participants are the same pairings in the same order, namely each
/// participant giving to the one listed next and the last to the first.
pub proof fn lemma_in_order_is_deterministic<'a, C: ContactMethod>(
    strategy: InOrder,
    participants: Seq<Person<C>>,
    first: Seq<Pairing<'a, C>>,
    second: Seq<Pairing<'a, C>>,
)
    requires
        participants.len() <= usize::MAX,
        strategy.may_produce(participants, first),
        strategy.may_produce(participants, second),
    ensures
        first == second,
        first.len() == participants.len(),
        forall|i: int|
            0 <= i < first.len() ==> *(#[trigger] first[i]).0 == participants[i] && *first[i].1
                == participants[next_place(i, participants.len() as int)],
{
}

} // verus!
