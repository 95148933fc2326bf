use vstd::prelude::*;

use crate::contact::ContactMethod;
use crate::pairing::Pairing;
use crate::person::Person;

pub mod cycle;
pub mod hamiltonian;
pub mod inorder;
pub mod ring;

verus! {

/// The fewest participants among whom a gift cycle is meaningful.
pub const MIN_PARTICIPANTS: usize = 3;

/// A strategy that turns an ordered list of participants into pairings.
///
/// Whatever the strategy, the pairings form one ring through all the
/// participants: some arrangement of everyone in which each person gives to
/// the next, and the last gives to the first.
pub trait Algorithm<C: ContactMethod> {
    /// Whether this strategy may answer `participants` with `pairings`.
    spec fn may_produce<'a>(
        &self,
        participants: Seq<Person<C>>,
        pairings: Seq<Pairing<'a, C>>,
    ) -> bool;

    fn generate_pairings<'a>(&mut self, participants: &'a [Person<C>]) -> (pairings: Vec<
        Pairing<'a, C>,
    >)
        requires
            participants@.len() >= MIN_PARTICIPANTS,
        ensures
            old(self).may_produce(participants@, pairings@),
            ring::is_gift_ring(participants@, pairings@),
    ;
}

} // verus!
