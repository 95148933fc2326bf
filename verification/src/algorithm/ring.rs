//! Gift rings: the arrangement of participants that a set of pairings walks
//! through, and what follows from it.

use vstd::prelude::*;

use crate::contact::ContactMethod;
use crate::pairing::Pairing;
use crate::person::Person;

verus! {

/// The positions `0, 1, .., n - 1` in their natural order.
pub open spec fn identity_order(n: nat) -> Seq<usize> {
    Seq::new(n, |i: int| i as usize)
}

/// `order` arranges the positions `0 .. n`: each of them occurs, and none twice.
pub open spec fn is_permutation(order: Seq<usize>, n: nat) -> bool {
    &&& order.len() == n
    &&& order.no_duplicates()
    &&& forall|i: int| 0 <= i < order.len() ==> #[trigger] order[i] < n
    &&& forall|v: usize| v < n ==> #[trigger] order.contains(v)
}

/// The place after `i` on a ring of `n` places.
pub open spec fn next_place(i: int, n: int) -> int {
    if i + 1 < n {
        i + 1
    } else {
        0
    }
}

/// The place reached from `i` after `steps` moves round a ring of `n` places,
/// for `0 <= i < n` and `steps <= n`.
pub open spec fn place_after(i: int, steps: int, n: int) -> int {
    if i + steps < n {
        i + steps
    } else {
        i + steps - n
    }
}

/// The (giver, recipient) positions of the ring through `order`: each entry
/// gives to the one after it, and the last to the first.
pub open spec fn ring_links(order: Seq<usize>) -> Seq<(usize, usize)> {
    Seq::new(order.len(), |i: int| (order[i], order[next_place(i, order.len() as int)]))
}

/// The pairings of the ring through `order`, among `participants`.
pub open spec fn ring_pairings<'a, C: ContactMethod>(
    participants: Seq<Person<C>>,
    order: Seq<usize>,
) -> Seq<Pairing<'a, C>> {
    Seq::new(
        order.len(),
        |i: int|
            Pairing(
                &participants[ring_links(order)[i].0 as int],
                &participants[ring_links(order)[i].1 as int],
            ),
    )
}

/// `pairings` is one ring through all of `participants`.
pub open spec fn is_gift_ring<'a, C: ContactMethod>(
    participants: Seq<Person<C>>,
    pairings: Seq<Pairing<'a, C>>,
) -> bool {
    exists|order: Seq<usize>|
        is_permutation(order, participants.len()) && pairings == #[trigger] ring_pairings(
            participants,
            order,
        )
}

/// The positions `0, 1, .., n - 1` in a vector.
pub fn index_sequence(n: usize) -> (order: Vec<usize>)
    ensures
        order@ == identity_order(n as nat),
{
    let mut order: Vec<usize> = Vec::new();
    let mut i: usize = 0;
    while i < n
        invariant
            i <= n,
            order@ == identity_order(i as nat),
        decreases n - i,
    {
        order.push(i);
        i += 1;
        assert(order@ =~= identity_order(i as nat));
    }
    order
}

/// Walk `order` and pair each participant it names with the one named next,
/// closing the loop from the last entry back to the first.
pub fn pairings_from_order<'a, C: ContactMethod>(
    participants: &'a [Person<C>],
    order: &Vec<usize>,
) -> (pairings: Vec<Pairing<'a, C>>)
    requires
        order@.len() >= 1,
        forall|i: int| 0 <= i < order@.len() ==> order@[i] < participants@.len(),
    ensures
        pairings@ == ring_pairings(participants@, order@),
{
    let n: usize = order.len();
    let mut pairings: Vec<Pairing<'a, C>> = Vec::new();
    let mut i: usize = 0;
    while i + 1 < n
        invariant
            n == order@.len(),
            n >= 1,
            i + 1 <= n,
            forall|k: int| 0 <= k < order@.len() ==> order@[k] < participants@.len(),
            pairings@.len() == i,
            forall|k: int|
                0 <= k < i ==> pairings@[k] == ring_pairings::<C>(participants@, order@)[k],
        decreases n - i,
    {
        pairings.push(Pairing::new(&participants[order[i]], &participants[order[i + 1]]));
        i += 1;
    }
    pairings.push(Pairing::new(&participants[order[n - 1]], &participants[order[0]]));
    assert(pairings@ =~= ring_pairings(participants@, order@));
    pairings
}

/// The identity arrangement is a permutation.
pub proof fn lemma_identity_is_permutation(n: nat)
    requires
        n <= usize::MAX,
    ensures
        is_permutation(identity_order(n), n),
{
    let id = identity_order(n);
    assert forall|v: usize| v < n implies #[trigger] id.contains(v) by {
        assert(id[v as int] == v);
    }
}

/// Rearranging the identity arrangement, keeping each entry as often as it
/// occurred, gives a permutation.
pub proof fn lemma_rearranged_identity_is_permutation(order: Seq<usize>, n: nat)
    requires
        n <= usize::MAX,
        order.to_multiset() == identity_order(n).to_multiset(),
    ensures
        is_permutation(order, n),
{
    let id = identity_order(n);
    lemma_identity_is_permutation(n);
    order.to_multiset_ensures();
    id.to_multiset_ensures();
    id.lemma_multiset_has_no_duplicates();
    order.lemma_multiset_has_no_duplicates_conv();
    assert forall|i: int| 0 <= i < order.len() implies #[trigger] order[i] < n by {
        assert(order.contains(order[i]));
        assert(id.to_multiset().count(order[i]) > 0);
        assert(id.contains(order[i]));
    }
    assert forall|v: usize| v < n implies #[trigger] order.contains(v) by {
        assert(id.contains(v));
        assert(order.to_multiset().count(v) > 0);
    }
}

} // verus!
