//! What holds of every gift ring: nobody gives to themselves, everybody gives
//! once and receives once, and following the gifts from anyone leads through
//! everyone before coming back.

use vstd::prelude::*;

use super::ring::{
    is_gift_ring, is_permutation, next_place, place_after, ring_links,
    ring_pairings,
};
use crate::contact::ContactMethod;
use crate::pairing::Pairing;
use crate::person::Person;

verus! {

/// The giver positions of `links`, in order.
pub open spec fn link_givers(links: Seq<(usize, usize)>) -> Seq<usize> {
    links.map_values(|l: (usize, usize)| l.0)
}

/// The recipient positions of `links`, in order.
pub open spec fn link_recipients(links: Seq<(usize, usize)>) -> Seq<usize> {
    links.map_values(|l: (usize, usize)| l.1)
}

/// The givers of `pairings`, in order.
pub open spec fn givers<'a, C: ContactMethod>(pairings: Seq<Pairing<'a, C>>) -> Seq<Person<C>> {
    pairings.map_values(|p: Pairing<'a, C>| *p.0)
}

/// The recipients of `pairings`, in order.
pub open spec fn recipients<'a, C: ContactMethod>(pairings: Seq<Pairing<'a, C>>) -> Seq<
    Person<C>,
> {
    pairings.map_values(|p: Pairing<'a, C>| *p.1)
}

/// The position that `giver` gives to, according to `links`.
pub open spec fn recipient_of(links: Seq<(usize, usize)>, giver: usize) -> usize {
    links[choose|i: int| 0 <= i < links.len() && links[i].0 == giver].1
}

/// The position reached from `start` by following `steps` gifts in `links`.
pub open spec fn walk(links: Seq<(usize, usize)>, start: usize, steps: nat) -> usize
    decreases steps,
{
    if steps == 0 {
        start
    } else {
        recipient_of(links, walk(links, start, (steps - 1) as nat))
    }
}

/// Whether following fewer than `n` gifts in `links` from `start` reaches
/// `target`.
pub open spec fn reaches(links: Seq<(usize, usize)>, start: usize, target: usize, n: nat) -> bool {
    exists|k: nat| k < n && #[trigger] walk(links, start, k) == target
}

/// In the ring through a permutation of two or more positions, no position
/// gives to itself, every position gives exactly once, and every position
/// receives exactly once.
pub proof fn lemma_ring_links_form_derangement(order: Seq<usize>, n: nat)
    requires
        is_permutation(order, n),
        n >= 2,
    ensures
        ring_links(order).len() == n,
        forall|i: int| 0 <= i < n ==> (#[trigger] ring_links(order)[i]).0 != ring_links(order)[i].1,
        is_permutation(link_givers(ring_links(order)), n),
        is_permutation(link_recipients(ring_links(order)), n),
{
    let links = ring_links(order);
    let gs = link_givers(links);
    let rs = link_recipients(links);
    assert forall|i: int| 0 <= i < n implies (#[trigger] links[i]).0 != links[i].1 by {
        assert(next_place(i, n as int) != i);
    }
    assert(gs =~= order);
    assert forall|i: int, j: int| 0 <= i < n && 0 <= j < n && i != j implies rs[i] != rs[j] by {
        assert(next_place(i, n as int) != next_place(j, n as int));
    }
    assert forall|v: usize| v < n implies #[trigger] rs.contains(v) by {
        assert(order.contains(v));
        let m = choose|m: int| 0 <= m < order.len() && order[m] == v;
        let i = if m == 0 {
            n - 1
        } else {
            m - 1
        };
        assert(next_place(i, n as int) == m);
        assert(rs[i] == v);
    }
}

/// A gift ring is a derangement: among distinct participants, every pairing
/// of it has a giver other than its recipient, there are as many pairings as
/// participants, and every participant is the giver of exactly one pairing
/// and the recipient of exactly one.
pub proof fn lemma_gift_ring_is_derangement<'a, C: ContactMethod>(
    participants: Seq<Person<C>>,
    pairings: Seq<Pairing<'a, C>>,
)
    requires
        2 <= participants.len() <= usize::MAX,
        participants.no_duplicates(),
        is_gift_ring(participants, pairings),
    ensures
        pairings.len() == participants.len(),
        forall|i: int| 0 <= i < pairings.len() ==> *(#[trigger] pairings[i]).0 != *pairings[i].1,
        givers(pairings).no_duplicates(),
        recipients(pairings).no_duplicates(),
        forall|k: int|
            0 <= k < participants.len() ==> givers(pairings).contains(#[trigger] participants[k])
                && recipients(pairings).contains(participants[k]),
{
    let n = participants.len();
    let order = choose|order: Seq<usize>|
        is_permutation(order, n) && pairings == #[trigger] ring_pairings(participants, order);
    let links = ring_links(order);
    lemma_ring_links_form_derangement(order, n);
    let lg = link_givers(links);
    let lr = link_recipients(links);
    let gs = givers(pairings);
    let rs = recipients(pairings);
    assert forall|i: int| 0 <= i < n implies gs[i] == participants[lg[i] as int] && rs[i]
        == participants[lr[i] as int] && lg[i] < n && lr[i] < n by {
        assert(lg[i] == links[i].0);
        assert(lr[i] == links[i].1);
    }
    assert forall|i: int| 0 <= i < pairings.len() implies *(#[trigger] pairings[i]).0
        != *pairings[i].1 by {
        assert(links[i].0 != links[i].1);
        assert(gs[i] == participants[lg[i] as int]);
        assert(rs[i] == participants[lr[i] as int]);
    }
    assert forall|i: int, j: int| 0 <= i < n && 0 <= j < n && i != j implies gs[i] != gs[j] by {
        assert(lg[i] != lg[j]);
    }
    assert forall|i: int, j: int| 0 <= i < n && 0 <= j < n && i != j implies rs[i] != rs[j] by {
        assert(lr[i] != lr[j]);
    }
    assert forall|k: int| 0 <= k < n implies gs.contains(#[trigger] participants[k])
        && rs.contains(participants[k]) by {
        assert(lg.contains(k as usize));
        let i = choose|i: int| 0 <= i < lg.len() && lg[i] == k as usize;
        assert(gs[i] == participants[k]);
        assert(lr.contains(k as usize));
        let j = choose|j: int| 0 <= j < lr.len() && lr[j] == k as usize;
        assert(rs[j] == participants[k]);
    }
}

/// In the ring through a permutation, the entry at place `i` gives to the
/// entry at the next place.
pub proof fn lemma_recipient_is_next(order: Seq<usize>, n: nat, i: int)
    requires
        is_permutation(order, n),
        0 <= i < n,
    ensures
        recipient_of(ring_links(order), order[i]) == order[next_place(i, n as int)],
{
    let links = ring_links(order);
    assert(links[i].0 == order[i]);
    let c = choose|c: int| 0 <= c < links.len() && links[c].0 == order[i];
    assert(order[c] == order[i]);
}

/// Following `steps` gifts from the entry at place `i` leads to the entry
/// `steps` places further round the ring.
pub proof fn lemma_walk_follows_order(order: Seq<usize>, n: nat, i: int, steps: nat)
    requires
        is_permutation(order, n),
        0 <= i < n,
        steps <= n,
    ensures
        walk(ring_links(order), order[i], steps) == order[place_after(i, steps as int, n as int)],
    decreases steps,
{
    if steps > 0 {
        let before = (steps - 1) as nat;
        lemma_walk_follows_order(order, n, i, before);
        let at = place_after(i, before as int, n as int);
        lemma_recipient_is_next(order, n, at);
        assert(next_place(at, n as int) == place_after(i, steps as int, n as int));
    }
}

/// A gift ring is a single cycle: in the ring through a permutation of `n`
/// positions, following the gifts from any position comes back to it after exactly `n`
/// gifts and not before, passes no position twice on the way, and passes
/// every position.
pub proof fn lemma_ring_is_one_cycle(order: Seq<usize>, n: nat, start: usize)
    requires
        is_permutation(order, n),
        start < n,
    ensures
        walk(ring_links(order), start, n) == start,
        forall|k: nat| 0 < k < n ==> #[trigger] walk(ring_links(order), start, k) != start,
        forall|a: nat, b: nat|
            a < b < n ==> #[trigger] walk(ring_links(order), start, a) != #[trigger] walk(
                ring_links(order),
                start,
                b,
            ),
        forall|v: usize| v < n ==> #[trigger] reaches(ring_links(order), start, v, n),
{
    let links = ring_links(order);
    assert(order.contains(start));
    let i = choose|i: int| 0 <= i < order.len() && order[i] == start;
    lemma_walk_follows_order(order, n, i, n);
    assert forall|k: nat| 0 < k < n implies #[trigger] walk(links, start, k) != start by {
        lemma_walk_follows_order(order, n, i, k);
        assert(place_after(i, k as int, n as int) != i);
    }
    assert forall|a: nat, b: nat| a < b < n implies #[trigger] walk(links, start, a)
        != #[trigger] walk(links, start, b) by {
        lemma_walk_follows_order(order, n, i, a);
        lemma_walk_follows_order(order, n, i, b);
        assert(place_after(i, a as int, n as int) != place_after(i, b as int, n as int));
    }
    assert forall|v: usize| v < n implies #[trigger] reaches(links, start, v, n) by {
        assert(order.contains(v));
        let m = choose|m: int| 0 <= m < order.len() && order[m] == v;
        let k: nat = if m >= i {
            (m - i) as nat
        } else {
            (m - i + n) as nat
        };
        lemma_walk_follows_order(order, n, i, k);
        assert(place_after(i, k as int, n as int) == m);
        assert(k < n && walk(links, start, k) == v);
    }
}

/// The person that `giver` gives to, according to `pairings`.
pub open spec fn gives_to<'a, C: ContactMethod>(
    pairings: Seq<Pairing<'a, C>>,
    giver: Person<C>,
) -> Person<C> {
    *pairings[choose|i: int| 0 <= i < pairings.len() && *pairings[i].0 == giver].1
}

/// The person reached from `start` by following `steps` gifts in `pairings`.
pub open spec fn follow<'a, C: ContactMethod>(
    pairings: Seq<Pairing<'a, C>>,
    start: Person<C>,
    steps: nat,
) -> Person<C>
    decreases steps,
{
    if steps == 0 {
        start
    } else {
        gives_to(pairings, follow(pairings, start, (steps - 1) as nat))
    }
}

/// Whether following fewer than `n` gifts in `pairings` from `start` reaches
/// `target`.
pub open spec fn leads_to<'a, C: ContactMethod>(
    pairings: Seq<Pairing<'a, C>>,
    start: Person<C>,
    target: Person<C>,
    n: nat,
) -> bool {
    exists|k: nat| k < n && #[trigger] follow(pairings, start, k) == target
}

/// Among distinct participants, following `steps` gifts from the participant
/// that `order` names at place `i` leads to the participant named `steps`
/// places further round the ring.
pub proof fn lemma_follow_follows_order<'a, C: ContactMethod>(
    participants: Seq<Person<C>>,
    order: Seq<usize>,
    i: int,
    steps: nat,
)
    requires
        participants.no_duplicates(),
        is_permutation(order, participants.len()),
        0 <= i < participants.len(),
        steps <= participants.len(),
    ensures
        follow(ring_pairings::<C>(participants, order), participants[order[i] as int], steps)
            == participants[order[place_after(i, steps as int, participants.len() as int)] as int],
    decreases steps,
{
    if steps > 0 {
        let n = participants.len();
        let pairings = ring_pairings::<C>(participants, order);
        let links = ring_links(order);
        let before = (steps - 1) as nat;
        lemma_follow_follows_order::<C>(participants, order, i, before);
        let at = place_after(i, before as int, n as int);
        let giver = participants[order[at] as int];
        assert(*pairings[at].0 == giver);
        let c = choose|c: int| 0 <= c < pairings.len() && *pairings[c].0 == giver;
        assert(*pairings[c].0 == participants[links[c].0 as int]);
        assert(order[c] == order[at]);
        assert(c == at);
        assert(*pairings[at].1 == participants[links[at].1 as int]);
        assert(next_place(at, n as int) == place_after(i, steps as int, n as int));
    }
}

/// A gift ring is a single cycle through the participants: among distinct
/// participants, following the gifts from any of them comes back to that
/// participant after as many gifts as there are participants and not before,
/// passes nobody twice on the way, and passes everybody.
pub proof fn lemma_gift_ring_is_one_cycle<'a, C: ContactMethod>(
    participants: Seq<Person<C>>,
    pairings: Seq<Pairing<'a, C>>,
    start: int,
)
    requires
        participants.len() <= usize::MAX,
        participants.no_duplicates(),
        is_gift_ring(participants, pairings),
        0 <= start < participants.len(),
    ensures
        follow(pairings, participants[start], participants.len()) == participants[start],
        forall|k: nat|
            0 < k < participants.len() ==> #[trigger] follow(pairings, participants[start], k)
                != participants[start],
        forall|a: nat, b: nat|
            a < b < participants.len() ==> #[trigger] follow(pairings, participants[start], a)
                != #[trigger] follow(pairings, participants[start], b),
        forall|v: int|
            0 <= v < participants.len() ==> leads_to(
                pairings,
                participants[start],
                #[trigger] participants[v],
                participants.len(),
            ),
{
    let n = participants.len();
    let order = choose|order: Seq<usize>|
        is_permutation(order, n) && pairings == #[trigger] ring_pairings(participants, order);
    let first = participants[start];
    assert(order.contains(start as usize));
    let i = choose|i: int| 0 <= i < order.len() && order[i] == start as usize;
    lemma_follow_follows_order::<C>(participants, order, i, n);
    assert forall|k: nat| 0 < k < n implies #[trigger] follow(pairings, first, k) != first by {
        lemma_follow_follows_order::<C>(participants, order, i, k);
        let at = place_after(i, k as int, n as int);
        assert(at != i);
        assert(order[at] != order[i]);
    }
    assert forall|a: nat, b: nat| a < b < n implies #[trigger] follow(pairings, first, a)
        != #[trigger] follow(pairings, first, b) by {
        lemma_follow_follows_order::<C>(participants, order, i, a);
        lemma_follow_follows_order::<C>(participants, order, i, b);
        let at_a = place_after(i, a as int, n as int);
        let at_b = place_after(i, b as int, n as int);
        assert(at_a != at_b);
        assert(order[at_a] != order[at_b]);
    }
    assert forall|v: int| 0 <= v < n implies leads_to(
        pairings,
        first,
        #[trigger] participants[v],
        n,
    ) by {
        assert(order.contains(v as usize));
        let m = choose|m: int| 0 <= m < order.len() && order[m] == v as usize;
        let k: nat = if m >= i {
            (m - i) as nat
        } else {
            (m - i + n) as nat
        };
        lemma_follow_follows_order::<C>(participants, order, i, k);
        assert(place_after(i, k as int, n as int) == m);
        assert(k < n && follow(pairings, first, k) == participants[v]);
    }
}

} // verus!
