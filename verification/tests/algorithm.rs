use rand::rngs::StdRng;
use rand::SeedableRng;
use santa_core::algorithm::hamiltonian::Hamiltonian;
use santa_core::algorithm::inorder::InOrder;
use santa_core::algorithm::ring::{index_sequence, pairings_from_order};
use santa_core::algorithm::Algorithm;
use santa_core::contact::phone::PhoneNumber;
use santa_core::pairing::Pairing;
use santa_core::person::Person;

fn people(n: usize) -> Vec<Person<PhoneNumber>> {
    (0..n)
        .map(|i| {
            Person::new(
                &format!("P{}", i),
                PhoneNumber::new(&format!("+44000000{:03}", i)).unwrap(),
            )
        })
        .collect()
}

fn position(participants: &[Person<PhoneNumber>], person: &Person<PhoneNumber>) -> usize {
    participants.iter().position(|p| p == person).unwrap()
}

fn links(
    participants: &[Person<PhoneNumber>],
    pairings: &[Pairing<PhoneNumber>],
) -> Vec<(usize, usize)> {
    pairings
        .iter()
        .map(|p| (position(participants, p.giver()), position(participants, p.recipient())))
        .collect()
}

fn assert_single_cycle(n: usize, links: &[(usize, usize)]) {
    assert_eq!(links.len(), n);
    let mut gives_to = vec![usize::MAX; n];
    let mut received = vec![0usize; n];
    for &(giver, recipient) in links {
        assert_ne!(giver, recipient);
        assert_eq!(gives_to[giver], usize::MAX);
        gives_to[giver] = recipient;
        received[recipient] += 1;
    }
    assert!(received.iter().all(|&count| count == 1));
    for start in 0..n {
        let mut seen = vec![false; n];
        let mut at = start;
        for _ in 0..n {
            assert!(!seen[at]);
            seen[at] = true;
            at = gives_to[at];
        }
        assert_eq!(at, start);
        assert!(seen.iter().all(|&s| s));
    }
}

#[test]
fn index_sequence_counts_up() {
    assert_eq!(index_sequence(0), Vec::<usize>::new());
    assert_eq!(index_sequence(1), vec![0]);
    assert_eq!(index_sequence(5), vec![0, 1, 2, 3, 4]);
}

#[test]
fn pairings_follow_the_given_order() {
    let participants = people(4);
    let pairings = pairings_from_order(&participants, &vec![2, 0, 3, 1]);
    assert_eq!(links(&participants, &pairings), vec![(2, 0), (0, 3), (3, 1), (1, 2)]);
}

#[test]
fn pairings_from_a_single_entry_close_on_it() {
    let participants = people(3);
    let pairings = pairings_from_order(&participants, &vec![1]);
    assert_eq!(links(&participants, &pairings), vec![(1, 1)]);
}

#[test]
fn in_order_is_a_single_cycle() {
    for n in 3..9 {
        let participants = people(n);
        let pairings = InOrder::default().generate_pairings(&participants);
        let found = links(&participants, &pairings);
        let expected: Vec<(usize, usize)> = (0..n).map(|i| (i, (i + 1) % n)).collect();
        assert_eq!(found, expected);
        assert_single_cycle(n, &found);
    }
}

#[test]
fn in_order_is_deterministic() {
    let participants = people(6);
    let first = InOrder::default().generate_pairings(&participants);
    let second = InOrder::default().generate_pairings(&participants);
    assert_eq!(links(&participants, &first), links(&participants, &second));
    let texts_first: Vec<String> = first.iter().map(|p| p.to_text()).collect();
    let texts_second: Vec<String> = second.iter().map(|p| p.to_text()).collect();
    assert_eq!(texts_first, texts_second);
}

#[test]
fn hamiltonian_is_a_single_cycle() {
    for seed in 0..20u64 {
        for n in 3..9 {
            let participants = people(n);
            let mut algorithm = Hamiltonian::new(StdRng::seed_from_u64(seed));
            let pairings = algorithm.generate_pairings(&participants);
            assert_single_cycle(n, &links(&participants, &pairings));
        }
    }
}

#[test]
fn hamiltonian_covers_the_last_participant() {
    let participants = people(3);
    let mut algorithm = Hamiltonian::new(StdRng::seed_from_u64(7));
    let pairings = algorithm.generate_pairings(&participants);
    assert_eq!(pairings.len(), 3);
    assert!(pairings.iter().any(|p| p.giver() == &participants[2]));
    assert!(pairings.iter().any(|p| p.recipient() == &participants[2]));
}

#[test]
fn hamiltonian_with_the_same_seed_repeats_itself() {
    let participants = people(8);
    for seed in [0u64, 1, 42, 2024] {
        let mut first = Hamiltonian::new(StdRng::seed_from_u64(seed));
        let mut second = Hamiltonian::new(StdRng::seed_from_u64(seed));
        assert_eq!(
            links(&participants, &first.generate_pairings(&participants)),
            links(&participants, &second.generate_pairings(&participants))
        );
    }
}

#[test]
fn hamiltonian_rearranges_the_participants() {
    let participants = people(8);
    let listed = links(&participants, &InOrder::default().generate_pairings(&participants));
    let rearranged = (0..10u64).any(|seed| {
        let mut algorithm = Hamiltonian::new(StdRng::seed_from_u64(seed));
        links(&participants, &algorithm.generate_pairings(&participants)) != listed
    });
    assert!(rearranged);
}

#[test]
fn hamiltonian_draws_on_from_its_generator() {
    let participants = people(8);
    let mut algorithm = Hamiltonian::new(StdRng::seed_from_u64(3));
    let mut fresh = Hamiltonian::new(StdRng::seed_from_u64(3));
    let first = links(&participants, &algorithm.generate_pairings(&participants));
    assert_eq!(first, links(&participants, &fresh.generate_pairings(&participants)));
    let different = (0..10).any(|_| {
        links(&participants, &algorithm.generate_pairings(&participants)) != first
    });
    assert!(different);
}

#[test]
fn system_seeded_hamiltonian_is_a_single_cycle() {
    let participants = people(5);
    let mut algorithm = Hamiltonian::default();
    let pairings = algorithm.generate_pairings(&participants);
    assert_single_cycle(5, &links(&participants, &pairings));
}
