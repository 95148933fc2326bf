use vstd::prelude::*;
use vstd::std_specs::iter::IteratorSpec;
use vstd::string::*;

use crate::algorithm::ring::is_gift_ring;
use crate::algorithm::{Algorithm, MIN_PARTICIPANTS};
use crate::contact::ContactMethod;
use crate::pairing::Pairing;
use crate::person::Person;

verus! {

pub type SantaResult<T> = Result<T, String>;

/// A participant list long enough for a gift cycle.
#[derive(Debug)]
struct Roster<C: ContactMethod> {
    people: Vec<Person<C>>,
}

impl<C: ContactMethod> Roster<C> {
    #[verifier::type_invariant]
    spec fn well_formed(&self) -> bool {
        self.people@.len() >= MIN_PARTICIPANTS
    }

    fn people(&self) -> (people: &Vec<Person<C>>)
        ensures
            *people == self.people,
            people@.len() >= MIN_PARTICIPANTS,
    {
        proof {
            use_type_invariant(self);
        }
        &self.people
    }
}

/// Owns the participants and the strategy that pairs them.
#[derive(Debug)]
pub struct Santa<C: ContactMethod, A: Algorithm<C>> {
    participants: Roster<C>,
    algorithm: A,
}

/// The message a participant called `name` is greeted with.
pub open spec fn greeting(name: Seq<char>) -> Seq<char> {
    "Hello "@ + name + "! This is a test!"@
}

/// Compose the greeting for a participant called `name`.
pub fn greeting_for(name: &str) -> (message: String)
    ensures
        message@ == greeting(name@),
{
    let mut message = String::from_str("Hello ");
    message.append(name);
    message.append("! This is a test!");
    message
}

impl<C: ContactMethod, A: Algorithm<C>> Santa<C, A> {
    /// The participants, in the order in which they were handed over.
    pub closed spec fn spec_participants(&self) -> Seq<Person<C>> {
        self.participants.people@
    }

    /// The strategy that pairs the participants.
    pub closed spec fn spec_algorithm(&self) -> A {
        self.algorithm
    }

    /// Create a new Santa from the specified participants
    pub fn new(participants: Vec<Person<C>>, algorithm: A) -> (santa: SantaResult<Self>)
        ensures
            santa.is_ok() <==> participants@.len() >= MIN_PARTICIPANTS,
            santa matches Ok(s) ==> s.spec_participants() == participants@ && s.spec_algorithm()
                == algorithm,
            santa matches Err(reason) ==> reason@
                == "Need at least 3 participants for Secret Santa!"@,
    {
        // Need at least 3 people to participate!
        if participants.len() < MIN_PARTICIPANTS {
            return Err(String::from_str("Need at least 3 participants for Secret Santa!"));
        }
        Ok(Self { participants: Roster { people: participants }, algorithm })
    }

    /// Get an immutable ref to the Vec of participants
    pub fn participants(&self) -> (participants: &[Person<C>])
        ensures
            participants@ == self.spec_participants(),
            participants@.len() >= MIN_PARTICIPANTS,
    {
        self.participants.people().as_slice()
    }

    /// Use the provided Algorithm to generate the gift pairings
    pub fn generate_pairings<'a>(&'a mut self) -> (pairings: Vec<Pairing<'a, C>>)
        ensures
            final(self).spec_participants() == old(self).spec_participants(),
            old(self).spec_algorithm().may_produce(old(self).spec_participants(), pairings@),
            is_gift_ring(old(self).spec_participants(), pairings@),
    {
        self.algorithm.generate_pairings(self.participants.people().as_slice())
    }

    /// Prepare the greeting of every participant, in list order: one dispatch
    /// each, made by the participant's own contact method.
    pub fn inform_participants(&self) -> (dispatches: Vec<String>)
        ensures
            dispatches@.len() == self.spec_participants().len(),
            forall|i: int|
                0 <= i < dispatches@.len() ==> (#[trigger] dispatches@[i])@
                    == self.spec_participants()[i].spec_contact().spec_dispatch(
                    greeting(self.spec_participants()[i].spec_name()),
                ),
    {
        let people = self.participants.people();
        let mut dispatches: Vec<String> = Vec::new();
        let mut i: usize = 0;
        while i < people.len()
            invariant
                i <= people@.len(),
                dispatches@.len() == i,
                forall|k: int|
                    0 <= k < i ==> (#[trigger] dispatches@[k])@
                        == people@[k].spec_contact().spec_dispatch(
                        greeting(people@[k].spec_name()),
                    ),
            decreases people@.len() - i,
        {
            let person = &people[i];
            let message = greeting_for(person.name());
            dispatches.push(person.contact().send_message(message.as_str()));
            i += 1;
        }
        dispatches
    }
}

/// Implement a consuming IntoIterator for Santa (so we can do: for p in santa {})
impl<C: ContactMethod, A: Algorithm<C>> IntoIterator for Santa<C, A> {
    type Item = Person<C>;

    type IntoIter = std::vec::IntoIter<Person<C>>;

    fn into_iter(self) -> (iter: std::vec::IntoIter<Person<C>>)
        ensures
            iter.remaining() == self.spec_participants(),
    {
        broadcast use vstd::std_specs::vec::axiom_spec_into_iter;

        self.participants.people.into_iter()
    }
}

/// Implement a non-consuming IntoIterator for Santa (so we can do: for p in &santa {})
impl<'a, C: ContactMethod, A: Algorithm<C>> IntoIterator for &'a Santa<C, A> {
    type Item = &'a Person<C>;

    type IntoIter = std::slice::Iter<'a, Person<C>>;

    fn into_iter(self) -> (iter: std::slice::Iter<'a, Person<C>>)
        ensures
            iter.remaining() == self.spec_participants().as_ref(),
    {
        broadcast use vstd::std_specs::slice::axiom_spec_slice_iter;

        self.participants.people.as_slice().iter()
    }
}

} // verus!
