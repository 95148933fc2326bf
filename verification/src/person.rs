use vstd::prelude::*;
use vstd::string::*;

use crate::contact::ContactMethod;

verus! {

/// A participant: a name and one way to reach them.
#[derive(Debug, PartialEq)]
pub struct Person<C: ContactMethod> {
    name: String,
    contact: C,
}

/// How a person reads in text: `Person{name (address)}`.
pub open spec fn person_text(name: Seq<char>, address: Seq<char>) -> Seq<char> {
    "Person{"@ + name + " ("@ + address + ")}"@
}

impl<C: ContactMethod> Person<C> {
    /// The person's name.
    pub closed spec fn spec_name(&self) -> Seq<char> {
        self.name@
    }

    /// The person's contact method.
    pub closed spec fn spec_contact(&self) -> C {
        self.contact
    }

    /// Create a new Person genericised over ContactMethod C
    pub fn new(name: &str, contact: C) -> (person: Self)
        ensures
            person.spec_name() == name@,
            person.spec_contact() == contact,
    {
        Self { name: name.to_owned(), contact }
    }

    /// Get an immutable ref to the name of the Person
    pub fn name(&self) -> (name: &str)
        ensures
            name@ == self.spec_name(),
    {
        self.name.as_str()
    }

    /// Get an immutable ref to the contact method of the Person
    pub fn contact(&self) -> (contact: &C)
        ensures
            *contact == self.spec_contact(),
    {
        &self.contact
    }

    /// The text a person is shown as.
    pub open spec fn spec_text(&self) -> Seq<char> {
        person_text(self.spec_name(), self.spec_contact().spec_value())
    }

    /// Render the person as `Person{name (address)}`.
    pub fn to_text(&self) -> (text: String)
        ensures
            text@ == self.spec_text(),
    {
        let mut text = String::from_str("Person{");
        text.append(self.name.as_str());
        text.append(" (");
        text.append(self.contact.value());
        text.append(")}");
        text
    }
}

impl<C: ContactMethod + Clone> Clone for Person<C> {
    /// The copy carries the same name, and as its contact a clone of this
    /// person's contact.
    fn clone(&self) -> (copy: Self)
        ensures
            copy.spec_name() == self.spec_name(),
            cloned(self.spec_contact(), copy.spec_contact()),
    {
        Self { name: self.name.clone(), contact: self.contact.clone() }
    }
}

} // verus!
