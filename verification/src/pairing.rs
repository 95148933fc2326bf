use vstd::prelude::*;
use vstd::string::*;

use crate::contact::ContactMethod;
use crate::person::Person;

verus! {

/// A Pairing is just a tuple of references to two Person structs, where .0 is the giver and .1 is the recipient
#[derive(Debug)]
pub struct Pairing<'a, C: ContactMethod>(pub &'a Person<C>, pub &'a Person<C>);

/// How a relation between two people reads in text: `label{giver -> recipient}`.
pub open spec fn relation_text(label: Seq<char>, giver: Seq<char>, recipient: Seq<char>) -> Seq<
    char,
> {
    label + "{"@ + giver + " -> "@ + recipient + "}"@
}

impl<'a, C: ContactMethod> Pairing<'a, C> {
    pub fn new(giver: &'a Person<C>, recipient: &'a Person<C>) -> (pairing: Self)
        ensures
            pairing == Pairing(giver, recipient),
    {
        Self(giver, recipient)
    }

    /// Get an immutable ref to the gift giver
    pub fn giver(&self) -> (giver: &Person<C>)
        ensures
            giver == self.0,
    {
        self.0
    }

    /// Get an immutable ref to the gift recipient
    pub fn recipient(&self) -> (recipient: &Person<C>)
        ensures
            recipient == self.1,
    {
        self.1
    }

    /// Render the pairing as `Pairing{giver -> recipient}`.
    pub fn to_text(&self) -> (text: String)
        ensures
            text@ == relation_text("Pairing"@, self.0.spec_text(), self.1.spec_text()),
    {
        let mut text = String::from_str("Pairing");
        text.append("{");
        text.append(self.0.to_text().as_str());
        text.append(" -> ");
        text.append(self.1.to_text().as_str());
        text.append("}");
        text
    }
}

/// A GiftPairing is just a tuple of two Person structs, where .0 is the giver and .1 is the recipient
#[derive(Debug)]
pub struct GiftPairing<C: ContactMethod>(pub Person<C>, pub Person<C>);

impl<C: ContactMethod> GiftPairing<C> {
    pub fn new(giver: Person<C>, recipient: Person<C>) -> (pairing: Self)
        ensures
            pairing == GiftPairing(giver, recipient),
    {
        Self(giver, recipient)
    }

    /// Get an immutable ref to the gift giver
    pub fn giver(&self) -> (giver: &Person<C>)
        ensures
            *giver == self.0,
    {
        &self.0
    }

    /// Get an immutable ref to the gift recipient
    pub fn recipient(&self) -> (recipient: &Person<C>)
        ensures
            *recipient == self.1,
    {
        &self.1
    }

    /// Render the pairing as `GiftPairing{giver -> recipient}`.
    pub fn to_text(&self) -> (text: String)
        ensures
            text@ == relation_text("GiftPairing"@, self.0.spec_text(), self.1.spec_text()),
    {
        let mut text = String::from_str("GiftPairing");
        text.append("{");
        text.append(self.0.to_text().as_str());
        text.append(" -> ");
        text.append(self.1.to_text().as_str());
        text.append("}");
        text
    }
}

} // verus!
