use vstd::prelude::*;

use crate::contact::ContactMethod;
use crate::person::Person;

verus! {

/// A Gift is just a tuple of references to two Person structs
pub struct Gift<'a, C: ContactMethod>(pub &'a Person<C>, pub &'a Person<C>);

impl<'a, C: ContactMethod> Gift<'a, C> {
    /// Get an immutable ref to the Gift giver
    pub fn giver(&self) -> (giver: &Person<C>)
        ensures
            giver == self.0,
    {
        self.0
    }

    /// Get an immutable ref to the Gift recipient
    pub fn recipient(&self) -> (recipient: &Person<C>)
        ensures
            recipient == self.1,
    {
        self.1
    }
}

} // verus!
