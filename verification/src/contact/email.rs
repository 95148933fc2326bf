use vstd::prelude::*;
use vstd::string::*;

use super::{dispatch_line, ContactMethod};

verus! {

/// The shortest raw input accepted as an email address, in characters.
pub const MIN_EMAIL_LEN: usize = 6;

/// The format check on an email address: long enough, and with an `@` in it.
pub open spec fn is_email_value(value: Seq<char>) -> bool {
    value.len() >= MIN_EMAIL_LEN && value.contains('@')
}

#[derive(Debug, PartialEq)]
pub struct Email {
    value: String,
}

/// Whether `wanted` occurs in `text`.
pub fn contains_char(text: &str, wanted: char) -> (found: bool)
    ensures
        found == text@.contains(wanted),
{
    let n: usize = text.unicode_len();
    let mut i: usize = 0;
    while i < n
        invariant
            n == text@.len(),
            i <= n,
            forall|k: int| 0 <= k < i ==> text@[k] != wanted,
        decreases n - i,
    {
        if text.get_char(i) == wanted {
            return true;
        }
        i += 1;
    }
    false
}

impl Email {
    #[verifier::type_invariant]
    spec fn well_formed(&self) -> bool {
        is_email_value(self.value@)
    }

    /// Create a new Email from the given input
    pub fn new(email: &str) -> (address: Option<Self>)
        ensures
            address.is_some() <==> is_email_value(email@),
            address matches Some(e) ==> e.spec_value() == email@,
    {
        if email.unicode_len() < MIN_EMAIL_LEN || !contains_char(email, '@') {
            None
        } else {
            let value = email.to_owned();
            assert(is_email_value(value@));
            Some(Self { value })
        }
    }
}

impl Clone for Email {
    fn clone(&self) -> (copy: Self)
        ensures
            copy == *self,
    {
        proof {
            use_type_invariant(self);
        }
        Self { value: self.value.clone() }
    }
}

impl ContactMethod for Email {
    closed spec fn spec_value(&self) -> Seq<char> {
        self.value@
    }

    open spec fn spec_dispatch(&self, msg: Seq<char>) -> Seq<char> {
        dispatch_line(self.spec_value(), msg)
    }

    /// Get an immutable ref to the value of the address, which always passes
    /// the format check.
    fn value(&self) -> (v: &str)
        ensures
            is_email_value(v@),
    {
        proof {
            use_type_invariant(self);
        }
        self.value.as_str()
    }

    /// Prepare an email to this address.
    fn send_message(&self, msg: &str) -> (dispatch: String) {
        let mut line = self.value.clone();
        line.append(" <-- ");
        line.append(msg);
        line
    }
}

} // verus!
