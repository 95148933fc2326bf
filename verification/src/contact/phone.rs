use vstd::prelude::*;
use vstd::string::*;

use super::{dispatch_line, ContactMethod};

verus! {

/// The shortest raw input accepted as a phone number, in characters.
pub const MIN_PHONE_LEN: usize = 6;

/// The stored form of a raw number: a leading `+` is added when missing.
pub open spec fn normalized(raw: Seq<char>) -> Seq<char> {
    if raw.len() > 0 && raw[0] == '+' {
        raw
    } else {
        seq!['+'] + raw
    }
}

/// What every stored phone number satisfies.
pub open spec fn is_phone_value(value: Seq<char>) -> bool {
    value.len() >= MIN_PHONE_LEN && value[0] == '+'
}

#[derive(Debug, PartialEq)]
pub struct PhoneNumber {
    value: String,
}

impl PhoneNumber {
    #[verifier::type_invariant]
    spec fn well_formed(&self) -> bool {
        is_phone_value(self.value@)
    }

    /// Create a new PhoneNumber from the given input
    pub fn new(telno: &str) -> (phone: Option<Self>)
        ensures
            phone.is_some() <==> telno@.len() >= MIN_PHONE_LEN,
            phone matches Some(p) ==> p.spec_value() == normalized(telno@),
    {
        if telno.unicode_len() < MIN_PHONE_LEN {
            None
        } else {
            // Add a leading + if none given
            let number = if telno.get_char(0) == '+' {
                telno.to_owned()
            } else {
                String::from_str("+").concat(telno)
            };
            proof {
                reveal_strlit("+");
                assert("+"@ =~= seq!['+']);
                assert(number@ == normalized(telno@));
                assert(number@.len() >= MIN_PHONE_LEN);
                assert(number@[0] == '+');
            }
            Some(Self { value: number })
        }
    }
}

impl Clone for PhoneNumber {
    fn clone(&self) -> (copy: Self)
        ensures
            copy == *self,
    {
        proof {
            use_type_invariant(self);
        }
        Self { value: self.value.clone() }
    }
}

impl ContactMethod for PhoneNumber {
    closed spec fn spec_value(&self) -> Seq<char> {
        self.value@
    }

    open spec fn spec_dispatch(&self, msg: Seq<char>) -> Seq<char> {
        dispatch_line(self.spec_value(), msg)
    }

    /// Get an immutable ref to the value of the telno, which is always in
    /// normalized form.
    fn value(&self) -> (v: &str)
        ensures
            is_phone_value(v@),
    {
        proof {
            use_type_invariant(self);
        }
        self.value.as_str()
    }

    /// Prepare a text message to this number.
    fn send_message(&self, msg: &str) -> (dispatch: String) {
        let mut line = self.value.clone();
        line.append(" <-- ");
        line.append(msg);
        line
    }
}

} // verus!
