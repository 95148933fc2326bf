use vstd::prelude::*;

pub mod email;
pub mod phone;

verus! {

/// A channel through which a participant can be reached.
pub trait ContactMethod {
    /// The address on this channel, as text.
    spec fn spec_value(&self) -> Seq<char>;

    /// What this channel hands to its transport when asked to deliver `msg`.
    spec fn spec_dispatch(&self, msg: Seq<char>) -> Seq<char>;

    /// Get an immutable str ref to the value of the ContactMethod
    fn value(&self) -> (v: &str)
        ensures
            v@ == self.spec_value(),
    ;

    /// Prepare the delivery of `msg`: the returned text is what the transport
    /// must carry. Sending it is left to the caller.
    fn send_message(&self, msg: &str) -> (dispatch: String)
        ensures
            dispatch@ == self.spec_dispatch(msg@),
    ;
}

/// The dispatch line shared by the built-in channels: the address, an arrow
/// pointing at it, and the message.
pub open spec fn dispatch_line(address: Seq<char>, msg: Seq<char>) -> Seq<char> {
    address + " <-- "@ + msg
}

} // verus!
