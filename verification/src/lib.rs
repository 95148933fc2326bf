//! Secret Santa: turns an ordered list of participants into a single gift-giving
//! cycle and prepares the message each participant receives.

pub mod algorithm;
pub mod contact;
pub mod gift;
pub mod pairing;
pub mod person;
pub mod santa;
