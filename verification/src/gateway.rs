//! What the delivery workers expect of the email gateway.
//!
//! The gateway sends one email, given the recipient's address, a subject and
//! the two bodies. It answers with success or with one of the two failures
//! below; a call that runs into its timeout counts as a transient failure.

use vstd::prelude::*;

verus! {

/// Why the gateway did not send an email.
#[derive(Clone, Copy, Debug, PartialEq, Eq, Structural)]
pub enum SendError {
    /// The attempt may succeed if repeated (the network, a 5xx answer, a timeout).
    Transient,
    /// No attempt will succeed (the address is invalid).
    Permanent,
}

} // verus!
