//! Confirming a subscription by the token of the confirmation link.
//!
//! The handler looks the token up, and marks the subscriber confirmed if the
//! token names one. What it answers is decided here.

use vstd::prelude::*;
use crate::ids::SubscriberId;

verus! {

/// The query of a confirmation link.
#[derive(Clone, Debug, PartialEq, Eq)]
pub struct Parameters {
    pub subscription_token: String,
}

/// Status of the answer to a confirmation that went through.
pub const STATUS_OK: u16 = 200;

/// Status of the answer to a token that names no subscriber.
pub const STATUS_UNAUTHORIZED: u16 = 401;

/// Status of the answer where the database failed.
pub const STATUS_INTERNAL_SERVER_ERROR: u16 = 500;

/// What the lookup of a token gave.
#[derive(Clone, Copy, Debug, PartialEq, Eq)]
pub enum TokenLookup {
    /// The database failed.
    Failed,
    /// The token names no subscriber.
    Unknown,
    /// The token names this subscriber.
    Found(SubscriberId),
}

/// What the handler does after the lookup of the token.
#[derive(Clone, Copy, Debug, PartialEq, Eq)]
pub enum ConfirmStep {
    /// Answer with this status.
    Respond(u16),
    /// Mark this subscriber confirmed, then go on with `after_confirmation`.
    MarkConfirmed(SubscriberId),
}

/// Decides on the outcome of the lookup: a failure of the database is a
/// server error, an unknown token is not authorised, a subscriber is to be
/// marked confirmed.
pub fn after_token_lookup(lookup: TokenLookup) -> (step: ConfirmStep)
    ensures
        step == match lookup {
            TokenLookup::Failed => ConfirmStep::Respond(STATUS_INTERNAL_SERVER_ERROR),
            TokenLookup::Unknown => ConfirmStep::Respond(STATUS_UNAUTHORIZED),
            TokenLookup::Found(id) => ConfirmStep::MarkConfirmed(id),
        },
{
    match lookup {
        TokenLookup::Failed => ConfirmStep::Respond(STATUS_INTERNAL_SERVER_ERROR),
        TokenLookup::Unknown => ConfirmStep::Respond(STATUS_UNAUTHORIZED),
        TokenLookup::Found(id) => ConfirmStep::MarkConfirmed(id),
    }
}

/// The status of the answer once the database was told to mark the subscriber
/// confirmed: OK if it did, a server error if it failed.
pub fn after_confirmation(stored: bool) -> (status: u16)
    ensures
        status == if stored {
            STATUS_OK
        } else {
            STATUS_INTERNAL_SERVER_ERROR
        },
{
    if stored {
        STATUS_OK
    } else {
        STATUS_INTERNAL_SERVER_ERROR
    }
}

} // verus!
