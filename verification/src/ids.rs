//! Identities of the records that the pipeline handles.

use vstd::prelude::*;

verus! {

/// Identity of an issue: its position in the order of publication.
pub type IssueId = u64;

/// Identity of a subscriber, as the subscriber directory assigns it.
pub type SubscriberId = u128;

/// Identity of the authenticated user who publishes.
pub type UserId = u128;

} // verus!
