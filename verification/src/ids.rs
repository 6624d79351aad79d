//! Fresh identifiers for events and batches.

use vstd::prelude::*;

verus! {

/// `uuid::Uuid::new_v4`, written out as a string: a random identifier.
/// Nothing is promised of the text, and two calls give different results.
#[verifier::external_body]
pub(crate) fn fresh_id() -> String {
    uuid::Uuid::new_v4().to_string()
}

} // verus!
