//! What the library takes from its surroundings: the time and fresh
//! identifiers. Nothing is promised of either value; the functions
//! that use them state what holds for every value.

use vstd::prelude::*;

verus! {

/// Calls `chrono::Utc::now` and `DateTime::timestamp`: the seconds since
/// the start of 1970 by the system clock. Nothing is claimed of the number.
/// `Utc::now` panics where the system clock reads a time before 1970.
#[verifier::external_body]
pub(crate) fn now_timestamp() -> i64 {
    chrono::Utc::now().timestamp()
}

/// Calls `uuid::Uuid::new_v4` and writes the identifier as text. Nothing is
/// claimed of the text, not even that it differs from call to call.
/// `new_v4` panics where the system gives no random bytes.
#[verifier::external_body]
pub(crate) fn fresh_id() -> String {
    uuid::Uuid::new_v4().to_string()
}

} // verus!
