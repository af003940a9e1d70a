//! Random identifiers.

use vstd::prelude::*;

verus! {

/// A fresh random identifier: `uuid::Uuid::new_v4` in its hyphenated text
/// form, which is 36 characters long.
///
/// Only the length is stated: the value is random.
#[verifier::external_body]
pub(crate) fn new_uuid() -> (s: String)
    ensures
        s@.len() == 36,
{
    uuid::Uuid::new_v4().to_string()
}

} // verus!
