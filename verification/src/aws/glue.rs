//! The decisions of the client of the metadata catalog.

use crate::text::{chars_of, contains_text, occurs_in};
use vstd::prelude::*;

verus! {

/// Whether the description of a failed request says that the table asked
/// for does not exist, which is no failure: the table is reported as
/// absent.
pub fn is_missing_entity(failure: &str) -> (missing: bool)
    ensures
        missing == occurs_in("EntityNotFoundException"@, failure@),
{
    contains_text(&chars_of(failure), &chars_of("EntityNotFoundException"))
}

} // verus!
