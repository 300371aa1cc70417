//! Deep copies with known contracts. Verus knows nothing about a derived
//! `Clone` on a non-`Copy` struct, so the row types copy themselves field
//! by field through these helpers, with equality guaranteed.

use vstd::prelude::*;

verus! {

/// Copy an optional string; the copy equals the original.
pub fn dup_opt_string(o: &Option<String>) -> (r: Option<String>)
    ensures
        r == *o,
{
    match o {
        Some(s) => Some(s.clone()),
        None => None,
    }
}

} // verus!
