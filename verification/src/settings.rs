//! Defaults of the user's settings.

use vstd::prelude::*;

verus! {

/// The value a setting takes when the stored settings lack it: `true`.
pub fn default_true() -> (r: bool)
    ensures
        r,
{
    true
}

} // verus!
