//! Actions on world objects that the player starts from the interface.

use vstd::prelude::*;

verus! {

/// What the player is doing with the selected object.
#[derive(Debug, Clone, Copy, PartialEq, Eq, Structural)]
pub enum ObjectActionMode {
    Place,
}

} // verus!
