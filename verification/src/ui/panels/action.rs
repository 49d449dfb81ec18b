//! The action panel, which runs along the top or the bottom edge.

use vstd::prelude::*;

verus! {

/// The screen edge along which the action panel runs.
#[derive(Debug, Clone, Copy, PartialEq, Eq, Structural)]
pub enum ActionPanelPosition {
    Bottom,
    Top,
}

impl Default for ActionPanelPosition {
    fn default() -> (r: Self)
        ensures
            r == ActionPanelPosition::Bottom,
    {
        ActionPanelPosition::Bottom
    }
}

/// The other edge.
pub open spec fn opposite_edge(p: ActionPanelPosition) -> ActionPanelPosition {
    match p {
        ActionPanelPosition::Bottom => ActionPanelPosition::Top,
        ActionPanelPosition::Top => ActionPanelPosition::Bottom,
    }
}

impl ActionPanelPosition {
    /// The other edge, where the meta panel runs.
    pub fn opposite(&self) -> (r: Self)
        ensures
            r == opposite_edge(*self),
    {
        match self {
            ActionPanelPosition::Bottom => ActionPanelPosition::Top,
            ActionPanelPosition::Top => ActionPanelPosition::Bottom,
        }
    }
}

/// The opposite edge is never the edge itself, and the opposite of the
/// opposite is the edge again.
pub proof fn lemma_opposite_involution(p: ActionPanelPosition)
    ensures
        opposite_edge(p) != p,
        opposite_edge(opposite_edge(p)) == p,
{
}

} // verus!
