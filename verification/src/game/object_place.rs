//! Placing objects in the world.

use vstd::prelude::*;

verus! {

/// What the player is doing with the object to place.
#[derive(Debug, Clone, Copy, PartialEq, Eq, Structural)]
pub enum ObjectActionMode {
    Place,
}

/// What a placement click sends to the server.
#[derive(Debug, Clone, Copy, PartialEq, Eq, Structural)]
pub enum PlacementSend {
    /// Buy the chosen object and place it.
    Purchase,
    /// Place the chosen object.
    Place,
}

/// What one frame of placement input leads to.
#[derive(Debug, Clone, Copy, PartialEq, Eq, Structural)]
pub struct PlacementStep {
    /// The message to send, if any.
    pub send: Option<PlacementSend>,
    /// Whether the chosen object is let go after sending.
    pub finish: bool,
}

/// The placement decision of one frame: an object is sent only where the
/// spot is free, the left button was pressed and an object is chosen; it
/// is bought where a purchase is under way and placed otherwise; outside
/// continuous placement, the choice ends with the send.
pub fn placement_step(
    collision: bool,
    left_pressed: bool,
    has_target: bool,
    purchasing: bool,
    continuous: bool,
) -> (r: PlacementStep)
    ensures
        r.send == (if !collision && left_pressed && has_target {
            Some(if purchasing { PlacementSend::Purchase } else { PlacementSend::Place })
        } else {
            None
        }),
        r.finish == (r.send is Some && !continuous),
{
    if collision || !left_pressed || !has_target {
        return PlacementStep { send: None, finish: false };
    }
    let send = if purchasing { PlacementSend::Purchase } else { PlacementSend::Place };
    PlacementStep { send: Some(send), finish: !continuous }
}

} // verus!
