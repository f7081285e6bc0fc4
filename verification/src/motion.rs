//! Pointer velocity, and the orientation of the vertical axis.
//!
//! A client reports motion with the vertical axis pointing up; the device
//! counts it downwards. Horizontal motion is taken over as it is, vertical
//! motion is reflected.

use vstd::prelude::*;

verus! {

/// The motion applied to the pointer on every tick, in device units.
#[derive(Clone, Copy, Debug, PartialEq, Eq, Structural)]
pub struct Velocity {
    pub x: i32,
    pub y: i32,
}

/// One motion component seen from the other orientation: the sign is
/// flipped. Components arrive clamped to the range of `i32`; so that a
/// clamped component stays clamped, the two ends of the range are exchanged.
pub open spec fn reflect(v: i32) -> i32 {
    if v == i32::MIN {
        i32::MAX
    } else if v == i32::MAX {
        i32::MIN
    } else {
        (-v) as i32
    }
}

/// The device velocity for a motion `(dx, dy)` reported by a client.
pub open spec fn device_velocity(dx: i32, dy: i32) -> Velocity {
    Velocity { x: dx, y: reflect(dy) }
}

/// Away from the two ends of the range, reflection is negation.
pub proof fn lemma_reflect_negates(v: i32)
    requires
        i32::MIN < v < i32::MAX,
    ensures
        reflect(v) == -v,
{
}

impl Velocity {
    /// The pointer at rest.
    pub fn rest() -> (v: Velocity)
        ensures
            v == (Velocity { x: 0, y: 0 }),
    {
        Velocity { x: 0, y: 0 }
    }

    /// The device velocity for a motion `(dx, dy)` reported by a client.
    pub fn from_motion(dx: i32, dy: i32) -> (v: Velocity)
        ensures
            v == device_velocity(dx, dy),
    {
        let y: i32 = if dy == i32::MIN {
            i32::MAX
        } else if dy == i32::MAX {
            i32::MIN
        } else {
            -dy
        };
        Velocity { x: dx, y }
    }
}

} // verus!
