use vstd::prelude::*;
use crate::grounding::{CollidedGrounds, GroundedBody};

verus! {

/// Gravity scale of a grounded body: gravity is switched off.
pub const GROUNDED_GRAVITY_SCALE: u32 = 0;

/// Gravity scale of an airborne body: well above the default, for a quick,
/// heavy fall.
pub const AIRBORNE_GRAVITY_SCALE: u32 = 30;

/// The gravity scale of a body that touches the ground entities in `contacts`.
pub fn gravity_scale(contacts: &CollidedGrounds) -> (r: u32)
    ensures
        contacts@.len() > 0 ==> r == GROUNDED_GRAVITY_SCALE,
        contacts@.len() == 0 ==> r == AIRBORNE_GRAVITY_SCALE,
{
    if contacts.is_grounded() {
        GROUNDED_GRAVITY_SCALE
    } else {
        AIRBORNE_GRAVITY_SCALE
    }
}

/// The gravity scale of every body, in the order given.
pub fn gravity_control(bodies: &Vec<GroundedBody>) -> (r: Vec<u32>)
    ensures
        r@.len() == bodies@.len(),
        forall|j: int|
            0 <= j < bodies@.len() ==> #[trigger] r@[j] == if bodies@[j].contacts@.len() > 0 {
                GROUNDED_GRAVITY_SCALE
            } else {
                AIRBORNE_GRAVITY_SCALE
            },
{
    let mut r: Vec<u32> = Vec::new();
    let mut j: usize = 0;
    while j < bodies.len()
        invariant
            j <= bodies@.len(),
            r@.len() == j,
            forall|k: int|
                0 <= k < j ==> #[trigger] r@[k] == if bodies@[k].contacts@.len() > 0 {
                    GROUNDED_GRAVITY_SCALE
                } else {
                    AIRBORNE_GRAVITY_SCALE
                },
        decreases bodies@.len() - j,
    {
        r.push(gravity_scale(&bodies[j].contacts));
        j = j + 1;
    }
    r
}

} // verus!
