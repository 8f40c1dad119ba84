use vstd::prelude::*;

verus! {

/// The directional actions a player can hold.
#[derive(Clone, Copy, Debug, PartialEq, Eq, Structural)]
pub enum Action {
    Left,
    Right,
    Up,
    Down,
}

/// One flag per directional action: held this frame, or released this frame.
#[derive(Clone, Copy, Debug, PartialEq, Eq, Structural)]
pub struct ActionFlags {
    pub left: bool,
    pub right: bool,
    pub up: bool,
    pub down: bool,
}

impl ActionFlags {
    /// No action set.
    pub fn none() -> (r: ActionFlags)
        ensures
            !r.left && !r.right && !r.up && !r.down,
    {
        ActionFlags { left: false, right: false, up: false, down: false }
    }

    /// The flag of `action`.
    pub open spec fn get(self, action: Action) -> bool {
        match action {
            Action::Left => self.left,
            Action::Right => self.right,
            Action::Up => self.up,
            Action::Down => self.down,
        }
    }

    /// These flags with the one of `action` set.
    pub fn with(self, action: Action) -> (r: ActionFlags)
        ensures
            forall|a: Action| #[trigger] r.get(a) == (self.get(a) || a == action),
    {
        match action {
            Action::Left => ActionFlags { left: true, ..self },
            Action::Right => ActionFlags { right: true, ..self },
            Action::Up => ActionFlags { up: true, ..self },
            Action::Down => ActionFlags { down: true, ..self },
        }
    }
}

/// An intended movement direction, as whole multiples of the camera-relative
/// horizontal `forward` and `right` unit vectors; the host turns it into a
/// vector, normalises it (zero stays zero) and scales it by the move speed.
#[derive(Clone, Copy, Debug, PartialEq, Eq, Structural)]
pub struct MoveAxes {
    pub forward: i8,
    pub right: i8,
}

/// How a body's velocity follows the player's input.
#[derive(Clone, Copy, Debug, PartialEq, Eq, Structural)]
pub enum MovementPolicy {
    /// The velocity is set to the intended vector every frame.
    DirectVelocity,
    /// A corrective force pulls the velocity towards the intended vector.
    ForceBased,
}

/// One for a set flag, zero otherwise.
pub open spec fn unit(b: bool) -> int {
    if b {
        1
    } else {
        0
    }
}

fn unit_of(b: bool) -> (r: i8)
    ensures
        r == unit(b),
{
    if b {
        1
    } else {
        0
    }
}

/// The axes built from held actions alone: Up adds forward, Down takes it
/// away, Right adds right, Left takes it away.
pub fn held_axes(held: ActionFlags) -> (r: MoveAxes)
    ensures
        r.forward == unit(held.up) - unit(held.down),
        r.right == unit(held.right) - unit(held.left),
{
    MoveAxes {
        forward: unit_of(held.up) - unit_of(held.down),
        right: unit_of(held.right) - unit_of(held.left),
    }
}

/// The axes for force-based movement: the held contributions, with the
/// contribution of each action released this frame taken back.
pub fn snappy_axes(held: ActionFlags, released: ActionFlags) -> (r: MoveAxes)
    ensures
        r.forward == unit(held.up) - unit(held.down) - unit(released.up) + unit(released.down),
        r.right == unit(held.right) - unit(held.left) - unit(released.right) + unit(
            released.left,
        ),
{
    let h = held_axes(held);
    let back = held_axes(released);
    MoveAxes { forward: h.forward - back.forward, right: h.right - back.right }
}

impl MovementPolicy {
    /// The input policy that goes with this movement policy: direct velocity
    /// takes the held actions alone, force-based movement also takes back
    /// what was released.
    pub fn axes(&self, held: ActionFlags, released: ActionFlags) -> (r: MoveAxes)
        ensures
            *self == MovementPolicy::DirectVelocity ==> r.forward == unit(held.up) - unit(held.down)
                && r.right == unit(held.right) - unit(held.left),
            *self == MovementPolicy::ForceBased ==> r.forward == unit(held.up) - unit(held.down)
                - unit(released.up) + unit(released.down) && r.right == unit(held.right) - unit(
                held.left,
            ) - unit(released.right) + unit(released.left),
    {
        match self {
            MovementPolicy::DirectVelocity => held_axes(held),
            MovementPolicy::ForceBased => snappy_axes(held, released),
        }
    }
}

} // verus!
