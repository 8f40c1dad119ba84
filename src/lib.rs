//! Movement, grounding and sprite-animation core of a 3D platformer character.
//!
//! Everything here is integer and boolean logic: the frame-index state machine
//! that drives sprite animation, the grounded-set kept from collision events,
//! the gravity decision that follows from it, and the way held and released
//! directional actions combine into movement axes. The floating-point geometry
//! that turns these decisions into vectors lives with the host.
pub mod animation;
pub mod gravity;
pub mod grounding;
pub mod input;
