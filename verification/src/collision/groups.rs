use vstd::prelude::*;

verus! {

/// No group at all.
pub const NONE: u32 = 0;

/// Shapes cast by spatial queries.
pub const QUERY: u32 = 1;

/// Players, in play or knocked out.
pub const PLAYER: u32 = 2;

/// Balls at rest that can be picked up.
pub const GROUND_BALL: u32 = 4;

/// Balls in flight.
pub const THROWN_BALL: u32 = 8;

/// Floor and walls.
pub const BOUNDARIES: u32 = 16;

} // verus!
