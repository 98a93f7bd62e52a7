use vstd::prelude::*;

verus! {

/// The host's handle of a simulated object, as the number it stands for.
#[derive(Clone, Copy, Debug, PartialEq, Eq, Hash, Structural)]
pub struct Entity(pub u64);

/// How the host's physics moves a body.
#[derive(Clone, Copy, Debug, PartialEq, Eq, Structural)]
pub enum RigidBody {
    /// Moved by forces and contacts.
    Dynamic,
    /// Never moves.
    Fixed,
    /// Moved by setting its position.
    KinematicPositionBased,
    /// Moved by setting its velocity.
    KinematicVelocityBased,
}

/// The groups a collider belongs to and the groups it may touch, as bit sets.
#[derive(Clone, Copy, Debug, PartialEq, Eq, Structural)]
pub struct CollisionGroups {
    pub memberships: u32,
    pub filters: u32,
}

impl CollisionGroups {
    /// Whether the host lets a collider with these groups touch one with
    /// `other`: each must belong to a group that the other accepts.
    pub open spec fn interacts(self, other: CollisionGroups) -> bool {
        (self.memberships & other.filters) != 0 && (other.memberships & self.filters) != 0
    }

    pub fn new(memberships: u32, filters: u32) -> (groups: Self)
        ensures
            groups.memberships == memberships,
            groups.filters == filters,
    {
        CollisionGroups { memberships, filters }
    }

    pub fn interacts_with(&self, other: &CollisionGroups) -> (touch: bool)
        ensures
            touch == self.interacts(*other),
    {
        (self.memberships & other.filters) != 0 && (other.memberships & self.filters) != 0
    }
}

/// A contact that the host's physics reports, between two objects in no
/// particular order.
#[derive(Clone, Copy, Debug, PartialEq, Eq, Structural)]
pub enum CollisionEvent {
    Started(Entity, Entity),
    Stopped(Entity, Entity),
}

} // verus!
