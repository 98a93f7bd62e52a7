use crate::collision::groups;
use crate::physics::{CollisionGroups, RigidBody};
use crate::timer::Timer;
use vstd::prelude::*;

verus! {

/// How long a landed ball cools down before it counts as at rest, in
/// nanoseconds: a quarter of a second.
pub const BALL_COOLDOWN_NANOS: u64 = 250_000_000;

/// Where a ball is in its life.
#[derive(Clone, Copy, Debug, PartialEq, Eq, Structural)]
pub enum BallState {
    /// At rest: players can claim it and pick it up.
    OnGround,
    /// Carried by a player.
    Held,
    /// In flight, before it first touches the floor.
    Thrown,
    /// Landed a moment ago; it can be claimed and picked up like a ball at rest.
    Cooldown,
}

/// A ball and the claims that teams have laid on it.
#[derive(Clone, Copy, Debug, PartialEq, Eq, Structural)]
pub struct Ball {
    pub state: BallState,
    /// A hit knocks a player out.
    pub dangerous: bool,
    /// One bit for each team that has called the ball for itself.
    pub claims: u8,
    /// Counts the time since the ball landed.
    pub cooldown: Timer,
}

impl Default for Ball {
    /// A ball at rest that nobody has called.
    fn default() -> (ball: Self)
        ensures
            ball == Ball::at_rest(),
    {
        Ball {
            state: BallState::OnGround,
            dangerous: false,
            claims: 0,
            cooldown: Timer::new(BALL_COOLDOWN_NANOS),
        }
    }
}

impl Ball {
    /// A ball is dangerous exactly while it is thrown, carries claims only
    /// while it lies on the ground, and cools down for the fixed cooldown.
    pub open spec fn wf(self) -> bool {
        &&& self.dangerous <==> self.state is Thrown
        &&& self.claims != 0 ==> self.on_the_ground()
        &&& self.cooldown.wf()
        &&& self.cooldown.duration == BALL_COOLDOWN_NANOS
    }

    /// The ball that `default` makes.
    pub open spec fn at_rest() -> Ball {
        Ball {
            state: BallState::OnGround,
            dangerous: false,
            claims: 0,
            cooldown: Timer { duration: BALL_COOLDOWN_NANOS, elapsed: 0 },
        }
    }

    /// The ball that `spawn_thrown` makes.
    pub open spec fn in_flight() -> Ball {
        Ball {
            state: BallState::Thrown,
            dangerous: true,
            claims: 0,
            cooldown: Timer { duration: BALL_COOLDOWN_NANOS, elapsed: 0 },
        }
    }

    pub open spec fn on_the_ground(self) -> bool {
        self.state is OnGround || self.state is Cooldown
    }

    /// Whether any team of `mask` has called the ball.
    pub open spec fn claimed_by(self, mask: u8) -> bool {
        self.claims & mask != 0
    }

    /// Whether a claim by `mask` is taken: the ball lies on the ground, the
    /// mask names a team and none of its teams has called the ball yet.
    pub open spec fn claimable(self, mask: u8) -> bool {
        self.on_the_ground() && mask != 0 && self.claims & mask == 0
    }

    /// The ball after a claim by `mask`.
    pub open spec fn claimed(self, mask: u8) -> Ball {
        if self.claimable(mask) {
            Ball { claims: self.claims | mask, ..self }
        } else {
            self
        }
    }

    /// The ball after the teams of `mask` give up their claims.
    pub open spec fn claim_dropped(self, mask: u8) -> Ball {
        Ball { claims: self.claims & !mask, ..self }
    }

    /// The ball after a player tries to take it.
    pub open spec fn picked_up(self) -> Ball {
        if self.state is Held {
            self
        } else {
            Ball { state: BallState::Held, dangerous: false, claims: 0, ..self }
        }
    }

    /// The ball after it touches the floor: no longer dangerous, whatever
    /// state it is in. A thrown ball starts to cool down; a ball in any other
    /// state keeps its state, a held one too.
    pub open spec fn landed(self) -> Ball {
        if self.state is Thrown {
            Ball {
                state: BallState::Cooldown,
                dangerous: false,
                cooldown: self.cooldown.restarted(),
                ..self
            }
        } else {
            Ball { dangerous: false, ..self }
        }
    }

    /// The ball after `delta` nanoseconds have passed.
    pub open spec fn ticked(self, delta: u64) -> Ball {
        if self.state is Cooldown {
            let cooldown = self.cooldown.ticked(delta);
            Ball {
                state: if cooldown.is_finished() {
                    BallState::OnGround
                } else {
                    BallState::Cooldown
                },
                cooldown,
                ..self
            }
        } else {
            self
        }
    }

    /// The groups of a ball on the ground: queries find it, and it touches
    /// players, the boundaries and other balls on the ground.
    pub open spec fn ground_groups_spec() -> CollisionGroups {
        CollisionGroups {
            memberships: groups::GROUND_BALL,
            filters: groups::QUERY | groups::PLAYER | groups::BOUNDARIES | groups::GROUND_BALL,
        }
    }

    /// The groups of a ball in flight: it touches players, the boundaries and
    /// other balls in flight.
    pub open spec fn thrown_groups_spec() -> CollisionGroups {
        CollisionGroups {
            memberships: groups::THROWN_BALL,
            filters: groups::PLAYER | groups::BOUNDARIES | groups::THROWN_BALL,
        }
    }

    /// A ball that has just left a thrower's hand.
    pub fn spawn_thrown() -> (ball: Self)
        ensures
            ball == Ball::in_flight(),
    {
        Ball {
            state: BallState::Thrown,
            dangerous: true,
            claims: 0,
            cooldown: Timer::new(BALL_COOLDOWN_NANOS),
        }
    }

    pub fn is_held(&self) -> (held: bool)
        ensures
            held == (self.state is Held),
    {
        match self.state {
            BallState::Held => true,
            _ => false,
        }
    }

    pub fn is_dangerous(&self) -> (dangerous: bool)
        ensures
            dangerous == self.dangerous,
    {
        self.dangerous
    }

    pub fn is_claimed(&self, mask: u8) -> (claimed: bool)
        ensures
            claimed == self.claimed_by(mask),
    {
        self.claims & mask != 0
    }

    /// Lays the claim of `mask` on the ball and says whether it was newly
    /// laid. A ball that is not on the ground, or that one of the teams of
    /// `mask` has called already, stays as it is.
    pub fn claim(&mut self, mask: u8) -> (newly: bool)
        ensures
            newly == old(self).claimable(mask),
            *final(self) == old(self).claimed(mask),
    {
        let on_the_ground = match self.state {
            BallState::OnGround => true,
            BallState::Cooldown => true,
            _ => false,
        };
        if on_the_ground && mask != 0 && self.claims & mask == 0 {
            self.claims = self.claims | mask;
            true
        } else {
            false
        }
    }

    /// Takes the claims of the teams of `mask` off the ball, and no others.
    pub fn drop_claim(&mut self, mask: u8)
        ensures
            *final(self) == old(self).claim_dropped(mask),
    {
        self.claims = self.claims & !mask;
    }

    /// Hands the ball to a player, unless a player holds it already. A ball
    /// that is taken loses its claims and its danger, is moved by its holder
    /// and accepts no group, so that it touches nothing. Says whether it was
    /// taken.
    pub fn pick_up(&mut self, body: &mut RigidBody, groups: &mut CollisionGroups) -> (taken: bool)
        ensures
            taken == !(old(self).state is Held),
            *final(self) == old(self).picked_up(),
            *final(body) == if taken {
                RigidBody::KinematicPositionBased
            } else {
                *old(body)
            },
            *final(groups) == if taken {
                CollisionGroups { memberships: old(groups).memberships, filters: groups::NONE }
            } else {
                *old(groups)
            },
    {
        if self.is_held() {
            return false;
        }
        self.state = BallState::Held;
        self.dangerous = false;
        self.claims = 0;
        *body = RigidBody::KinematicPositionBased;
        groups.filters = groups::NONE;
        true
    }

    /// Lands the ball, in whatever state it is and however far its cooldown
    /// has run: it is no longer dangerous and touches again what a ball at
    /// rest touches. A thrown ball starts to cool down; a held ball stays
    /// held.
    pub fn on_touch_ground(&mut self, groups: &mut CollisionGroups)
        ensures
            *final(self) == old(self).landed(),
            *final(groups) == Ball::ground_groups_spec(),
            !final(self).dangerous,
            final(self).state is Held <==> old(self).state is Held,
    {
        match self.state {
            BallState::Thrown => {
                self.state = BallState::Cooldown;
                self.cooldown.reset();
            },
            _ => {},
        }
        self.dangerous = false;
        *groups = Ball::ground_groups();
    }

    /// Lets `delta` nanoseconds pass. Says whether the ball's cooldown ended
    /// in them, so that it now counts as at rest.
    pub fn tick(&mut self, delta: u64) -> (rested: bool)
        ensures
            *final(self) == old(self).ticked(delta),
            rested == (old(self).state is Cooldown && final(self).state is OnGround),
    {
        match self.state {
            BallState::Cooldown => {
                self.cooldown.tick(delta);
                if self.cooldown.finished() {
                    self.state = BallState::OnGround;
                    true
                } else {
                    false
                }
            },
            _ => false,
        }
    }

    pub fn ground_groups() -> (g: CollisionGroups)
        ensures
            g == Ball::ground_groups_spec(),
    {
        CollisionGroups::new(
            groups::GROUND_BALL,
            groups::QUERY | groups::PLAYER | groups::BOUNDARIES | groups::GROUND_BALL,
        )
    }

    pub fn thrown_groups() -> (g: CollisionGroups)
        ensures
            g == Ball::thrown_groups_spec(),
    {
        CollisionGroups::new(
            groups::THROWN_BALL,
            groups::PLAYER | groups::BOUNDARIES | groups::THROWN_BALL,
        )
    }
}

/// A ball as it is spawned, with what the host's physics needs to know of it.
#[derive(Clone, Copy, Debug, PartialEq, Eq, Structural)]
pub struct BallBundle {
    pub ball: Ball,
    pub body: RigidBody,
    pub groups: CollisionGroups,
    /// Whether the physics watches the ball's whole path for contacts, so
    /// that a fast ball cannot skip over what it should hit.
    pub ccd: bool,
}

impl BallBundle {
    /// A ball at rest: moved only by being placed, with the groups of a ball
    /// on the ground.
    pub fn new_on_ground() -> (bundle: Self)
        ensures
            bundle == (BallBundle {
                ball: Ball::at_rest(),
                body: RigidBody::KinematicPositionBased,
                groups: Ball::ground_groups_spec(),
                ccd: false,
            }),
    {
        BallBundle {
            ball: Ball::default(),
            body: RigidBody::KinematicPositionBased,
            groups: Ball::ground_groups(),
            ccd: false,
        }
    }

    /// A ball in flight: dangerous, moved by the physics and watched along
    /// its whole path, with the groups of a thrown ball.
    pub fn new_thrown() -> (bundle: Self)
        ensures
            bundle == (BallBundle {
                ball: Ball::in_flight(),
                body: RigidBody::Dynamic,
                groups: Ball::thrown_groups_spec(),
                ccd: true,
            }),
    {
        BallBundle {
            ball: Ball::spawn_thrown(),
            body: RigidBody::Dynamic,
            groups: Ball::thrown_groups(),
            ccd: true,
        }
    }
}

/// New balls are well formed, and every step of a ball's life leaves it so:
/// dangerous only in flight, and without claims while a player holds it.
pub proof fn ball_stays_well_formed(ball: Ball, mask: u8, delta: u64)
    requires
        ball.wf(),
    ensures
        Ball::at_rest().wf(),
        Ball::in_flight().wf(),
        ball.claimed(mask).wf(),
        ball.claim_dropped(mask).wf(),
        ball.picked_up().wf(),
        ball.landed().wf(),
        ball.ticked(delta).wf(),
        ball.state is Held ==> ball.claims == 0,
{
    let claims = ball.claims;
    assert(mask != 0 ==> (claims | mask) != 0) by (bit_vector);
    assert(claims == 0 ==> (claims & !mask) == 0) by (bit_vector);
}

/// A claim on a ball that can take it sets every bit of the mask and leaves
/// the other bits alone; the same claim again is refused and changes nothing.
pub proof fn second_claim_is_refused(ball: Ball, mask: u8)
    requires
        ball.claimable(mask),
    ensures
        ball.claimed(mask).claims & mask == mask,
        ball.claimed(mask).claims & !mask == ball.claims,
        ball.claimed(mask).claimed_by(mask),
        !ball.claimed(mask).claimable(mask),
        ball.claimed(mask).claimed(mask) == ball.claimed(mask),
{
    let claims = ball.claims;
    assert((claims | mask) & mask == mask) by (bit_vector);
    assert(claims & mask == 0 ==> (claims | mask) & !mask == claims) by (bit_vector);
    assert(mask != 0 ==> (claims | mask) & mask != 0) by (bit_vector);
}

/// Dropping a claim clears the bits of its mask and no others, and changes
/// nothing else of the ball.
pub proof fn drop_claim_clears_only_its_bits(ball: Ball, mask: u8, other: u8)
    requires
        other & mask == 0,
    ensures
        ball.claim_dropped(mask).claims & mask == 0,
        !ball.claim_dropped(mask).claimed_by(mask),
        ball.claim_dropped(mask).claims & other == ball.claims & other,
        ball.claim_dropped(mask).claimed_by(other) == ball.claimed_by(other),
        ball.claim_dropped(mask) == (Ball { claims: ball.claim_dropped(mask).claims, ..ball }),
{
    let claims = ball.claims;
    assert((claims & !mask) & mask == 0) by (bit_vector);
    assert(other & mask == 0 ==> (claims & !mask) & other == claims & other) by (bit_vector);
}

/// Taking a ball that a player holds already does nothing: after one pick-up
/// the ball is held, and a second leaves it exactly as it is.
pub proof fn pick_up_is_idempotent(ball: Ball)
    ensures
        ball.picked_up().state is Held,
        ball.picked_up().picked_up() == ball.picked_up(),
{
}

/// A ball in flight and a ball on the ground never touch.
pub proof fn thrown_balls_pass_ground_balls()
    ensures
        !Ball::thrown_groups_spec().interacts(Ball::ground_groups_spec()),
        !Ball::ground_groups_spec().interacts(Ball::thrown_groups_spec()),
{
    assert(8u32 & (1u32 | 2u32 | 16u32 | 4u32) == 0) by (bit_vector);
}

/// A collider that accepts no group touches nothing, whatever it belongs to.
pub proof fn empty_filter_touches_nothing(memberships: u32, other: CollisionGroups)
    ensures
        !(CollisionGroups { memberships, filters: groups::NONE }).interacts(other),
        !other.interacts(CollisionGroups { memberships, filters: groups::NONE }),
{
    let m = other.memberships;
    assert(m & 0u32 == 0) by (bit_vector);
}

} // verus!
