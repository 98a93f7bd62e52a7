use crate::collision::groups;
use crate::parameters::THROW_COOLDOWN_MILLIS;
use crate::physics::{CollisionGroups, RigidBody};
use crate::timer::{Timer, NANOS_PER_MILLI};
use vstd::prelude::*;

pub mod knocked_out;
pub mod player_ball;

pub use self::knocked_out::{DespawnTimer, KnockedOut, KnockedOutStep};
pub use self::player_ball::PlayerBall;

verus! {

/// Marks a player on the field.
#[derive(Clone, Copy, Debug, PartialEq, Eq, Structural)]
pub struct Player;

/// Counts the time until a player that has taken a ball may throw it.
#[derive(Clone, Copy, Debug, PartialEq, Eq, Structural)]
pub struct ThrowCooldown {
    pub timer: Timer,
}

impl ThrowCooldown {
    pub fn new() -> (cooldown: Self)
        ensures
            cooldown.timer.duration == THROW_COOLDOWN_MILLIS * NANOS_PER_MILLI,
            cooldown.timer.elapsed == 0,
    {
        ThrowCooldown { timer: Timer::from_millis(THROW_COOLDOWN_MILLIS) }
    }
}

/// What a carrier knows of the enemy that its squad aims at.
#[derive(Clone, Copy, Debug, PartialEq, Eq, Structural)]
pub enum ThrowTarget {
    /// The squad has no enemy to aim at.
    Absent,
    /// The enemy is farther away than the squad throws.
    OutOfRange,
    /// The enemy is within the squad's throw distance.
    InRange,
}

/// What a player does about throwing in one tick.
#[derive(Clone, Copy, Debug, PartialEq, Eq, Structural)]
pub enum ThrowStep {
    /// It carries no ball.
    EmptyHanded,
    /// It waits for its cooldown, which has been ticked.
    CoolingDown,
    /// It is ready, but there is nobody to throw at.
    NoTarget,
    /// It is ready, but the enemy is too far away.
    TooFar,
    /// It throws: the host takes the carried ball away and spawns one in flight.
    Throw,
}

impl Player {
    /// The groups of a player in play: queries find it, and balls in flight
    /// and on the ground touch it.
    pub open spec fn in_play_groups_spec() -> CollisionGroups {
        CollisionGroups {
            memberships: groups::PLAYER,
            filters: groups::QUERY | groups::THROWN_BALL | groups::GROUND_BALL,
        }
    }

    /// The groups of a knocked-out player: balls in flight and the boundaries
    /// touch it, queries and balls on the ground do not.
    pub open spec fn out_of_play_groups_spec() -> CollisionGroups {
        CollisionGroups {
            memberships: groups::PLAYER,
            filters: groups::THROWN_BALL | groups::BOUNDARIES,
        }
    }

    /// What a player does about throwing, by whether it carries a ball,
    /// whether its cooldown is over, and what it knows of the enemy.
    pub open spec fn throw_step(holding_ball: bool, ready: bool, target: ThrowTarget) -> ThrowStep {
        if !holding_ball {
            ThrowStep::EmptyHanded
        } else if !ready {
            ThrowStep::CoolingDown
        } else {
            match target {
                ThrowTarget::Absent => ThrowStep::NoTarget,
                ThrowTarget::OutOfRange => ThrowStep::TooFar,
                ThrowTarget::InRange => ThrowStep::Throw,
            }
        }
    }

    pub fn in_play_groups() -> (g: CollisionGroups)
        ensures
            g == Player::in_play_groups_spec(),
    {
        CollisionGroups::new(
            groups::PLAYER,
            groups::QUERY | groups::THROWN_BALL | groups::GROUND_BALL,
        )
    }

    pub fn out_of_play_groups() -> (g: CollisionGroups)
        ensures
            g == Player::out_of_play_groups_spec(),
    {
        CollisionGroups::new(groups::PLAYER, groups::THROWN_BALL | groups::BOUNDARIES)
    }

    /// Takes a player out of play: the physics moves its body from now on,
    /// and it gets the groups of a knocked-out player.
    pub fn knock_out(body: &mut RigidBody, groups: &mut CollisionGroups)
        ensures
            *final(body) == RigidBody::Dynamic,
            *final(groups) == Player::out_of_play_groups_spec(),
    {
        *body = RigidBody::Dynamic;
        *groups = Player::out_of_play_groups();
    }

    /// One tick of `delta` nanoseconds for a player that may want to throw.
    /// A carrier whose cooldown still runs ticks it and waits. A carrier
    /// whose cooldown was over before this tick throws if the enemy is in
    /// range, and then carries nothing. Nothing else changes.
    pub fn throw_ball_at_enemy(
        ball: &mut PlayerBall,
        throw_cooldown: &mut ThrowCooldown,
        delta: u64,
        target: ThrowTarget,
    ) -> (step: ThrowStep)
        ensures
            step == Player::throw_step(
                old(ball).holding_ball,
                old(throw_cooldown).timer.is_finished(),
                target,
            ),
            *final(ball) == if step is Throw {
                PlayerBall { holding_ball: false, ..*old(ball) }
            } else {
                *old(ball)
            },
            final(throw_cooldown).timer == if step is CoolingDown {
                old(throw_cooldown).timer.ticked(delta)
            } else {
                old(throw_cooldown).timer
            },
    {
        if !ball.holding_ball {
            return ThrowStep::EmptyHanded;
        }
        if !throw_cooldown.timer.finished() {
            throw_cooldown.timer.tick(delta);
            return ThrowStep::CoolingDown;
        }
        match target {
            ThrowTarget::Absent => ThrowStep::NoTarget,
            ThrowTarget::OutOfRange => ThrowStep::TooFar,
            ThrowTarget::InRange => {
                ball.holding_ball = false;
                ThrowStep::Throw
            },
        }
    }
}

/// A knocked-out player is out of the reach of queries and of balls on the
/// ground, so nobody targets it and it picks nothing up; balls in flight
/// still hit it.
pub proof fn knocked_out_players_leave_play()
    ensures
        !Player::out_of_play_groups_spec().interacts(crate::ball::Ball::ground_groups_spec()),
        Player::out_of_play_groups_spec().interacts(crate::ball::Ball::thrown_groups_spec()),
        Player::in_play_groups_spec().interacts(crate::ball::Ball::ground_groups_spec()),
        Player::in_play_groups_spec().interacts(crate::ball::Ball::thrown_groups_spec()),
{
    assert(4u32 & (8u32 | 16u32) == 0) by (bit_vector);
    assert(2u32 & (2u32 | 16u32 | 8u32) != 0) by (bit_vector);
    assert(8u32 & (8u32 | 16u32) != 0) by (bit_vector);
    assert(2u32 & (1u32 | 2u32 | 16u32 | 4u32) != 0) by (bit_vector);
    assert(4u32 & (1u32 | 8u32 | 4u32) != 0) by (bit_vector);
    assert(8u32 & (1u32 | 8u32 | 4u32) != 0) by (bit_vector);
}

} // verus!
