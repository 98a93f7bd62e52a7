use crate::parameters::DESPAWN_SECONDS;
use crate::player::player_ball::PlayerBall;
use crate::timer::{Timer, NANOS_PER_SECOND};
use vstd::prelude::*;

verus! {

/// Marks a player that a dangerous ball has hit.
#[derive(Clone, Copy, Debug, PartialEq, Eq, Structural)]
pub struct KnockedOut;

/// Counts the time that a knocked-out player has left on the field.
#[derive(Clone, Copy, Debug, PartialEq, Eq, Structural)]
pub struct DespawnTimer {
    pub timer: Timer,
}

/// What the host does for a knocked-out player after a tick.
#[derive(Clone, Copy, Debug, PartialEq, Eq, Structural)]
pub struct KnockedOutStep {
    /// The player carried a ball: put one on the ground where the player
    /// lies and take the carried one away.
    pub drop_ball: bool,
    /// The player's time is up: take it off the field.
    pub despawn: bool,
}

impl DespawnTimer {
    pub fn new() -> (timer: Self)
        ensures
            timer.timer.duration == DESPAWN_SECONDS * NANOS_PER_SECOND,
            timer.timer.elapsed == 0,
    {
        DespawnTimer { timer: Timer::from_secs(DESPAWN_SECONDS) }
    }
}

impl KnockedOut {
    /// One tick of `delta` nanoseconds in the life of a knocked-out player:
    /// it lets go of the ball it carries, and once its timer has run out it
    /// leaves the field.
    pub fn update(ball: &mut PlayerBall, timer: &mut DespawnTimer, delta: u64) -> (step: KnockedOutStep)
        ensures
            *final(ball) == (PlayerBall { holding_ball: false, ..*old(ball) }),
            final(timer).timer == old(timer).timer.ticked(delta),
            step.drop_ball == old(ball).holding_ball,
            step.despawn == final(timer).timer.is_finished(),
    {
        let drop_ball = ball.holding_ball;
        ball.holding_ball = false;
        timer.timer.tick(delta);
        KnockedOutStep { drop_ball, despawn: timer.timer.finished() }
    }
}

} // verus!
