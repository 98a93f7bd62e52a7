use crate::ball::Ball;
use crate::physics::{CollisionGroups, Entity, RigidBody};
use crate::player::ThrowCooldown;
use vstd::prelude::*;

verus! {

/// What a player has to do with balls: the one it runs for, whether it has
/// called that one for its team, and whether it carries one.
#[derive(Clone, Copy, Debug, PartialEq, Eq, Structural)]
pub struct PlayerBall {
    pub target_ball: Option<Entity>,
    pub claimed_ball: bool,
    pub holding_ball: bool,
}

impl Default for PlayerBall {
    fn default() -> (ball: Self)
        ensures
            ball == (PlayerBall { target_ball: None, claimed_ball: false, holding_ball: false }),
    {
        PlayerBall { target_ball: None, claimed_ball: false, holding_ball: false }
    }
}

impl PlayerBall {
    /// The player after its try to take a ball in state `ball` that it stands
    /// `within_reach` of or not.
    pub open spec fn after_pick_up(self, ball: Ball, within_reach: bool) -> PlayerBall {
        if self.target_ball is Some && within_reach {
            PlayerBall {
                target_ball: None,
                claimed_ball: false,
                holding_ball: self.holding_ball || !(ball.state is Held),
            }
        } else {
            self
        }
    }

    /// Forgets the ball that the player ran for, and hands it back.
    pub fn take_target(&mut self) -> (target: Option<Entity>)
        ensures
            target == old(self).target_ball,
            *final(self) == (PlayerBall { target_ball: None, ..*old(self) }),
    {
        let target = self.target_ball;
        self.target_ball = None;
        target
    }

    /// Gives up the claim that the player laid on `ball` with `mask`, if it
    /// laid one.
    pub fn drop_claim(&mut self, ball: &mut Ball, mask: u8)
        ensures
            *final(self) == (PlayerBall { claimed_ball: false, ..*old(self) }),
            *final(ball) == if old(self).claimed_ball {
                old(ball).claim_dropped(mask)
            } else {
                *old(ball)
            },
    {
        if self.claimed_ball {
            ball.drop_claim(mask);
            self.claimed_ball = false;
        }
    }

    /// Sets the ball to run for: `nearest` for a player with empty hands,
    /// none for a player that carries a ball.
    pub fn choose_target_ball(&mut self, nearest: Option<Entity>)
        ensures
            *final(self) == (PlayerBall {
                target_ball: if old(self).holding_ball {
                    None
                } else {
                    nearest
                },
                ..*old(self)
            }),
    {
        if self.holding_ball {
            self.target_ball = None;
        } else {
            self.target_ball = nearest;
        }
    }

    /// Lets a player that has come near its target call it for its team.
    /// A player that has a claim already, or is not yet `near`, does
    /// nothing. Otherwise it lays the claim of `mask` on `ball`; where the
    /// ball does not take the claim, the player gives the target up, to look
    /// for another ball.
    pub fn claim_target(&mut self, ball: &mut Ball, mask: u8, near: bool)
        ensures
            *final(self) == if old(self).claimed_ball || !near {
                *old(self)
            } else if old(ball).claimable(mask) {
                PlayerBall { claimed_ball: true, ..*old(self) }
            } else {
                PlayerBall { target_ball: None, ..*old(self) }
            },
            *final(ball) == if old(self).claimed_ball || !near {
                *old(ball)
            } else {
                old(ball).claimed(mask)
            },
    {
        if !self.claimed_ball && near {
            if ball.claim(mask) {
                self.claimed_ball = true;
            } else {
                self.target_ball = None;
            }
        }
    }

    /// Lets a player that has reached its target take it. Within reach the
    /// player gives up target and claim; it gets the ball, and its throw
    /// cooldown starts again, unless another player holds the ball. Says
    /// whether the player took the ball.
    pub fn pick_up_ball(
        &mut self,
        throw_cooldown: &mut ThrowCooldown,
        ball: &mut Ball,
        body: &mut RigidBody,
        groups: &mut CollisionGroups,
        within_reach: bool,
    ) -> (taken: bool)
        ensures
            taken == (old(self).target_ball is Some && within_reach && !(old(ball).state is Held)),
            *final(self) == old(self).after_pick_up(*old(ball), within_reach),
            *final(ball) == if taken {
                old(ball).picked_up()
            } else {
                *old(ball)
            },
            *final(throw_cooldown) == if taken {
                ThrowCooldown { timer: old(throw_cooldown).timer.restarted() }
            } else {
                *old(throw_cooldown)
            },
            *final(body) == if taken {
                RigidBody::KinematicPositionBased
            } else {
                *old(body)
            },
            *final(groups) == if taken {
                CollisionGroups { memberships: old(groups).memberships, filters: 0 }
            } else {
                *old(groups)
            },
    {
        if self.target_ball.is_none() || !within_reach {
            return false;
        }
        let taken = ball.pick_up(body, groups);
        if taken {
            self.holding_ball = true;
            throw_cooldown.timer.reset();
        }
        self.claimed_ball = false;
        self.target_ball = None;
        taken
    }
}

} // verus!
