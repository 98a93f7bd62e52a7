use crate::ball::{ball_stays_well_formed, Ball};
use crate::physics::{CollisionEvent, CollisionGroups, Entity, RigidBody};
use crate::player::{Player, PlayerBall, ThrowCooldown};
use vstd::prelude::*;

pub mod groups;

verus! {

/// A player in play, as the contact routing sees it.
#[derive(Clone, Copy, Debug, PartialEq, Eq, Structural)]
pub struct PlayerRecord {
    pub entity: Entity,
    pub ball: PlayerBall,
    pub throw_cooldown: ThrowCooldown,
    pub body: RigidBody,
    pub groups: CollisionGroups,
    /// Set when a dangerous ball hits the player. From then on the player
    /// takes no part in contacts.
    pub knocked_out: bool,
}

/// A ball, as the contact routing sees it.
#[derive(Clone, Copy, Debug, PartialEq, Eq, Structural)]
pub struct BallRecord {
    pub entity: Entity,
    pub ball: Ball,
    pub body: RigidBody,
    pub groups: CollisionGroups,
    /// Whether the physics watches the ball's whole path for contacts.
    pub ccd: bool,
    /// The player that carries the ball, once one has taken it.
    pub holder: Option<Entity>,
}

/// What comes of a player touching a ball.
#[derive(Clone, Copy, Debug, PartialEq, Eq, Structural)]
pub enum PlayerBallContact {
    /// The ball was dangerous: the player is out.
    KnockedOut,
    /// The player took the ball.
    PickedUp,
    /// Nothing: the ball is in another player's hands, or the player's own
    /// hands are full.
    Ignored,
}

impl PlayerBallContact {
    /// A dangerous ball knocks the player out, whatever else holds. A
    /// harmless one is picked up if nobody holds it and the player carries
    /// none.
    pub open spec fn of(player: PlayerRecord, ball: BallRecord) -> PlayerBallContact {
        if ball.ball.dangerous {
            PlayerBallContact::KnockedOut
        } else if ball.ball.state is Held || player.ball.holding_ball {
            PlayerBallContact::Ignored
        } else {
            PlayerBallContact::PickedUp
        }
    }
}

impl PlayerRecord {
    /// The player after it has touched `ball`.
    pub open spec fn after_contact(self, ball: BallRecord) -> PlayerRecord {
        match PlayerBallContact::of(self, ball) {
            PlayerBallContact::KnockedOut => PlayerRecord {
                body: RigidBody::Dynamic,
                groups: Player::out_of_play_groups_spec(),
                knocked_out: true,
                ..self
            },
            PlayerBallContact::PickedUp => PlayerRecord {
                ball: PlayerBall { holding_ball: true, ..self.ball },
                throw_cooldown: ThrowCooldown { timer: self.throw_cooldown.timer.restarted() },
                ..self
            },
            PlayerBallContact::Ignored => self,
        }
    }
}

impl BallRecord {
    /// The ball after `player` has touched it.
    pub open spec fn after_contact(self, player: PlayerRecord) -> BallRecord {
        match PlayerBallContact::of(player, self) {
            PlayerBallContact::PickedUp => BallRecord {
                ball: self.ball.picked_up(),
                body: RigidBody::KinematicPositionBased,
                groups: CollisionGroups {
                    memberships: self.groups.memberships,
                    filters: groups::NONE,
                },
                holder: Some(player.entity),
                ..self
            },
            _ => self,
        }
    }

    /// The ball after it has touched the floor. Every ball, held or not,
    /// lands, touches what a ball at rest touches, and is no longer watched
    /// along its path.
    pub open spec fn after_floor_contact(self) -> BallRecord {
        BallRecord {
            ball: self.ball.landed(),
            groups: Ball::ground_groups_spec(),
            ccd: false,
            ..self
        }
    }
}

/// Players and balls of a match, as the contact routing sees them.
pub struct Field {
    pub players: Seq<PlayerRecord>,
    pub balls: Seq<BallRecord>,
}

/// Whether `i` is the first place in `players` that holds `entity`.
pub open spec fn first_player_at(players: Seq<PlayerRecord>, entity: Entity, i: int) -> bool {
    &&& 0 <= i < players.len()
    &&& players[i].entity == entity
    &&& forall|j: int| 0 <= j < i ==> (#[trigger] players[j]).entity != entity
}

/// Whether `i` is the first place in `balls` that holds `entity`.
pub open spec fn first_ball_at(balls: Seq<BallRecord>, entity: Entity, i: int) -> bool {
    &&& 0 <= i < balls.len()
    &&& balls[i].entity == entity
    &&& forall|j: int| 0 <= j < i ==> (#[trigger] balls[j]).entity != entity
}

/// The place of the player `entity`, if it is on the field and in play.
pub open spec fn player_in_play(players: Seq<PlayerRecord>, entity: Entity) -> Option<int> {
    if exists|i: int| first_player_at(players, entity, i) {
        let i = choose|i: int| first_player_at(players, entity, i);
        if players[i].knocked_out {
            None
        } else {
            Some(i)
        }
    } else {
        None
    }
}

/// The place of the ball `entity`, if it is on the field.
pub open spec fn ball_on_field(balls: Seq<BallRecord>, entity: Entity) -> Option<int> {
    if exists|i: int| first_ball_at(balls, entity, i) {
        Some(choose|i: int| first_ball_at(balls, entity, i))
    } else {
        None
    }
}

impl Field {
    /// The places of the player and the ball that `event` brings together:
    /// a contact that has started, between a player in play and a ball, in
    /// either order.
    pub open spec fn player_ball_pair(self, event: CollisionEvent) -> Option<(int, int)> {
        match event {
            CollisionEvent::Started(first, second) => {
                let (player, ball) = if player_in_play(self.players, first) is Some {
                    (first, second)
                } else {
                    (second, first)
                };
                match (player_in_play(self.players, player), ball_on_field(self.balls, ball)) {
                    (Some(p), Some(b)) => Some((p, b)),
                    _ => None,
                }
            },
            CollisionEvent::Stopped(_, _) => None,
        }
    }

    /// The field after the player-ball contact of `event`, if it is one.
    pub open spec fn after_player_ball_event(self, event: CollisionEvent) -> Field {
        match self.player_ball_pair(event) {
            Some((p, b)) => Field {
                players: self.players.update(p, self.players[p].after_contact(self.balls[b])),
                balls: self.balls.update(b, self.balls[b].after_contact(self.players[p])),
            },
            None => self,
        }
    }

    /// The field after the player-ball contacts of `events`, one after the
    /// other.
    pub open spec fn after_player_ball_events(self, events: Seq<CollisionEvent>) -> Field
        decreases events.len(),
    {
        if events.len() == 0 {
            self
        } else {
            self.after_player_ball_events(events.drop_last()).after_player_ball_event(
                events.last(),
            )
        }
    }
}

/// The place of the ball that `event` brings to the floor: a contact that has
/// started, between `floor` and a ball, in either order.
pub open spec fn floor_ball(balls: Seq<BallRecord>, floor: Entity, event: CollisionEvent) -> Option<
    int,
> {
    match event {
        CollisionEvent::Started(first, second) => {
            if first == floor {
                ball_on_field(balls, second)
            } else if second == floor {
                ball_on_field(balls, first)
            } else {
                None
            }
        },
        CollisionEvent::Stopped(_, _) => None,
    }
}

/// The balls after the ball-floor contact of `event`, if it is one.
pub open spec fn after_floor_event(balls: Seq<BallRecord>, floor: Entity, event: CollisionEvent) -> Seq<
    BallRecord,
> {
    match floor_ball(balls, floor, event) {
        Some(b) => balls.update(b, balls[b].after_floor_contact()),
        None => balls,
    }
}

/// The balls after the ball-floor contacts of `events`, one after the other.
pub open spec fn after_floor_events(
    balls: Seq<BallRecord>,
    floor: Entity,
    events: Seq<CollisionEvent>,
) -> Seq<BallRecord>
    decreases events.len(),
{
    if events.len() == 0 {
        balls
    } else {
        after_floor_event(after_floor_events(balls, floor, events.drop_last()), floor, events.last())
    }
}

/// Finds the player `entity` among the players in play.
pub fn find_player(players: &Vec<PlayerRecord>, entity: Entity) -> (found: Option<usize>)
    ensures
        match found {
            Some(i) => player_in_play(players@, entity) == Some(i as int),
            None => player_in_play(players@, entity) is None,
        },
        found matches Some(i) ==> i < players.len() && players[i as int].entity == entity
            && !players[i as int].knocked_out,
{
    let mut i: usize = 0;
    while i < players.len()
        invariant
            i <= players.len(),
            forall|j: int| 0 <= j < i ==> (#[trigger] players@[j]).entity != entity,
        decreases players.len() - i,
    {
        if players[i].entity == entity {
            assert(first_player_at(players@, entity, i as int));
            if players[i].knocked_out {
                return None;
            }
            return Some(i);
        }
        i += 1;
    }
    None
}

/// Finds the ball `entity` among the balls.
pub fn find_ball(balls: &Vec<BallRecord>, entity: Entity) -> (found: Option<usize>)
    ensures
        match found {
            Some(i) => ball_on_field(balls@, entity) == Some(i as int),
            None => ball_on_field(balls@, entity) is None,
        },
        found matches Some(i) ==> i < balls.len() && balls[i as int].entity == entity,
{
    let mut i: usize = 0;
    while i < balls.len()
        invariant
            i <= balls.len(),
            forall|j: int| 0 <= j < i ==> (#[trigger] balls@[j]).entity != entity,
        decreases balls.len() - i,
    {
        if balls[i].entity == entity {
            assert(first_ball_at(balls@, entity, i as int));
            return Some(i);
        }
        i += 1;
    }
    None
}

/// Settles one contact between a player in play and a ball.
pub fn handle_ball_player_collision(player: &mut PlayerRecord, ball: &mut BallRecord) -> (contact:
    PlayerBallContact)
    ensures
        contact == PlayerBallContact::of(*old(player), *old(ball)),
        *final(player) == old(player).after_contact(*old(ball)),
        *final(ball) == old(ball).after_contact(*old(player)),
{
    if ball.ball.is_dangerous() {
        Player::knock_out(&mut player.body, &mut player.groups);
        player.knocked_out = true;
        PlayerBallContact::KnockedOut
    } else if ball.ball.is_held() || player.ball.holding_ball {
        PlayerBallContact::Ignored
    } else {
        ball.ball.pick_up(&mut ball.body, &mut ball.groups);
        ball.holder = Some(player.entity);
        player.ball.holding_ball = true;
        player.throw_cooldown.timer.reset();
        PlayerBallContact::PickedUp
    }
}

/// Settles one contact between a ball and the floor: the ball is no longer
/// dangerous, has the groups of a ball on the ground and is no longer watched
/// along its path. A held ball stays held.
pub fn handle_ball_floor_collision(ball: &mut BallRecord)
    ensures
        *final(ball) == old(ball).after_floor_contact(),
        !final(ball).ball.dangerous,
        final(ball).groups == Ball::ground_groups_spec(),
        !final(ball).ccd,
        final(ball).ball.state is Held <==> old(ball).ball.state is Held,
{
    ball.ball.on_touch_ground(&mut ball.groups);
    ball.ccd = false;
}

/// Routes the contacts between players and balls, in the order of `events`.
/// A contact counts if it has started and brings together a player in play
/// and a ball, in either order; any other event, and one that names a player
/// or a ball that is no longer on the field, is passed over. A dangerous ball
/// knocks the player out and stays where it is; a harmless ball goes to the
/// player, if it is free and the player's hands are empty.
pub fn handle_ball_player_collisions(
    events: &Vec<CollisionEvent>,
    players: &mut Vec<PlayerRecord>,
    balls: &mut Vec<BallRecord>,
)
    ensures
        (Field { players: final(players)@, balls: final(balls)@ }) == (Field {
            players: old(players)@,
            balls: old(balls)@,
        }).after_player_ball_events(events@),
{
    let ghost start = Field { players: players@, balls: balls@ };
    let mut i: usize = 0;
    while i < events.len()
        invariant
            i <= events.len(),
            (Field { players: players@, balls: balls@ }) == start.after_player_ball_events(
                events@.take(i as int),
            ),
        decreases events.len() - i,
    {
        let ghost before = Field { players: players@, balls: balls@ };
        let event = events[i];
        match event {
            CollisionEvent::Started(first, second) => {
                let (player, ball_entity) = match find_player(players, first) {
                    Some(p) => (Some(p), second),
                    None => (find_player(players, second), first),
                };
                if let Some(p) = player {
                    if let Some(b) = find_ball(balls, ball_entity) {
                        let mut player_record = players[p];
                        let mut ball_record = balls[b];
                        handle_ball_player_collision(&mut player_record, &mut ball_record);
                        players[p] = player_record;
                        balls[b] = ball_record;
                    }
                }
            },
            CollisionEvent::Stopped(_, _) => {},
        }
        proof {
            assert(events@.take(i + 1).drop_last() =~= events@.take(i as int));
            assert(events@.take(i + 1).last() == event);
            assert((Field { players: players@, balls: balls@ }) == before.after_player_ball_event(
                event,
            ));
        }
        i += 1;
    }
    proof {
        assert(events@.take(i as int) =~= events@);
    }
}

/// Routes the contacts between balls and the floor, in the order of `events`.
/// A contact counts if it has started and brings together `floor` and a ball,
/// in either order; without a floor nothing happens. Each such ball lands.
pub fn handle_ball_floor_collisions(
    events: &Vec<CollisionEvent>,
    floor: Option<Entity>,
    balls: &mut Vec<BallRecord>,
)
    ensures
        final(balls)@ == match floor {
            Some(floor) => after_floor_events(old(balls)@, floor, events@),
            None => old(balls)@,
        },
{
    let floor_entity = match floor {
        Some(floor_entity) => floor_entity,
        None => {
            return ;
        },
    };
    let ghost start = balls@;
    let mut i: usize = 0;
    while i < events.len()
        invariant
            i <= events.len(),
            balls@ == after_floor_events(start, floor_entity, events@.take(i as int)),
        decreases events.len() - i,
    {
        let ghost before = balls@;
        let event = events[i];
        match event {
            CollisionEvent::Started(first, second) => {
                let ball_entity = if first == floor_entity {
                    Some(second)
                } else if second == floor_entity {
                    Some(first)
                } else {
                    None
                };
                if let Some(ball_entity) = ball_entity {
                    if let Some(b) = find_ball(balls, ball_entity) {
                        let mut ball_record = balls[b];
                        handle_ball_floor_collision(&mut ball_record);
                        balls[b] = ball_record;
                    }
                }
            },
            CollisionEvent::Stopped(_, _) => {},
        }
        proof {
            assert(events@.take(i + 1).drop_last() =~= events@.take(i as int));
            assert(events@.take(i + 1).last() == event);
            assert(balls@ == after_floor_event(before, floor_entity, event));
        }
        i += 1;
    }
    proof {
        assert(events@.take(i as int) =~= events@);
    }
}

/// A dangerous ball that touches a player in play knocks the player out and
/// is not picked up: the balls stay as they are, and so do the hands of the
/// player and all other players.
pub proof fn dangerous_ball_knocks_out(field: Field, event: CollisionEvent, p: int, b: int)
    requires
        field.player_ball_pair(event) == Some((p, b)),
        field.balls[b].ball.dangerous,
    ensures
        0 <= p < field.players.len(),
        !field.players[p].knocked_out,
        field.after_player_ball_event(event).players[p].knocked_out,
        field.after_player_ball_event(event).players[p].ball == field.players[p].ball,
        field.after_player_ball_event(event).balls == field.balls,
        forall|q: int|
            0 <= q < field.players.len() && q != p ==> field.after_player_ball_event(
                event,
            ).players[q] == field.players[q],
{
    match event {
        CollisionEvent::Started(first, second) => {
            let ball = if player_in_play(field.players, first) is Some {
                second
            } else {
                first
            };
            assert(first_ball_at(field.balls, ball, b));
            assert(field.after_player_ball_event(event).balls =~= field.balls);
        },
        CollisionEvent::Stopped(_, _) => {},
    }
}

/// A floor contact lands its ball and no other: the ball is no longer
/// dangerous, has the groups of a ball on the ground and is no longer watched
/// along its path, and it is held exactly if it was held. An event that is no
/// floor contact changes nothing.
pub proof fn floor_contact_lands_its_ball(
    balls: Seq<BallRecord>,
    floor: Entity,
    event: CollisionEvent,
)
    ensures
        after_floor_event(balls, floor, event).len() == balls.len(),
        floor_ball(balls, floor, event) is None ==> after_floor_event(balls, floor, event) == balls,
        floor_ball(balls, floor, event) matches Some(b) ==> {
            let landed = after_floor_event(balls, floor, event);
            &&& 0 <= b < balls.len()
            &&& !landed[b].ball.dangerous
            &&& landed[b].groups == Ball::ground_groups_spec()
            &&& !landed[b].ccd
            &&& landed[b].ball.state is Held <==> balls[b].ball.state is Held
            &&& landed[b].entity == balls[b].entity
            &&& forall|c: int| 0 <= c < balls.len() && c != b ==> landed[c] == balls[c]
        },
{
    match event {
        CollisionEvent::Started(first, second) => {
            match floor_ball(balls, floor, event) {
                Some(b) => {
                    let ball = if first == floor {
                        second
                    } else {
                        first
                    };
                    assert(first_ball_at(balls, ball, b));
                },
                None => {},
            }
        },
        CollisionEvent::Stopped(_, _) => {},
    }
}

/// A ball that a player has picked up is in nobody's reach: whoever touches
/// it next, nothing comes of it.
pub proof fn picked_up_ball_is_left_alone(player: PlayerRecord, ball: BallRecord, next: PlayerRecord)
    requires
        PlayerBallContact::of(player, ball) is PickedUp,
    ensures
        ball.after_contact(player).ball.state is Held,
        ball.after_contact(player).holder == Some(player.entity),
        player.after_contact(ball).ball.holding_ball,
        PlayerBallContact::of(next, ball.after_contact(player)) is Ignored,
        ball.after_contact(player).after_contact(next) == ball.after_contact(player),
        next.after_contact(ball.after_contact(player)) == next,
{
}

/// Contacts leave every ball well formed, and keep every player and ball
/// under its name and in its place.
pub proof fn contacts_keep_field_in_order(field: Field, floor: Entity, events: Seq<CollisionEvent>)
    requires
        forall|b: int| 0 <= b < field.balls.len() ==> (#[trigger] field.balls[b]).ball.wf(),
    ensures
        field.after_player_ball_events(events).players.len() == field.players.len(),
        field.after_player_ball_events(events).balls.len() == field.balls.len(),
        after_floor_events(field.balls, floor, events).len() == field.balls.len(),
        forall|p: int|
            0 <= p < field.players.len() ==> (#[trigger] field.after_player_ball_events(
                events,
            ).players[p]).entity == field.players[p].entity,
        forall|b: int|
            0 <= b < field.balls.len() ==> {
                &&& (#[trigger] field.after_player_ball_events(events).balls[b]).entity
                    == field.balls[b].entity
                &&& field.after_player_ball_events(events).balls[b].ball.wf()
            },
        forall|b: int|
            0 <= b < field.balls.len() ==> {
                &&& (#[trigger] after_floor_events(field.balls, floor, events)[b]).entity
                    == field.balls[b].entity
                &&& after_floor_events(field.balls, floor, events)[b].ball.wf()
            },
    decreases events.len(),
{
    if events.len() > 0 {
        contacts_keep_field_in_order(field, floor, events.drop_last());
        let event = events.last();
        let mid = field.after_player_ball_events(events.drop_last());
        let landed = after_floor_events(field.balls, floor, events.drop_last());
        match event {
            CollisionEvent::Started(first, second) => {
                match mid.player_ball_pair(event) {
                    Some((p, b)) => {
                        let (player, ball) = if player_in_play(mid.players, first) is Some {
                            (first, second)
                        } else {
                            (second, first)
                        };
                        assert(first_player_at(mid.players, player, p));
                        assert(first_ball_at(mid.balls, ball, b));
                        ball_stays_well_formed(mid.balls[b].ball, 0, 0);
                    },
                    None => {},
                }
                match floor_ball(landed, floor, event) {
                    Some(b) => {
                        let ball = if first == floor {
                            second
                        } else {
                            first
                        };
                        assert(first_ball_at(landed, ball, b));
                        ball_stays_well_formed(landed[b].ball, 0, 0);
                    },
                    None => {},
                }
            },
            CollisionEvent::Stopped(_, _) => {},
        }
    }
}

} // verus!
