use megadodge_mayhem::ball::{Ball, BallBundle, BallState};
use megadodge_mayhem::collision::{
    find_ball, find_player, groups, handle_ball_floor_collision, handle_ball_floor_collisions,
    handle_ball_player_collision, handle_ball_player_collisions, BallRecord, PlayerBallContact,
    PlayerRecord,
};
use megadodge_mayhem::physics::{CollisionEvent, CollisionGroups, Entity, RigidBody};
use megadodge_mayhem::player::{Player, PlayerBall, ThrowCooldown};

fn player(id: u64) -> PlayerRecord {
    PlayerRecord {
        entity: Entity(id),
        ball: PlayerBall::default(),
        throw_cooldown: ThrowCooldown::new(),
        body: RigidBody::KinematicVelocityBased,
        groups: Player::in_play_groups(),
        knocked_out: false,
    }
}

fn record(id: u64, bundle: BallBundle) -> BallRecord {
    BallRecord {
        entity: Entity(id),
        ball: bundle.ball,
        body: bundle.body,
        groups: bundle.groups,
        ccd: bundle.ccd,
        holder: None,
    }
}

fn ground_ball(id: u64) -> BallRecord {
    record(id, BallBundle::new_on_ground())
}

fn thrown_ball(id: u64) -> BallRecord {
    record(id, BallBundle::new_thrown())
}

#[test]
fn group_bits_are_distinct() {
    assert_eq!(groups::NONE, 0);
    assert_eq!(groups::QUERY, 1);
    assert_eq!(groups::PLAYER, 2);
    assert_eq!(groups::GROUND_BALL, 4);
    assert_eq!(groups::THROWN_BALL, 8);
    assert_eq!(groups::BOUNDARIES, 16);
}

#[test]
fn dangerous_ball_eliminates_and_is_not_picked_up() {
    let mut players = vec![player(1)];
    let mut balls = vec![thrown_ball(10)];
    let events = vec![CollisionEvent::Started(Entity(1), Entity(10))];
    handle_ball_player_collisions(&events, &mut players, &mut balls);
    assert!(players[0].knocked_out);
    assert!(!players[0].ball.holding_ball);
    assert_eq!(players[0].body, RigidBody::Dynamic);
    assert_eq!(players[0].groups, Player::out_of_play_groups());
    assert_eq!(balls[0], thrown_ball(10));
    assert_eq!(balls[0].holder, None);
    assert!(balls[0].ball.is_dangerous());
}

#[test]
fn dangerous_ball_eliminates_in_either_order() {
    let mut players = vec![player(1)];
    let mut balls = vec![thrown_ball(10)];
    let events = vec![CollisionEvent::Started(Entity(10), Entity(1))];
    handle_ball_player_collisions(&events, &mut players, &mut balls);
    assert!(players[0].knocked_out);
    assert_eq!(balls[0], thrown_ball(10));
}

#[test]
fn dangerous_ball_eliminates_a_carrier_too() {
    let mut carrier = player(1);
    carrier.ball.holding_ball = true;
    let mut ball = thrown_ball(10);
    let contact = handle_ball_player_collision(&mut carrier, &mut ball);
    assert_eq!(contact, PlayerBallContact::KnockedOut);
    assert!(carrier.knocked_out);
    assert!(carrier.ball.holding_ball);
    assert_eq!(ball, thrown_ball(10));
}

#[test]
fn harmless_ball_is_picked_up() {
    let mut players = vec![player(1)];
    players[0].throw_cooldown.timer.tick(1_500_000_000);
    let mut balls = vec![ground_ball(10)];
    let events = vec![CollisionEvent::Started(Entity(10), Entity(1))];
    handle_ball_player_collisions(&events, &mut players, &mut balls);
    assert!(!players[0].knocked_out);
    assert!(players[0].ball.holding_ball);
    assert_eq!(players[0].throw_cooldown, ThrowCooldown::new());
    assert_eq!(balls[0].ball.state, BallState::Held);
    assert_eq!(balls[0].holder, Some(Entity(1)));
    assert_eq!(balls[0].body, RigidBody::KinematicPositionBased);
    assert_eq!(
        balls[0].groups,
        CollisionGroups::new(groups::GROUND_BALL, groups::NONE)
    );
}

#[test]
fn held_ball_is_not_stolen() {
    let mut players = vec![player(1), player(2)];
    let mut balls = vec![ground_ball(10)];
    let events = vec![
        CollisionEvent::Started(Entity(1), Entity(10)),
        CollisionEvent::Started(Entity(2), Entity(10)),
    ];
    handle_ball_player_collisions(&events, &mut players, &mut balls);
    assert!(players[0].ball.holding_ball);
    assert!(!players[1].ball.holding_ball);
    assert_eq!(balls[0].holder, Some(Entity(1)));
}

#[test]
fn carrier_takes_no_second_ball() {
    let mut players = vec![player(1)];
    let mut balls = vec![ground_ball(10), ground_ball(11)];
    let events = vec![
        CollisionEvent::Started(Entity(1), Entity(10)),
        CollisionEvent::Started(Entity(1), Entity(11)),
    ];
    handle_ball_player_collisions(&events, &mut players, &mut balls);
    assert_eq!(balls[0].holder, Some(Entity(1)));
    assert_eq!(balls[1], ground_ball(11));
}

#[test]
fn repeated_pickup_contact_is_ignored() {
    let mut one = player(1);
    let mut ball = ground_ball(10);
    assert_eq!(
        handle_ball_player_collision(&mut one, &mut ball),
        PlayerBallContact::PickedUp
    );
    let (held_player, held_ball) = (one, ball);
    assert_eq!(
        handle_ball_player_collision(&mut one, &mut ball),
        PlayerBallContact::Ignored
    );
    assert_eq!(one, held_player);
    assert_eq!(ball, held_ball);
}

#[test]
fn knocked_out_player_takes_no_part() {
    let mut players = vec![player(1)];
    let mut balls = vec![thrown_ball(10), ground_ball(11)];
    let events = vec![
        CollisionEvent::Started(Entity(1), Entity(10)),
        CollisionEvent::Started(Entity(1), Entity(11)),
    ];
    handle_ball_player_collisions(&events, &mut players, &mut balls);
    assert!(players[0].knocked_out);
    assert!(!players[0].ball.holding_ball);
    assert_eq!(balls[1], ground_ball(11));
}

#[test]
fn events_on_missing_entities_are_dropped() {
    let mut players = vec![player(1)];
    let mut balls = vec![ground_ball(10)];
    let events = vec![
        CollisionEvent::Started(Entity(1), Entity(99)),
        CollisionEvent::Started(Entity(98), Entity(10)),
        CollisionEvent::Started(Entity(97), Entity(96)),
        CollisionEvent::Started(Entity(1), Entity(1)),
        CollisionEvent::Started(Entity(10), Entity(10)),
    ];
    handle_ball_player_collisions(&events, &mut players, &mut balls);
    assert_eq!(players, vec![player(1)]);
    assert_eq!(balls, vec![ground_ball(10)]);
}

#[test]
fn stopped_contacts_are_ignored() {
    let mut players = vec![player(1)];
    let mut balls = vec![thrown_ball(10)];
    let events = vec![CollisionEvent::Stopped(Entity(1), Entity(10))];
    handle_ball_player_collisions(&events, &mut players, &mut balls);
    assert_eq!(players, vec![player(1)]);
    assert_eq!(balls, vec![thrown_ball(10)]);
    handle_ball_floor_collisions(
        &vec![CollisionEvent::Stopped(Entity(10), Entity(5))],
        Some(Entity(5)),
        &mut balls,
    );
    assert_eq!(balls, vec![thrown_ball(10)]);
}

#[test]
fn contacts_between_two_players_do_nothing() {
    let mut players = vec![player(1), player(2)];
    let mut balls = vec![ground_ball(10)];
    let events = vec![CollisionEvent::Started(Entity(1), Entity(2))];
    handle_ball_player_collisions(&events, &mut players, &mut balls);
    assert_eq!(players, vec![player(1), player(2)]);
    assert_eq!(balls, vec![ground_ball(10)]);
}

#[test]
fn floor_contact_lands_a_thrown_ball() {
    let mut balls = vec![thrown_ball(10), thrown_ball(11)];
    let events = vec![CollisionEvent::Started(Entity(5), Entity(10))];
    handle_ball_floor_collisions(&events, Some(Entity(5)), &mut balls);
    assert_eq!(balls[0].ball.state, BallState::Cooldown);
    assert!(!balls[0].ball.is_dangerous());
    assert_eq!(balls[0].groups, Ball::ground_groups());
    assert!(!balls[0].ccd);
    assert_eq!(balls[0].body, RigidBody::Dynamic);
    assert_eq!(balls[1], thrown_ball(11));
}

#[test]
fn floor_contact_counts_in_either_order() {
    let mut balls = vec![thrown_ball(10)];
    let events = vec![CollisionEvent::Started(Entity(10), Entity(5))];
    handle_ball_floor_collisions(&events, Some(Entity(5)), &mut balls);
    assert_eq!(balls[0].ball.state, BallState::Cooldown);
}

#[test]
fn without_a_floor_nothing_lands() {
    let mut balls = vec![thrown_ball(10)];
    let events = vec![CollisionEvent::Started(Entity(5), Entity(10))];
    handle_ball_floor_collisions(&events, None, &mut balls);
    assert_eq!(balls, vec![thrown_ball(10)]);
}

#[test]
fn contact_with_something_else_is_no_floor_contact() {
    let mut balls = vec![thrown_ball(10)];
    let events = vec![
        CollisionEvent::Started(Entity(6), Entity(10)),
        CollisionEvent::Started(Entity(5), Entity(77)),
    ];
    handle_ball_floor_collisions(&events, Some(Entity(5)), &mut balls);
    assert_eq!(balls, vec![thrown_ball(10)]);
}

#[test]
fn landed_ball_no_longer_eliminates() {
    let mut players = vec![player(1)];
    let mut balls = vec![thrown_ball(10)];
    handle_ball_floor_collisions(
        &vec![CollisionEvent::Started(Entity(5), Entity(10))],
        Some(Entity(5)),
        &mut balls,
    );
    handle_ball_player_collisions(
        &vec![CollisionEvent::Started(Entity(1), Entity(10))],
        &mut players,
        &mut balls,
    );
    assert!(!players[0].knocked_out);
    assert!(players[0].ball.holding_ball);
    assert_eq!(balls[0].holder, Some(Entity(1)));
}

#[test]
fn held_ball_stays_held_on_floor_contact() {
    let mut one = player(1);
    let mut ball = ground_ball(10);
    ball.ccd = true;
    handle_ball_player_collision(&mut one, &mut ball);
    let held = ball;
    assert_eq!(held.groups.filters, groups::NONE);
    handle_ball_floor_collision(&mut ball);
    assert_eq!(ball.ball, held.ball);
    assert!(ball.ball.is_held());
    assert!(!ball.ball.is_dangerous());
    assert_eq!(ball.groups, Ball::ground_groups());
    assert!(!ball.ccd);
    assert_eq!(ball.holder, Some(Entity(1)));
    assert_eq!(ball.body, held.body);
}

#[test]
fn floor_contact_reaches_a_ball_picked_up_in_the_same_drain() {
    let mut players = vec![player(1)];
    let mut balls = vec![ground_ball(10)];
    let events = vec![
        CollisionEvent::Started(Entity(1), Entity(10)),
        CollisionEvent::Started(Entity(10), Entity(5)),
    ];
    handle_ball_player_collisions(&events, &mut players, &mut balls);
    assert!(balls[0].ball.is_held());
    assert_eq!(balls[0].groups.filters, groups::NONE);
    handle_ball_floor_collisions(&events, Some(Entity(5)), &mut balls);
    assert!(balls[0].ball.is_held());
    assert_eq!(balls[0].groups, Ball::ground_groups());
    assert!(!balls[0].ccd);
}

#[test]
fn floor_contact_lands_a_resting_ball_too() {
    let mut balls = vec![ground_ball(10)];
    balls[0].ccd = true;
    let events = vec![CollisionEvent::Started(Entity(5), Entity(10))];
    handle_ball_floor_collisions(&events, Some(Entity(5)), &mut balls);
    assert_eq!(balls[0].ball, Ball::default());
    assert_eq!(balls[0].groups, Ball::ground_groups());
    assert!(!balls[0].ccd);
}

#[test]
fn lookups_find_the_first_match() {
    let mut players = vec![player(1), player(2), player(2)];
    players[2].knocked_out = true;
    assert_eq!(find_player(&players, Entity(1)), Some(0));
    assert_eq!(find_player(&players, Entity(2)), Some(1));
    assert_eq!(find_player(&players, Entity(3)), None);
    players[1].knocked_out = true;
    assert_eq!(find_player(&players, Entity(2)), None);
    let balls = vec![ground_ball(10), thrown_ball(11), ground_ball(11)];
    assert_eq!(find_ball(&balls, Entity(11)), Some(1));
    assert_eq!(find_ball(&balls, Entity(12)), None);
    assert_eq!(find_ball(&Vec::new(), Entity(10)), None);
}
