use stomp::geometry::Vec2;
use stomp::possession::{Arena, BallState, Body, CollisionEvent, BALL_DESPAWN_MS, THROW_SPEED};
use stomp::state::{AppState, CountdownTimer, GameState};

const A: u64 = 101;
const B: u64 = 102;

fn two_players() -> Arena {
    let mut arena = Arena::new();
    assert!(arena.join(0, A));
    assert!(arena.join(1, B));
    arena
}

fn touch(e: u64) -> CollisionEvent {
    CollisionEvent::Started(Body::Ball, Body::Player(e))
}

fn holders(arena: &Arena) -> usize {
    arena.players.iter().filter(|p| p.have_ball).count()
}

#[test]
fn ball_starts_free_at_origin() {
    let arena = Arena::new();
    assert_eq!(arena.state(), BallState::Free);
    let ball = arena.ball.unwrap();
    assert_eq!(ball.translation, Vec2::new(0, 0));
    assert_eq!(ball.impulse, Vec2::new(0, 0));
    assert_eq!(ball.despawn_timer, 4000);
    assert!(!ball.in_flight);
    assert!(arena.indicator.is_none());
}

#[test]
fn player_touching_free_ball_catches_it() {
    let mut arena = two_players();
    arena.snap_to_player(&vec![touch(A)]);
    assert_eq!(arena.state(), BallState::Held);
    assert!(arena.ball.is_none());
    assert!(arena.players[0].have_ball);
    assert!(!arena.players[1].have_ball);
    let ind = arena.indicator.unwrap();
    assert_eq!(ind.parent, A);
    assert_eq!(ind.indicator.direction, Vec2::new(0, 0));
    assert_eq!(ind.indicator.translation, Vec2::new(0, 30_000));
}

#[test]
fn collision_order_does_not_matter_within_pair() {
    let mut arena = two_players();
    arena.snap_to_player(&vec![CollisionEvent::Started(Body::Player(B), Body::Ball)]);
    assert!(arena.players[1].have_ball);
    assert_eq!(arena.indicator.unwrap().parent, B);
}

#[test]
fn first_collision_wins_in_one_step() {
    let mut arena = two_players();
    arena.snap_to_player(&vec![touch(B), touch(A)]);
    assert!(arena.players[1].have_ball);
    assert!(!arena.players[0].have_ball);
    assert_eq!(holders(&arena), 1);
}

#[test]
fn unrelated_collisions_are_ignored() {
    let mut arena = two_players();
    arena.snap_to_player(&vec![
        CollisionEvent::Started(Body::Ball, Body::Wall),
        CollisionEvent::Stopped(Body::Ball, Body::Player(A)),
        CollisionEvent::Started(Body::Player(A), Body::Enemy),
        CollisionEvent::Started(Body::Ball, Body::Player(999)),
    ]);
    assert_eq!(arena.state(), BallState::Free);
    assert_eq!(holders(&arena), 0);
}

#[test]
fn holder_touching_again_changes_nothing() {
    let mut arena = two_players();
    arena.snap_to_player(&vec![touch(A)]);
    arena.move_indicator(A, Vec2::new(0, 1000));
    let before_ind = arena.indicator;
    let before_players = arena.players.clone();
    arena.snap_to_player(&vec![touch(A)]);
    arena.snap_to_player(&vec![touch(A), touch(A)]);
    assert_eq!(arena.indicator, before_ind);
    assert_eq!(arena.players, before_players);
    assert!(arena.ball.is_none());
}

#[test]
fn no_transfer_while_held() {
    let mut arena = two_players();
    arena.snap_to_player(&vec![touch(A)]);
    arena.snap_to_player(&vec![touch(B)]);
    assert!(arena.players[0].have_ball);
    assert!(!arena.players[1].have_ball);
    assert_eq!(arena.indicator.unwrap().parent, A);
    assert_eq!(holders(&arena), 1);
}

#[test]
fn aim_right_then_throw() {
    let mut arena = two_players();
    arena.snap_to_player(&vec![touch(A)]);
    arena.move_indicator(A, Vec2::new(1000, 0));
    let ind = arena.indicator.unwrap().indicator;
    assert_eq!(ind.direction, Vec2::new(1000, 0));
    assert_eq!(ind.translation, Vec2::new(30_000, 0));
    let at = arena.players[0].translation;
    assert!(arena.throw_ball(A));
    assert_eq!(arena.state(), BallState::InFlight);
    let ball = arena.ball.unwrap();
    assert_eq!(ball.translation, at);
    assert_eq!(ball.impulse, Vec2::new(1000 * THROW_SPEED, 0));
    assert_eq!(ball.impulse, Vec2::new(500_000, 0));
    assert_eq!(ball.despawn_timer, 4000);
    assert!(!arena.players[0].have_ball);
    assert!(arena.indicator.is_none());
}

#[test]
fn throw_without_aim_has_no_impulse() {
    let mut arena = two_players();
    arena.snap_to_player(&vec![touch(A)]);
    assert!(arena.throw_ball(A));
    assert_eq!(arena.ball.unwrap().impulse, Vec2::new(0, 0));
}

#[test]
fn aim_is_sticky() {
    let mut arena = two_players();
    arena.snap_to_player(&vec![touch(A)]);
    arena.move_indicator(A, Vec2::new(0, -1000));
    // the other player's stick does not move the holder's indicator
    arena.move_indicator(B, Vec2::new(1000, 0));
    let ind = arena.indicator.unwrap().indicator;
    assert_eq!(ind.direction, Vec2::new(0, -1000));
    assert_eq!(ind.translation, Vec2::new(0, -30_000));
}

#[test]
fn aim_is_normalised_and_clamped() {
    let mut arena = two_players();
    arena.snap_to_player(&vec![touch(A)]);
    arena.move_indicator(A, Vec2::new(3000, 4000));
    // clamped to (1000, 1000), length 1414
    let ind = arena.indicator.unwrap().indicator;
    assert_eq!(ind.direction, Vec2::new(707, 707));
    assert_eq!(ind.translation, Vec2::new(21_210, 21_210));
    arena.move_indicator(A, Vec2::new(-600, 800));
    assert_eq!(arena.indicator.unwrap().indicator.direction, Vec2::new(-600, 800));
}

#[test]
fn only_holder_can_throw() {
    let mut arena = two_players();
    assert!(!arena.throw_ball(A));
    arena.snap_to_player(&vec![touch(A)]);
    assert!(!arena.throw_ball(B));
    assert_eq!(arena.state(), BallState::Held);
    assert!(arena.throw_ball(A));
    // the ball already exists: a second press is ignored
    assert!(!arena.throw_ball(A));
    assert_eq!(arena.state(), BallState::InFlight);
}

#[test]
fn flight_times_out_after_four_seconds() {
    let mut arena = two_players();
    arena.snap_to_player(&vec![touch(A)]);
    arena.move_indicator(A, Vec2::new(1000, 0));
    assert!(arena.throw_ball(A));
    arena.return_ball(1500);
    assert_eq!(arena.ball.unwrap().despawn_timer, 2500);
    assert_eq!(arena.state(), BallState::InFlight);
    arena.return_ball(2499);
    assert_eq!(arena.ball.unwrap().despawn_timer, 1);
    assert_eq!(arena.state(), BallState::InFlight);
    arena.return_ball(1);
    assert_eq!(arena.state(), BallState::Absent);
    assert!(arena.ball.is_none());
    assert_eq!(holders(&arena), 0);
    assert!(arena.indicator.is_none());
    // the round puts a new ball down
    assert!(arena.respawn_ball());
    assert_eq!(arena.state(), BallState::Free);
    let ball = arena.ball.unwrap();
    assert_eq!(ball.translation, Vec2::new(0, 0));
    assert_eq!(ball.impulse, Vec2::new(0, 0));
    assert_eq!(ball.despawn_timer, BALL_DESPAWN_MS);
    assert!(!arena.respawn_ball());
}

#[test]
fn four_one_second_ticks_remove_ball() {
    let mut arena = two_players();
    arena.snap_to_player(&vec![touch(A)]);
    assert!(arena.throw_ball(A));
    for _ in 0..3 {
        arena.return_ball(1000);
    }
    assert_eq!(arena.ball.unwrap().despawn_timer, 1000);
    arena.return_ball(1000);
    assert!(arena.ball.is_none());
    assert_eq!(arena.state(), BallState::Absent);
    // nothing to catch while no ball exists
    arena.snap_to_player(&vec![touch(B)]);
    assert_eq!(holders(&arena), 0);
    assert!(!arena.throw_ball(A));
}

#[test]
fn no_respawn_while_ball_exists_or_held() {
    let mut arena = two_players();
    assert!(!arena.respawn_ball());
    arena.snap_to_player(&vec![touch(A)]);
    assert!(!arena.respawn_ball());
    assert!(arena.ball.is_none());
    assert_eq!(arena.state(), BallState::Held);
}

#[test]
fn throw_normalises_stored_direction() {
    let mut arena = two_players();
    arena.snap_to_player(&vec![touch(A)]);
    let mut attached = arena.indicator.unwrap();
    attached.indicator.direction = Vec2::new(3, 4);
    arena.indicator = Some(attached);
    assert!(arena.throw_ball(A));
    assert_eq!(arena.ball.unwrap().impulse, Vec2::new(300_000, 400_000));
}

#[test]
fn flight_timeout_in_one_step() {
    let mut arena = two_players();
    arena.snap_to_player(&vec![touch(A)]);
    assert!(arena.throw_ball(A));
    arena.return_ball(4000);
    assert_eq!(arena.state(), BallState::Absent);
    assert!(arena.ball.is_none());
}

#[test]
fn free_ball_does_not_time_out() {
    let mut arena = Arena::new();
    arena.return_ball(10_000);
    assert_eq!(arena.ball.unwrap().despawn_timer, 4000);
    assert_eq!(arena.state(), BallState::Free);
}

#[test]
fn thrown_ball_can_be_caught_by_other_player() {
    let mut arena = two_players();
    arena.snap_to_player(&vec![touch(A)]);
    assert!(arena.throw_ball(A));
    arena.snap_to_player(&vec![touch(B)]);
    assert!(arena.players[1].have_ball);
    assert!(!arena.players[0].have_ball);
    assert_eq!(arena.indicator.unwrap().parent, B);
    assert_eq!(holders(&arena), 1);
}

#[test]
fn attach_then_detach_restores_arena() {
    let mut arena = two_players();
    let players = arena.players.clone();
    let ball = arena.ball;
    arena.attach_indicator(A);
    assert_eq!(arena.indicator.unwrap().parent, A);
    arena.detach_indicator();
    assert!(arena.indicator.is_none());
    assert_eq!(arena.players, players);
    assert_eq!(arena.ball, ball);
}

#[test]
fn release_returns_ball() {
    let mut arena = two_players();
    arena.snap_to_player(&vec![touch(A)]);
    arena.release_possession(B);
    assert_eq!(arena.state(), BallState::Held);
    arena.release_possession(A);
    assert_eq!(arena.state(), BallState::Free);
    assert!(arena.indicator.is_none());
    assert_eq!(holders(&arena), 0);
}

#[test]
fn disconnect_of_holder_cleans_up() {
    let mut arena = two_players();
    arena.snap_to_player(&vec![touch(B)]);
    assert_eq!(arena.disconnect(1), Some(B));
    assert_eq!(arena.players.len(), 1);
    assert_eq!(arena.players[0].entity, A);
    assert_eq!(arena.state(), BallState::Free);
    assert!(arena.indicator.is_none());
    assert_eq!(arena.disconnect(1), None);
}

#[test]
fn disconnect_keeps_other_holder() {
    let mut arena = two_players();
    arena.snap_to_player(&vec![touch(B)]);
    assert_eq!(arena.disconnect(0), Some(A));
    assert!(arena.players[0].have_ball);
    assert_eq!(arena.indicator.unwrap().parent, B);
}

#[test]
fn player_cannot_join_twice() {
    let mut arena = Arena::new();
    assert!(arena.join(3, A));
    assert!(!arena.join(3, B));
    assert!(!arena.join(4, A));
    assert_eq!(arena.players.len(), 1);
    let p = arena.players[0];
    assert_eq!(p.player_id, 3);
    assert_eq!(p.gamepad, 3);
    assert_eq!(p.lives, 5);
    assert_eq!(p.translation, Vec2::new(50_000, -250_000));
    assert_eq!(p.atlas_index, 10);
    assert!(!p.have_ball);
}

#[test]
fn enemy_contact_with_last_life_ends_game() {
    let mut arena = two_players();
    for _ in 0..4 {
        let mut countdown = CountdownTimer::new();
        assert_eq!(arena.collision_with_enemy(&vec![A], &mut countdown), Some(GameState::Paused));
    }
    assert_eq!(arena.players[0].lives, 1);
    assert_eq!(arena.update_lives(), None);
    let mut countdown = CountdownTimer::new();
    assert_eq!(countdown.duration, 2);
    assert_eq!(arena.collision_with_enemy(&vec![A], &mut countdown), Some(GameState::Paused));
    assert_eq!(countdown.duration, 4);
    assert_eq!(arena.players[0].lives, 0);
    assert_eq!(arena.players[1].lives, 5);
    assert_eq!(arena.update_lives(), Some((GameState::Paused, AppState::GameOver)));
    // lives do not go below zero
    arena.collision_with_enemy(&vec![A], &mut countdown);
    assert_eq!(arena.players[0].lives, 0);
}

#[test]
fn no_enemy_contact_keeps_running() {
    let mut arena = two_players();
    let mut countdown = CountdownTimer::new();
    assert_eq!(arena.collision_with_enemy(&vec![999], &mut countdown), None);
    assert_eq!(countdown.duration, 2);
    assert_eq!(arena.players[0].lives, 5);
    assert_eq!(arena.players[1].lives, 5);
}

#[test]
fn both_players_touched_lose_a_life_each() {
    let mut arena = two_players();
    let mut countdown = CountdownTimer::new();
    arena.collision_with_enemy(&vec![B, A], &mut countdown);
    assert_eq!(arena.players[0].lives, 4);
    assert_eq!(arena.players[1].lives, 4);
    arena.reset_lives();
    assert_eq!(arena.players[0].lives, 5);
    assert_eq!(arena.players[1].lives, 5);
}
