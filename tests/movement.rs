use stomp::car::{apply_velocity, spawn_car, spawn_car_at, Velocity};
use stomp::enemy::{move_enemy_toward_player, spawn_enemy, spawn_enemy_at, Enemy};
use stomp::geometry::{isqrt, length_of, normalize, Vec2};
use stomp::pitch::{RIGHT_BOUND, TOP_BOUND};
use stomp::player::{move_player, spawn_player, MoveInput};
use stomp::possession::{Arena, Body, CollisionEvent};

fn buttons(up: bool, down: bool, left: bool, right: bool) -> MoveInput {
    MoveInput { up, down, left, right, stick: None }
}

fn stick(x: i32, y: i32) -> MoveInput {
    MoveInput { up: false, down: false, left: false, right: false, stick: Some(Vec2::new(x, y)) }
}

#[test]
fn integer_square_roots() {
    assert_eq!(isqrt(0), 0);
    assert_eq!(isqrt(1), 1);
    assert_eq!(isqrt(15), 3);
    assert_eq!(isqrt(16), 4);
    assert_eq!(isqrt(2_000_000), 1414);
    assert_eq!(isqrt(u128::MAX), u64::MAX);
}

#[test]
fn normalisation() {
    assert_eq!(normalize(0, 0), Vec2::new(0, 0));
    assert_eq!(normalize(3, 4), Vec2::new(600, 800));
    assert_eq!(normalize(-3, -4), Vec2::new(-600, -800));
    assert_eq!(normalize(1000, 0), Vec2::new(1000, 0));
    assert_eq!(normalize(0, -7), Vec2::new(0, -1000));
    assert_eq!(normalize(50_000, -762_000), Vec2::new(65, -997));
    assert_eq!(normalize(-(1 << 32), 1 << 32), Vec2::new(-707, 707));
    assert_eq!(length_of(30_000, -40_000), 50_000);
}

#[test]
fn buttons_move_player() {
    let mut p = spawn_player(0, 7);
    move_player(&mut p, &buttons(false, false, false, true), 16);
    assert_eq!(p.translation, Vec2::new(58_000, -250_000));
    assert!(!p.flip_x);
    move_player(&mut p, &buttons(true, false, true, false), 10);
    assert_eq!(p.translation, Vec2::new(53_000, -245_000));
    assert!(p.flip_x);
    // opposite buttons cancel
    move_player(&mut p, &buttons(true, true, true, true), 10);
    assert_eq!(p.translation, Vec2::new(53_000, -245_000));
    assert!(!p.flip_x);
    // buttons leave velocity and animation alone
    assert_eq!(p.velocity, Vec2::new(0, 0));
    assert_eq!(p.atlas_index, 10);
}

#[test]
fn stick_moves_player_and_animates() {
    let mut p = spawn_player(0, 7);
    move_player(&mut p, &stick(1000, 0), 10);
    assert_eq!(p.translation, Vec2::new(55_000, -250_000));
    assert_eq!(p.velocity, Vec2::new(1000, 0));
    assert_eq!(p.direction, Vec2::new(1000, 0));
    assert_eq!(p.atlas_index, 4);
    move_player(&mut p, &stick(-500, 0), 3);
    assert_eq!(p.translation, Vec2::new(54_250, -250_000));
    assert!(p.flip_x);
    assert_eq!(p.atlas_index, 4);
    move_player(&mut p, &stick(0, 0), 3);
    assert_eq!(p.translation, Vec2::new(54_250, -250_000));
    assert!(p.flip_x);
    assert_eq!(p.atlas_index, 10);
    // the stick is clamped to one unit per axis
    move_player(&mut p, &stick(0, 5000), 2);
    assert_eq!(p.translation, Vec2::new(54_250, -249_000));
    assert_eq!(p.velocity, Vec2::new(0, 1000));
}

#[test]
fn player_stays_inside_pitch() {
    let mut p = spawn_player(0, 7);
    move_player(&mut p, &buttons(true, false, false, true), 100_000);
    assert_eq!(p.translation, Vec2::new(RIGHT_BOUND, TOP_BOUND));
    assert_eq!(p.translation, Vec2::new(622_500, 493_000));
    move_player(&mut p, &stick(-1000, -1000), u32::MAX);
    assert_eq!(p.translation, Vec2::new(-622_500, -441_000));
}

fn arena_with_holder() -> Arena {
    let mut arena = Arena::new();
    assert!(arena.join(0, 1));
    arena.snap_to_player(&vec![CollisionEvent::Started(Body::Ball, Body::Player(1))]);
    arena
}

#[test]
fn enemy_spawns_on_top_wall() {
    let e = spawn_enemy_at(-1234);
    assert_eq!(e.translation, Vec2::new(-1234, 512_000));
    assert_eq!(e.speed, 400_000);
    assert_eq!(e.current_speed, 400_000);
    assert_eq!(e.health, 100);
}

#[test]
fn random_enemy_spawn_is_between_walls() {
    let mut seen_other = false;
    for _ in 0..32 {
        let e = spawn_enemy();
        assert!(e.translation.x >= -640_000 && e.translation.x < 640_000);
        assert_eq!(e.translation.y, 512_000);
        if e.translation.x != -640_000 {
            seen_other = true;
        }
    }
    assert!(seen_other);
}

#[test]
fn enemy_chases_holder_at_full_speed() {
    let arena = arena_with_holder();
    let mut e = spawn_enemy_at(0);
    move_enemy_toward_player(&mut e, &arena, 100);
    assert_eq!(e.translation, Vec2::new(2_600, 472_120));
    assert_eq!(e.speed, 400_000);
    assert_eq!(e.current_speed, 400_800);
}

#[test]
fn enemy_slows_down_near_holder() {
    let arena = arena_with_holder();
    let mut e = spawn_enemy_at(0);
    e.translation = Vec2::new(20_000, -210_000);
    move_enemy_toward_player(&mut e, &arena, 50);
    assert_eq!(e.speed, 200_000);
    assert_eq!(e.translation, Vec2::new(26_000, -218_000));
    assert_eq!(e.current_speed, 400_800);
}

#[test]
fn enemy_idles_without_holder() {
    let mut arena = Arena::new();
    assert!(arena.join(0, 1));
    let mut e = spawn_enemy_at(5);
    let before: Enemy = e;
    move_enemy_toward_player(&mut e, &arena, 100);
    assert_eq!(e, before);
}

#[test]
fn enemy_speed_saturates() {
    let arena = arena_with_holder();
    let mut e = spawn_enemy_at(0);
    e.current_speed = u32::MAX - 100;
    move_enemy_toward_player(&mut e, &arena, 0);
    assert_eq!(e.current_speed, u32::MAX);
    assert_eq!(e.translation, Vec2::new(0, 512_000));
}

#[test]
fn car_enters_at_top_heading_down() {
    let car = spawn_car_at(300);
    assert_eq!(car.translation, Vec2::new(300, 512_000));
    assert_eq!(car.velocity, Velocity(Vec2::new(0, -500_000)));
    let mut seen_other = false;
    for _ in 0..32 {
        let c = spawn_car();
        assert!(c.translation.x >= -640_000 && c.translation.x < 640_000);
        if c.translation.x != -640_000 {
            seen_other = true;
        }
    }
    assert!(seen_other);
}

#[test]
fn car_drives_by_velocity() {
    let mut car = spawn_car_at(0);
    apply_velocity(&mut car, 16);
    assert_eq!(car.translation, Vec2::new(0, 504_000));
    car.velocity = Velocity(Vec2::new(333, -1));
    apply_velocity(&mut car, 10);
    assert_eq!(car.translation, Vec2::new(3, 504_000));
    car.velocity = Velocity(Vec2::new(i32::MIN, 0));
    apply_velocity(&mut car, u32::MAX);
    assert_eq!(car.translation.x, i32::MIN);
}
