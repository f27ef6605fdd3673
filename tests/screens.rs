use stomp::sprites::{animate_sprite, AnimationIndices};
use stomp::buttons::{interact_with_play_button, interact_with_quit_button, ButtonColor, Interaction};
use stomp::menu::{add_player_boxes, despawn_player_boxes, PlayerBox};
use stomp::pitch::{spawn_map_borders, Border};
use stomp::geometry::Vec2;
use stomp::possession::Arena;
use stomp::state::{start, toggle_appstate, toggle_gamestate, AppState, CountdownTimer, GameState};

#[test]
fn countdown_defaults() {
    let c = CountdownTimer::new();
    assert_eq!(c.duration, 2);
    assert_eq!(c.period_ms, 1000);
    assert_eq!(CountdownTimer::default(), c);
}

#[test]
fn pause_key_toggles_round() {
    assert_eq!(toggle_gamestate(true, GameState::Running), Some(GameState::Paused));
    assert_eq!(toggle_gamestate(true, GameState::Paused), Some(GameState::Running));
    assert_eq!(toggle_gamestate(false, GameState::Running), None);
}

#[test]
fn menu_key_toggles_screen() {
    assert_eq!(toggle_appstate(true, AppState::InGame), Some(AppState::Menu));
    assert_eq!(toggle_appstate(true, AppState::Menu), Some(AppState::InGame));
    assert_eq!(toggle_appstate(true, AppState::GameOver), None);
    assert_eq!(toggle_appstate(false, AppState::Menu), None);
}

#[test]
fn start_press_begins_game() {
    let mut c = CountdownTimer::new();
    assert_eq!(start(false, &mut c), None);
    assert_eq!(c.duration, 2);
    assert_eq!(start(true, &mut c), Some(AppState::InGame));
    assert_eq!(c.duration, 4);
    assert_eq!(c.period_ms, 1000);
}

#[test]
fn quit_button() {
    assert_eq!(interact_with_quit_button(Interaction::Pressed), (ButtonColor::Pressed, true));
    assert_eq!(interact_with_quit_button(Interaction::Hovered), (ButtonColor::Hovered, false));
    assert_eq!(interact_with_quit_button(Interaction::Idle), (ButtonColor::Normal, false));
}

#[test]
fn animation_wraps_to_first_frame() {
    let run = AnimationIndices { first: 0, last: 5 };
    assert_eq!(animate_sprite(&run, 2, true), 3);
    assert_eq!(animate_sprite(&run, 5, true), 0);
    assert_eq!(animate_sprite(&run, 5, false), 5);
    let idle = AnimationIndices { first: 10, last: 13 };
    assert_eq!(animate_sprite(&idle, 13, true), 10);
}

fn tired_arena() -> Arena {
    let mut arena = Arena::new();
    assert!(arena.join(0, 10));
    assert!(arena.join(1, 11));
    let mut c = CountdownTimer::new();
    arena.collision_with_enemy(&vec![10, 11], &mut c);
    arena.collision_with_enemy(&vec![11], &mut c);
    assert_eq!(arena.players[0].lives, 4);
    assert_eq!(arena.players[1].lives, 3);
    arena
}

#[test]
fn play_button_resets_lives_and_starts() {
    let mut arena = tired_arena();
    let mut c = CountdownTimer::new();
    assert_eq!(
        interact_with_play_button(Interaction::Hovered, &mut arena, &mut c),
        (ButtonColor::Hovered, None)
    );
    assert_eq!(arena.players[1].lives, 3);
    assert_eq!(c.duration, 2);
    assert_eq!(
        interact_with_play_button(Interaction::Idle, &mut arena, &mut c),
        (ButtonColor::Normal, None)
    );
    assert_eq!(
        interact_with_play_button(Interaction::Pressed, &mut arena, &mut c),
        (ButtonColor::Pressed, Some(AppState::InGame))
    );
    assert_eq!(arena.players[0].lives, 5);
    assert_eq!(arena.players[1].lives, 5);
    assert_eq!(c.duration, 4);
}

#[test]
fn start_button_resets_lives_and_starts() {
    let mut arena = tired_arena();
    let mut c = CountdownTimer::new();
    assert_eq!(stomp::buttons::start(false, &mut arena, &mut c), None);
    assert_eq!(arena.players[1].lives, 3);
    assert_eq!(
        stomp::buttons::start(true, &mut arena, &mut c),
        Some((ButtonColor::Pressed, AppState::InGame))
    );
    assert_eq!(arena.players[1].lives, 5);
    assert_eq!(c.duration, 4);
}

#[test]
fn player_boxes_follow_players() {
    let mut arena = Arena::new();
    assert!(arena.join(2, 20));
    assert!(arena.join(5, 21));
    let boxes = add_player_boxes(&arena.players);
    assert_eq!(boxes, vec![PlayerBox { player_id: 2 }, PlayerBox { player_id: 5 }]);
    assert!(add_player_boxes(&Vec::new()).is_empty());
    assert_eq!(arena.disconnect(2), Some(20));
    let stale = despawn_player_boxes(&boxes, &arena.players);
    assert_eq!(stale, vec![true, false]);
    let none_left = despawn_player_boxes(&boxes, &Vec::new());
    assert_eq!(none_left, vec![true, true]);
}

#[test]
fn map_borders() {
    let b = spawn_map_borders();
    assert_eq!(
        b,
        vec![
            Border { translation: Vec2::new(0, -457_500), size: Vec2::new(1_280_000, 5_000) },
            Border { translation: Vec2::new(0, 514_500), size: Vec2::new(1_280_000, 5_000) },
            Border { translation: Vec2::new(-637_500, 0), size: Vec2::new(5_000, 1_024_000) },
            Border { translation: Vec2::new(642_500, 0), size: Vec2::new(5_000, 1_024_000) },
        ]
    );
}
