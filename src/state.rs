//! The application's and the round's states, and the switches between them.

use vstd::prelude::*;

verus! {

/// Which screen the application shows.
#[derive(Clone, Copy, Debug, PartialEq, Eq, Structural)]
pub enum AppState {
    Menu,
    InGame,
    GameOver,
}

/// Whether the round is running.
#[derive(Clone, Copy, Debug, PartialEq, Eq, Structural)]
pub enum GameState {
    Paused,
    Running,
}

/// Seconds counted down before a round resumes.
pub const ROUND_COUNTDOWN: u8 = 4;

/// The countdown shown before play resumes: `duration` seconds left,
/// counted by a repeating timer of `period_ms` milliseconds.
#[derive(Clone, Copy, Debug, PartialEq, Eq, Structural)]
pub struct CountdownTimer {
    pub period_ms: u64,
    pub duration: u8,
}

pub open spec fn initial_countdown() -> CountdownTimer {
    CountdownTimer { period_ms: 1000, duration: 2 }
}

impl CountdownTimer {
    pub fn new() -> (r: CountdownTimer)
        ensures
            r == initial_countdown(),
    {
        CountdownTimer { period_ms: 1000, duration: 2 }
    }
}

impl Default for CountdownTimer {
    fn default() -> (r: CountdownTimer)
        ensures
            r == initial_countdown(),
    {
        CountdownTimer::new()
    }
}

/// The pause key flips a running round to paused and a paused one to
/// running; the result is the state to switch to, if any.
pub fn toggle_gamestate(pause_pressed: bool, current: GameState) -> (next: Option<GameState>)
    ensures
        next == (if !pause_pressed {
            None
        } else {
            match current {
                GameState::Running => Some(GameState::Paused),
                GameState::Paused => Some(GameState::Running),
            }
        }),
{
    if !pause_pressed {
        return None;
    }
    match current {
        GameState::Running => Some(GameState::Paused),
        GameState::Paused => Some(GameState::Running),
    }
}

/// The menu key flips between the menu and the game; it does nothing on
/// the game-over screen.
pub fn toggle_appstate(menu_pressed: bool, current: AppState) -> (next: Option<AppState>)
    ensures
        next == (if !menu_pressed {
            None
        } else {
            match current {
                AppState::InGame => Some(AppState::Menu),
                AppState::Menu => Some(AppState::InGame),
                AppState::GameOver => None,
            }
        }),
{
    if !menu_pressed {
        return None;
    }
    match current {
        AppState::InGame => Some(AppState::Menu),
        AppState::Menu => Some(AppState::InGame),
        AppState::GameOver => None,
    }
}

/// A player's start press: the countdown is set and the game begins.
pub fn start(start_pressed: bool, countdown: &mut CountdownTimer) -> (next: Option<AppState>)
    ensures
        start_pressed ==> *final(countdown) == (CountdownTimer { duration: ROUND_COUNTDOWN, ..*old(countdown) })
            && next == Some(AppState::InGame),
        !start_pressed ==> *final(countdown) == *old(countdown) && next is None,
{
    if start_pressed {
        countdown.duration = ROUND_COUNTDOWN;
        Some(AppState::InGame)
    } else {
        None
    }
}

} // verus!
