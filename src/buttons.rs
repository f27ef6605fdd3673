//! The menu buttons, and the start press that resets lives.

use vstd::prelude::*;
use crate::possession::Arena;
use crate::state::{AppState, CountdownTimer, ROUND_COUNTDOWN};

verus! {

/// How the pointer stands with a button.
#[derive(Clone, Copy, Debug, PartialEq, Eq, Structural)]
pub enum Interaction {
    Pressed,
    Hovered,
    Idle,
}

/// A button's background.
#[derive(Clone, Copy, Debug, PartialEq, Eq, Structural)]
pub enum ButtonColor {
    Normal,
    Hovered,
    Pressed,
}

pub open spec fn button_color(i: Interaction) -> ButtonColor {
    match i {
        Interaction::Pressed => ButtonColor::Pressed,
        Interaction::Hovered => ButtonColor::Hovered,
        Interaction::Idle => ButtonColor::Normal,
    }
}

fn color_of(i: Interaction) -> (r: ButtonColor)
    ensures
        r == button_color(i),
{
    match i {
        Interaction::Pressed => ButtonColor::Pressed,
        Interaction::Hovered => ButtonColor::Hovered,
        Interaction::Idle => ButtonColor::Normal,
    }
}

/// The quit button: its colour, and whether the application is to exit.
pub fn interact_with_quit_button(interaction: Interaction) -> (r: (ButtonColor, bool))
    ensures
        r == (button_color(interaction), interaction == Interaction::Pressed),
{
    let exit = match interaction {
        Interaction::Pressed => true,
        _ => false,
    };
    (color_of(interaction), exit)
}


/// The play button: its colour; when pressed, every player's lives are
/// reset, the countdown is set and the game begins.
pub fn interact_with_play_button(
    interaction: Interaction,
    arena: &mut Arena,
    countdown: &mut CountdownTimer,
) -> (r: (ButtonColor, Option<AppState>))
    requires
        old(arena)@.wf(),
    ensures
        final(arena)@.wf(),
        r.0 == button_color(interaction),
        interaction == Interaction::Pressed ==> final(arena)@ == old(arena)@.lives_reset()
            && *final(countdown) == (CountdownTimer { duration: ROUND_COUNTDOWN, ..*old(countdown) })
            && r.1 == Some(AppState::InGame),
        interaction != Interaction::Pressed ==> final(arena)@ == old(arena)@
            && *final(countdown) == *old(countdown) && r.1 is None,
{
    let color = color_of(interaction);
    match interaction {
        Interaction::Pressed => {
            arena.reset_lives();
            countdown.duration = ROUND_COUNTDOWN;
            (color, Some(AppState::InGame))
        },
        _ => (color, None),
    }
}

/// A player's start press on the menu: the start button shows pressed,
/// every player's lives are reset, the countdown is set and the game begins.
pub fn start(
    start_pressed: bool,
    arena: &mut Arena,
    countdown: &mut CountdownTimer,
) -> (r: Option<(ButtonColor, AppState)>)
    requires
        old(arena)@.wf(),
    ensures
        final(arena)@.wf(),
        start_pressed ==> final(arena)@ == old(arena)@.lives_reset()
            && *final(countdown) == (CountdownTimer { duration: ROUND_COUNTDOWN, ..*old(countdown) })
            && r == Some((ButtonColor::Pressed, AppState::InGame)),
        !start_pressed ==> final(arena)@ == old(arena)@ && *final(countdown) == *old(countdown) && r is None,
{
    if start_pressed {
        arena.reset_lives();
        countdown.duration = ROUND_COUNTDOWN;
        Some((ButtonColor::Pressed, AppState::InGame))
    } else {
        None
    }
}

} // verus!
