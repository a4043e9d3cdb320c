//! What the player asks for in one frame.

use vstd::prelude::*;

verus! {

/// The player's wishes for one frame. A wish that is "pressed" holds for the
/// frame in which a key went down; one that is "held" holds for as long as the
/// key stays down.
#[derive(Clone, Copy, Debug, PartialEq, Eq, Structural)]
pub struct Input {
    /// Pause the game, or go on with a paused game.
    pub pause_toggle: bool,
    /// Drop the piece as far as it goes and lock it.
    pub hard_drop: bool,
    /// Move one column to the left, pressed.
    pub left_pressed: bool,
    /// Move to the left, held.
    pub left_held: bool,
    /// Move one column to the right, pressed.
    pub right_pressed: bool,
    /// Move to the right, held.
    pub right_held: bool,
    /// Turn a quarter counter-clockwise.
    pub rotate_ccw: bool,
    /// Turn a quarter clockwise.
    pub rotate_cw: bool,
    /// Fall fast, held.
    pub soft_drop: bool,
    /// Silence the music, or give it its voice back.
    pub mute: bool,
    /// Play the next track.
    pub next_song: bool,
    /// Set the piece aside, or take the piece that was set aside.
    pub hold: bool,
}

impl Input {
    /// Nothing is asked for.
    pub open spec fn spec_none() -> Input {
        Input {
            pause_toggle: false,
            hard_drop: false,
            left_pressed: false,
            left_held: false,
            right_pressed: false,
            right_held: false,
            rotate_ccw: false,
            rotate_cw: false,
            soft_drop: false,
            mute: false,
            next_song: false,
            hold: false,
        }
    }

    /// An input that asks for nothing.
    #[verifier::when_used_as_spec(spec_none)]
    pub fn none() -> (r: Input)
        ensures
            r == Input::spec_none(),
    {
        Input {
            pause_toggle: false,
            hard_drop: false,
            left_pressed: false,
            left_held: false,
            right_pressed: false,
            right_held: false,
            rotate_ccw: false,
            rotate_cw: false,
            soft_drop: false,
            mute: false,
            next_song: false,
            hold: false,
        }
    }
}

} // verus!
