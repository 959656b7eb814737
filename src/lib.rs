use vstd::prelude::*;

pub mod component;
pub mod game;
pub mod input;
pub mod text;
pub mod two_choice;
pub mod tween;

verus! {

/// The cursor blinks with a period of seventy frames: visible for the first half.
pub fn cursor_visible(tick: u64) -> (r: bool)
    ensures
        r == (tick % 70 < 35),
{
    tick % 70 < 35
}

} // verus!
