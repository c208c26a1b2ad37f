use super::model::Model;
use vstd::prelude::*;

verus! {

/// A button of the machine.
#[derive(Copy, Clone, Debug, PartialEq, Eq, Structural)]
pub enum JoypadButton {
    Right,
    Left,
    Up,
    Down,
    A,
    B,
    Select,
    Start,
}

/// Milliseconds that a button of a macro is held where nothing else is
/// asked for.
pub const DEFAULT_PRESS_MS: u64 = 100;

/// Frames that a step of an input macro lasts: the time at 60 frames a
/// second, rounded to the nearest frame, and twice that on a slow model where
/// the time was asked for. Where no time is asked for, a tenth of a second.
pub open spec fn macro_frame_count(duration_ms: Option<u64>, model: Model) -> int {
    match duration_ms {
        None => (DEFAULT_PRESS_MS * 60 + 500) / 1000,
        Some(ms) => {
            let frames = (ms * 60 + 500) / 1000;
            if model.is_slow() {
                2 * frames
            } else {
                frames
            }
        },
    }
}

/// The number of frames that a step of an input macro is held on `model`.
pub fn macro_frames(duration_ms: Option<u64>, model: Model) -> (frames: u128)
    ensures
        frames == macro_frame_count(duration_ms, model),
{
    match duration_ms {
        None => ((DEFAULT_PRESS_MS as u128) * 60 + 500) / 1000,
        Some(ms) => {
            let frames: u128 = ((ms as u128) * 60 + 500) / 1000;
            if model.slow() {
                2 * frames
            } else {
                frames
            }
        },
    }
}

} // verus!
