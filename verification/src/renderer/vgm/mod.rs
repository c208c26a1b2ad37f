pub mod converter;
pub mod gd3;
pub mod vgm;

pub use vgm::Vgm;

use converter::frames_of_samples;
use converter::samples_to_frames;
use vgm::loop_sample_count_of;
use vgm::sample_count_of;
use vstd::prelude::*;

verus! {

/// Length in frames of a log that is played with its looped part `loops`
/// times: the part before the loop, then the looped part `loops` times, each
/// rounded to whole frames by itself.
pub open spec fn duration_of(data: Seq<u8>, engine_rate: u32, loops: usize) -> int {
    frames_of_samples((sample_count_of(data) - loop_sample_count_of(data)) as u32, engine_rate)
        + loops * frames_of_samples(loop_sample_count_of(data) as u32, engine_rate)
}

/// The length of a log in frames. It has to fit a `usize`.
pub fn duration_frames(vgm: &Vgm, engine_rate: u32, loops: usize) -> (frames: usize)
    requires
        duration_of(vgm@, engine_rate, loops) <= usize::MAX,
    ensures
        frames == duration_of(vgm@, engine_rate, loops),
{
    let loop_samples = vgm.loop_sample_count();
    let intro_samples = vgm.sample_count() - loop_samples;
    let loop_frames = samples_to_frames(loop_samples, engine_rate) as usize;
    let intro_frames = samples_to_frames(intro_samples, engine_rate) as usize;
    assert(loops * loop_frames >= 0) by (nonlinear_arith)
        requires
            loops >= 0,
            loop_frames >= 0,
    ;
    intro_frames + (loops * loop_frames)
}

} // verus!
