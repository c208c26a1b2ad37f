use crate::gameboy::model::Model;
use crate::gameboy::model::Revision;
use crate::text::parse_unsigned;
use crate::text::split;
use crate::text::split_bytes;
use crate::text::unsigned_value;
use crate::video_builder::video_options::VideoOptions;
use vstd::prelude::*;
use vstd::string::StringSliceAdditionalSpecFns;

verus! {

/// Frames that the machine draws in a second.
pub const FRAME_RATE: i32 = 60;

/// When a render is to end, before its fadeout.
#[derive(Copy, Clone, Debug, PartialEq, Eq, Structural)]
pub enum StopCondition {
    /// After this many frames.
    Frames(u64),
    /// After the song has begun anew this many times.
    Loops(usize),
}

/// Why a string does not name a stop condition.
#[derive(Copy, Clone, Debug, PartialEq, Eq, Structural)]
pub enum StopConditionError {
    /// Not a kind and a number with one colon between them.
    InvalidFormat,
    /// The kind is none of `time`, `frames` and `loops`.
    UnknownType,
    /// What follows the colon is no number that fits.
    InvalidNumber,
    /// The time is more frames than can be counted.
    TooLong,
}

/// The bytes of `time`.
pub open spec fn time_word() -> Seq<u8> {
    seq![0x74u8, 0x69u8, 0x6Du8, 0x65u8]
}

/// The bytes of `frames`.
pub open spec fn frames_word() -> Seq<u8> {
    seq![0x66u8, 0x72u8, 0x61u8, 0x6Du8, 0x65u8, 0x73u8]
}

/// The bytes of `loops`.
pub open spec fn loops_word() -> Seq<u8> {
    seq![0x6Cu8, 0x6Fu8, 0x6Fu8, 0x70u8, 0x73u8]
}

/// The stop condition that the bytes of a string name: `time:` and a number
/// of seconds, `frames:` and a number of frames, or `loops:` and a number of
/// loops.
pub open spec fn stop_condition_of(s: Seq<u8>) -> Result<StopCondition, StopConditionError> {
    let parts = split(s, 0x3A);
    if parts.len() != 2 {
        Err(StopConditionError::InvalidFormat)
    } else if parts[0] == time_word() {
        match unsigned_value(parts[1], u64::MAX as int) {
            None => Err(StopConditionError::InvalidNumber),
            Some(seconds) => if seconds * 60 > u64::MAX {
                Err(StopConditionError::TooLong)
            } else {
                Ok(StopCondition::Frames((seconds * 60) as u64))
            },
        }
    } else if parts[0] == frames_word() {
        match unsigned_value(parts[1], u64::MAX as int) {
            None => Err(StopConditionError::InvalidNumber),
            Some(frames) => Ok(StopCondition::Frames(frames as u64)),
        }
    } else if parts[0] == loops_word() {
        match unsigned_value(parts[1], usize::MAX as int) {
            None => Err(StopConditionError::InvalidNumber),
            Some(loops) => Ok(StopCondition::Loops(loops as usize)),
        }
    } else {
        Err(StopConditionError::UnknownType)
    }
}

fn same_bytes(a: &[u8], b: &[u8]) -> (same: bool)
    ensures
        same == (a@ == b@),
{
    if a.len() != b.len() {
        return false;
    }
    let mut i: usize = 0;
    while i < a.len()
        invariant
            a@.len() == b@.len(),
            i <= a@.len(),
            forall|j: int| 0 <= j < i ==> a@[j] == b@[j],
        decreases a@.len() - i,
    {
        if a[i] != b[i] {
            return false;
        }
        i = i + 1;
    }
    assert(a@ =~= b@);
    true
}

impl StopCondition {
    /// Reads a stop condition from the bytes of a string.
    pub fn parse_bytes(s: &[u8]) -> (res: Result<StopCondition, StopConditionError>)
        ensures
            res == stop_condition_of(s@),
    {
        let parts = split_bytes(s, 0x3A);
        if parts.len() != 2 {
            return Err(StopConditionError::InvalidFormat);
        }
        let time = vec![0x74u8, 0x69u8, 0x6Du8, 0x65u8];
        let frames = vec![0x66u8, 0x72u8, 0x61u8, 0x6Du8, 0x65u8, 0x73u8];
        let loops = vec![0x6Cu8, 0x6Fu8, 0x6Fu8, 0x70u8, 0x73u8];
        assert(time@ =~= time_word());
        assert(frames@ =~= frames_word());
        assert(loops@ =~= loops_word());
        let kind = parts[0].as_slice();
        let number = parts[1].as_slice();
        if same_bytes(kind, time.as_slice()) {
            match parse_unsigned(number, u64::MAX) {
                None => Err(StopConditionError::InvalidNumber),
                Some(seconds) => {
                    if seconds > u64::MAX / 60 {
                        Err(StopConditionError::TooLong)
                    } else {
                        Ok(StopCondition::Frames(seconds * 60))
                    }
                },
            }
        } else if same_bytes(kind, frames.as_slice()) {
            match parse_unsigned(number, u64::MAX) {
                None => Err(StopConditionError::InvalidNumber),
                Some(count) => Ok(StopCondition::Frames(count)),
            }
        } else if same_bytes(kind, loops.as_slice()) {
            match parse_unsigned(number, usize::MAX as u64) {
                None => Err(StopConditionError::InvalidNumber),
                Some(count) => Ok(StopCondition::Loops(count as usize)),
            }
        } else {
            Err(StopConditionError::UnknownType)
        }
    }

    /// Reads a stop condition: `time:300`, `frames:180` or `loops:2`.
    pub fn parse(s: &str) -> (res: Result<StopCondition, StopConditionError>)
        ensures
            res == stop_condition_of(s.spec_bytes()),
    {
        StopCondition::parse_bytes(s.as_bytes())
    }
}

impl std::str::FromStr for StopCondition {
    type Err = StopConditionError;

    fn from_str(s: &str) -> (res: Result<Self, Self::Err>)
        ensures
            res == stop_condition_of(s.spec_bytes()),
    {
        StopCondition::parse(s)
    }
}

/// What is rendered: nothing yet, a song file, a tracker with its save
/// file, two trackers that are linked, or a register log with the frame rate
/// of its program and the correction of the timer.
#[derive(Clone, Debug)]
pub enum RenderInput {
    Unset,
    GBS(String),
    LSDj(String, String),
    LSDj2x(String, String, String, String),
    VGM(String, u32, i32),
}

impl RenderInput {
    /// Whether the position in the song can be watched, which is how loops
    /// are counted.
    pub open spec fn has_position(&self) -> bool {
        self is LSDj || self is LSDj2x
    }

    /// Whether the position in the song can be watched.
    pub fn tracks_position(&self) -> (yes: bool)
        ensures
            yes == self.has_position(),
    {
        match self {
            RenderInput::LSDj(_, _) => true,
            RenderInput::LSDj2x(_, _, _, _) => true,
            _ => false,
        }
    }
}

/// All that a render is told.
#[derive(Clone)]
pub struct RendererOptions {
    pub input: RenderInput,
    pub video_options: VideoOptions,
    pub track_index: u8,
    pub track_index_2x: u8,
    pub stop_condition: StopCondition,
    /// Length of the fadeout in frames.
    pub fadeout_length: u64,
    pub auto_lsdj_sync: bool,
    pub model: Model,
}

impl Default for RendererOptions {
    /// Five minutes and a fadeout of three seconds, on the first model.
    fn default() -> (options: Self)
        ensures
            options.input is Unset,
            options.track_index == 0,
            options.track_index_2x == 0,
            options.stop_condition == StopCondition::Frames(18000),
            options.fadeout_length == 180,
            !options.auto_lsdj_sync,
            options.model == Model::DMG(Revision::RevB),
            options.video_options.video_time_base == (70_224i32, 4_194_304i32),
            options.video_options.video_codec@ == "libx264"@,
            options.video_options.pixel_format_in@ == "rgba"@,
            options.video_options.pixel_format_out@ == "yuv420p"@,
            options.video_options.resolution_in == (960u32, 540u32),
            options.video_options.resolution_out == (1920u32, 1080u32),
            options.video_options.audio_time_base == (1i32, 44_100i32),
            options.video_options.audio_codec@ == "aac"@,
            options.video_options.audio_channels == 2,
            options.video_options.sample_format_in@ == "s16"@,
            options.video_options.sample_format_out@ == "fltp"@,
            options.video_options.sample_rate == 44_100,
            options.video_options.background_path is None,
            options.video_options.output_path@ == Seq::<char>::empty(),
            options.video_options.metadata@.len() == 0,
            options.video_options.video_codec_params@.len() == 0,
            options.video_options.audio_codec_params@.len() == 0,
    {
        RendererOptions {
            input: RenderInput::Unset,
            video_options: VideoOptions::default(),
            track_index: 0,
            track_index_2x: 0,
            stop_condition: StopCondition::Frames(300 * 60),
            fadeout_length: 180,
            auto_lsdj_sync: false,
            model: Model::DMG(Revision::RevB),
        }
    }
}

} // verus!
