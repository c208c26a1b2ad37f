//! The scheduling of audio and video frames for the encoder, and the work
//! on raw frames that is done before they are handed to it.

pub mod backgrounds;
pub mod encoding;
pub mod video_options;

pub use video_options::VideoOptions;

use video_options::KeyValue;
use vstd::prelude::*;
use vstd::string::StringExecFns;

verus! {

/// Most frames between two frames that are coded by themselves.
pub const GOP_SIZE: u32 = 12;

/// Most frames in a row that are coded from both their neighbours.
pub const MAX_B_FRAMES: usize = 2;

/// Bits per second of the audio stream.
pub const AUDIO_BIT_RATE: usize = 384_000;

/// Samples that go to an audio encoder at once where its codec fixes no
/// number.
pub const VARIABLE_FRAME_SIZE: usize = 1024;

/// How a picture is scaled.
#[derive(Copy, Clone, Debug, PartialEq, Eq, Structural)]
pub enum ScalingMode {
    /// Every pixel of the result is the nearest pixel of the picture.
    Point,
    /// Pixels of the result are mixed from their neighbours.
    FastBilinear,
}

/// Whether two resolutions have the same ratio of width to height.
pub open spec fn same_aspect(resolution_in: (u32, u32), resolution_out: (u32, u32)) -> bool {
    resolution_in.0 * resolution_out.1 == resolution_out.0 * resolution_in.1
}

/// The scaling for a picture: point scaling keeps pixels sharp and is used
/// where the ratio of width to height stays.
pub fn scaling_mode(resolution_in: (u32, u32), resolution_out: (u32, u32)) -> (mode: ScalingMode)
    ensures
        mode == if same_aspect(resolution_in, resolution_out) {
            ScalingMode::Point
        } else {
            ScalingMode::FastBilinear
        },
{
    assert(resolution_in.0 * resolution_out.1 <= 0xFFFF_FFFF * 0xFFFF_FFFF && resolution_out.0
        * resolution_in.1 <= 0xFFFF_FFFF * 0xFFFF_FFFF) by (nonlinear_arith)
        requires
            resolution_in.0 <= 0xFFFF_FFFF,
            resolution_in.1 <= 0xFFFF_FFFF,
            resolution_out.0 <= 0xFFFF_FFFF,
            resolution_out.1 <= 0xFFFF_FFFF,
    ;
    let left: u64 = resolution_in.0 as u64 * resolution_out.1 as u64;
    let right: u64 = resolution_out.0 as u64 * resolution_in.1 as u64;
    if left == right {
        ScalingMode::Point
    } else {
        ScalingMode::FastBilinear
    }
}

/// How a raw frame becomes a frame for the encoder.
#[derive(Copy, Clone, Debug, PartialEq, Eq)]
pub struct VideoPlan {
    /// Whether the frame is scaled before its pixel format is converted.
    /// With a background it is: the frame is laid over the background between
    /// the two, while it still has its opacity. Without one the conversion
    /// comes first, since the converted frame is faster to scale.
    pub scale_first: bool,
    /// Resolution at which the pixel format is converted.
    pub convert_resolution: (u32, u32),
    pub scaling: ScalingMode,
}

/// Plans the way of a raw frame to the encoder.
pub fn plan_video(
    resolution_in: (u32, u32),
    resolution_out: (u32, u32),
    has_background: bool,
) -> (plan: VideoPlan)
    ensures
        plan.scale_first == has_background,
        plan.convert_resolution == if has_background {
            resolution_out
        } else {
            resolution_in
        },
        plan.scaling == if same_aspect(resolution_in, resolution_out) {
            ScalingMode::Point
        } else {
            ScalingMode::FastBilinear
        },
{
    VideoPlan {
        scale_first: has_background,
        convert_resolution: if has_background {
            resolution_out
        } else {
            resolution_in
        },
        scaling: scaling_mode(resolution_in, resolution_out),
    }
}

/// The codecs that are given options of their own.
#[derive(Copy, Clone, Debug, PartialEq, Eq, Structural)]
pub enum CodecFamily {
    H264,
    H265,
    Aac,
    Other,
}

/// A key and a value as text.
pub open spec fn entry(pair: KeyValue) -> (Seq<char>, Seq<char>) {
    (pair.key@, pair.value@)
}

/// The keys and values of `pairs` as text.
pub open spec fn entries(pairs: Seq<KeyValue>) -> Seq<(Seq<char>, Seq<char>)> {
    Seq::new(pairs.len(), |i: int| entry(pairs[i]))
}

/// The options that a codec is given where nothing else is asked for.
pub open spec fn default_entries(family: CodecFamily) -> Seq<(Seq<char>, Seq<char>)> {
    match family {
        CodecFamily::H264 | CodecFamily::H265 => seq![
            ("preset"@, "veryfast"@),
            ("crf"@, "20"@),
            ("tune"@, "film"@),
        ],
        CodecFamily::Aac => seq![("profile"@, "aac_low"@)],
        CodecFamily::Other => Seq::empty(),
    }
}

fn key_value(key: &str, value: &str) -> (pair: KeyValue)
    ensures
        entry(pair) == (key@, value@),
{
    KeyValue { key: String::from_str(key), value: String::from_str(value) }
}

/// The options for a codec: its defaults, then `params` in their order. An
/// option that is set again takes its later value.
pub fn codec_options(family: CodecFamily, params: &Vec<KeyValue>) -> (options: Vec<KeyValue>)
    ensures
        entries(options@) == default_entries(family) + entries(params@),
{
    let mut options: Vec<KeyValue> = Vec::new();
    match family {
        CodecFamily::H264 | CodecFamily::H265 => {
            options.push(key_value("preset", "veryfast"));
            options.push(key_value("crf", "20"));
            options.push(key_value("tune", "film"));
        },
        CodecFamily::Aac => {
            options.push(key_value("profile", "aac_low"));
        },
        CodecFamily::Other => {},
    }
    assert(entries(options@) =~= default_entries(family));
    let mut i: usize = 0;
    while i < params.len()
        invariant
            i <= params@.len(),
            entries(options@) == default_entries(family) + entries(params@.take(i as int)),
        decreases params@.len() - i,
    {
        let ghost before = entries(options@);
        let pair = key_value(params[i].key.as_str(), params[i].value.as_str());
        options.push(pair);
        proof {
            assert(entries(options@) =~= before.push(entry(params@[i as int])));
            assert(entries(params@.take(i + 1)) =~= entries(params@.take(i as int)).push(
                entry(params@[i as int]),
            ));
            assert(entries(options@) =~= default_entries(family) + entries(params@.take(i + 1)));
        }
        i = i + 1;
    }
    assert(params@.take(i as int) =~= params@);
    options
}

/// The options for a container: an MP4 file gets its index at the front,
/// so that it can be played while it is still loading.
pub fn container_options(format_name: &str) -> (options: Vec<KeyValue>)
    ensures
        entries(options@) == if format_name@ == "mp4"@ {
            seq![("movflags"@, "faststart"@)]
        } else {
            Seq::<(Seq<char>, Seq<char>)>::empty()
        },
{
    let mut options: Vec<KeyValue> = Vec::new();
    let name = String::from_str(format_name);
    let mp4 = String::from_str("mp4");
    if name.eq(&mp4) {
        options.push(key_value("movflags", "faststart"));
        assert(entries(options@) =~= seq![("movflags"@, "faststart"@)]);
    } else {
        assert(entries(options@) =~= Seq::<(Seq<char>, Seq<char>)>::empty());
    }
    options
}

} // verus!
