use crate::text::find_byte;
use crate::text::index_of;
use crate::text::lemma_index_of;
use vstd::prelude::*;
use vstd::string::StringExecFns;
use vstd::string::StringSliceAdditionalSpecFns;
use vstd::utf8::encode_utf8;
use vstd::utf8::encode_utf8_valid_utf8;
use vstd::utf8::is_char_boundary;
use vstd::utf8::is_char_boundary_iff_not_is_continuation_byte;
use vstd::utf8::valid_utf8;
use vstd::utf8::valid_utf8_split;

verus! {

/// A key and its value: an item of metadata, or an option of a codec.
#[derive(Clone, Debug)]
pub struct KeyValue {
    pub key: String,
    pub value: String,
}

/// What a video file is to be made of. Time bases are fractions of a
/// second, numerator first; resolutions are width and height.
pub struct VideoOptions {
    pub output_path: String,
    /// Keys and values of the container's metadata.
    pub metadata: Vec<KeyValue>,
    pub background_path: Option<String>,
    pub video_time_base: (i32, i32),
    pub video_codec: String,
    /// Keys and values handed to the video codec, later ones first in rank.
    pub video_codec_params: Vec<KeyValue>,
    pub pixel_format_in: String,
    pub pixel_format_out: String,
    pub resolution_in: (u32, u32),
    pub resolution_out: (u32, u32),
    pub audio_time_base: (i32, i32),
    pub audio_codec: String,
    /// Keys and values handed to the audio codec, later ones first in rank.
    pub audio_codec_params: Vec<KeyValue>,
    pub audio_channels: i32,
    pub sample_format_in: String,
    pub sample_format_out: String,
    pub sample_rate: i32,
}

impl Clone for VideoOptions {
    fn clone(&self) -> (copy: Self)
        ensures
            copy.output_path@ == self.output_path@,
            copy.video_time_base == self.video_time_base,
            copy.video_codec@ == self.video_codec@,
            copy.pixel_format_in@ == self.pixel_format_in@,
            copy.pixel_format_out@ == self.pixel_format_out@,
            copy.resolution_in == self.resolution_in,
            copy.resolution_out == self.resolution_out,
            copy.audio_time_base == self.audio_time_base,
            copy.audio_codec@ == self.audio_codec@,
            copy.audio_channels == self.audio_channels,
            copy.sample_format_in@ == self.sample_format_in@,
            copy.sample_format_out@ == self.sample_format_out@,
            copy.sample_rate == self.sample_rate,
    {
        VideoOptions {
            output_path: self.output_path.clone(),
            metadata: self.metadata.clone(),
            background_path: self.background_path.clone(),
            video_time_base: self.video_time_base,
            video_codec: self.video_codec.clone(),
            video_codec_params: self.video_codec_params.clone(),
            pixel_format_in: self.pixel_format_in.clone(),
            pixel_format_out: self.pixel_format_out.clone(),
            resolution_in: self.resolution_in,
            resolution_out: self.resolution_out,
            audio_time_base: self.audio_time_base,
            audio_codec: self.audio_codec.clone(),
            audio_codec_params: self.audio_codec_params.clone(),
            audio_channels: self.audio_channels,
            sample_format_in: self.sample_format_in.clone(),
            sample_format_out: self.sample_format_out.clone(),
            sample_rate: self.sample_rate,
        }
    }
}

impl Default for VideoOptions {
    /// A 1080p H.264 and AAC file at the frame rate of the machine:
    /// 70224 cycles of its 4194304 Hz clock per frame.
    fn default() -> (options: Self)
        ensures
            options.output_path@ == Seq::<char>::empty(),
            options.metadata@ == Seq::<KeyValue>::empty(),
            options.background_path is None,
            options.video_time_base == (70_224i32, 4_194_304i32),
            options.video_codec@ == "libx264"@,
            options.video_codec_params@ == Seq::<KeyValue>::empty(),
            options.pixel_format_in@ == "rgba"@,
            options.pixel_format_out@ == "yuv420p"@,
            options.resolution_in == (960u32, 540u32),
            options.resolution_out == (1920u32, 1080u32),
            options.audio_time_base == (1i32, 44_100i32),
            options.audio_codec@ == "aac"@,
            options.audio_codec_params@ == Seq::<KeyValue>::empty(),
            options.audio_channels == 2,
            options.sample_format_in@ == "s16"@,
            options.sample_format_out@ == "fltp"@,
            options.sample_rate == 44_100,
    {
        VideoOptions {
            output_path: String::new(),
            metadata: Vec::new(),
            background_path: None,
            video_time_base: (70_224, 4_194_304),
            video_codec: String::from_str("libx264"),
            video_codec_params: Vec::new(),
            pixel_format_in: String::from_str("rgba"),
            pixel_format_out: String::from_str("yuv420p"),
            resolution_in: (960, 540),
            resolution_out: (1920, 1080),
            audio_time_base: (1, 44_100),
            audio_codec: String::from_str("aac"),
            audio_codec_params: Vec::new(),
            audio_channels: 2,
            sample_format_in: String::from_str("s16"),
            sample_format_out: String::from_str("fltp"),
            sample_rate: 44_100,
        }
    }
}

/// The key and the value that the bytes of an option hold: what stands
/// before its first `=` and what stands behind it. `None` where it has none.
pub open spec fn option_parts(s: Seq<u8>) -> Option<(Seq<u8>, Seq<u8>)> {
    let at = index_of(s, 0x3D);
    if at < s.len() {
        Some((s.take(at), s.skip(at + 1)))
    } else {
        None
    }
}

/// Reads an option of a codec, written as `option=value`.
pub fn codec_option_value_parser(s: &str) -> (res: Result<(String, String), String>)
    ensures
        match res {
            Ok(pair) => option_parts(s.spec_bytes()) == Some(
                (encode_utf8(pair.0@), encode_utf8(pair.1@)),
            ),
            Err(message) => option_parts(s.spec_bytes()) is None && message@
                == "Invalid option specification (must be of the form 'option=value')."@,
        },
{
    let bytes = s.as_bytes();
    let at = find_byte(bytes, 0, 0x3D);
    proof {
        assert(bytes@.skip(0) =~= bytes@);
        lemma_index_of(bytes@, 0x3D);
    }
    if at == bytes.len() {
        return Err(
            String::from_str("Invalid option specification (must be of the form 'option=value')."),
        );
    }
    proof {
        encode_utf8_valid_utf8(s@);
        is_char_boundary_iff_not_is_continuation_byte(bytes@, at as int);
        valid_utf8_split(bytes@, at as int);
    }
    let (key, rest) = s.split_at(at);
    proof {
        let tail = rest.spec_bytes();
        assert(tail[0] == 0x3D);
        reveal_with_fuel(is_char_boundary, 2);
        assert(is_char_boundary(tail, 1));
    }
    let (_, value) = rest.split_at(1);
    proof {
        assert(key.spec_bytes() =~= bytes@.take(at as int));
        assert(value.spec_bytes() =~= bytes@.skip(at + 1));
    }
    Ok((String::from_str(key), String::from_str(value)))
}

} // verus!
