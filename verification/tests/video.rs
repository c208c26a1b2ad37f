use gb_presenter::video_builder::backgrounds::background_kinds;
use gb_presenter::video_builder::backgrounds::decoder_rests;
use gb_presenter::video_builder::backgrounds::frame_source;
use gb_presenter::video_builder::backgrounds::BackgroundKind;
use gb_presenter::video_builder::backgrounds::DebugBackground;
use gb_presenter::video_builder::backgrounds::FrameSource;
use gb_presenter::video_builder::codec_options;
use gb_presenter::video_builder::container_options;
use gb_presenter::video_builder::encoding::audio_frame_size;
use gb_presenter::video_builder::encoding::copy_data_to_frame;
use gb_presenter::video_builder::encoding::fast_background_blit;
use gb_presenter::video_builder::encoding::FrameError;
use gb_presenter::video_builder::encoding::MuxSchedule;
use gb_presenter::video_builder::encoding::Stream;
use gb_presenter::video_builder::plan_video;
use gb_presenter::video_builder::scaling_mode;
use gb_presenter::video_builder::video_options::KeyValue;
use gb_presenter::video_builder::video_options::VideoOptions;
use gb_presenter::video_builder::CodecFamily;
use gb_presenter::video_builder::ScalingMode;

fn pairs(options: &[KeyValue]) -> Vec<(&str, &str)> {
    options.iter().map(|o| (o.key.as_str(), o.value.as_str())).collect()
}

#[test]
fn data_of_the_planes_size_is_copied() {
    let mut plane = vec![9u8; 12];
    let data: Vec<u8> = (0..12).collect();
    assert_eq!(copy_data_to_frame(&mut plane, 3, 4, &data), Ok(()));
    assert_eq!(plane, data);
}

#[test]
fn narrow_lines_are_padded() {
    let mut plane = vec![9u8; 12];
    let data = [1u8, 2, 3, 4, 5, 6];
    assert_eq!(copy_data_to_frame(&mut plane, 3, 4, &data), Ok(()));
    assert_eq!(plane, vec![1, 2, 0, 0, 3, 4, 0, 0, 5, 6, 0, 0]);
}

#[test]
fn what_lies_behind_the_lines_stays() {
    // The plane has two whole lines and a rest; the frame is a line high.
    let mut plane = vec![9u8; 11];
    assert_eq!(copy_data_to_frame(&mut plane, 1, 4, &[7, 8]), Ok(()));
    assert_eq!(plane, vec![7, 8, 0, 0, 9, 9, 9, 9, 9, 9, 9]);
    // The frame is higher than the plane has whole lines.
    let mut plane = vec![9u8; 11];
    assert_eq!(copy_data_to_frame(&mut plane, 3, 4, &[1, 2, 3]), Ok(()));
    assert_eq!(plane, vec![1, 0, 0, 0, 2, 0, 0, 0, 9, 9, 9]);
}

#[test]
fn wide_lines_are_refused() {
    let mut plane = vec![9u8; 12];
    let data = [1u8; 15];
    assert_eq!(copy_data_to_frame(&mut plane, 3, 4, &data), Err(FrameError::StrideTooSmall));
    assert_eq!(plane, vec![9u8; 12]);
    let data = [1u8; 24];
    assert_eq!(copy_data_to_frame(&mut plane, 6, 4, &data), Err(FrameError::StrideTooSmall));
}

#[test]
fn odd_sizes_are_refused() {
    let mut plane = vec![9u8; 12];
    assert_eq!(copy_data_to_frame(&mut plane, 3, 4, &[1; 7]), Err(FrameError::BadSize));
    assert_eq!(copy_data_to_frame(&mut plane, 3, 4, &[1; 2]), Err(FrameError::BadSize));
    assert_eq!(copy_data_to_frame(&mut plane, 0, 4, &[1; 2]), Err(FrameError::BadSize));
    assert_eq!(copy_data_to_frame(&mut plane, 3, 4, &[]), Err(FrameError::BadSize));
    assert_eq!(plane, vec![9u8; 12]);
    let mut empty: Vec<u8> = Vec::new();
    assert_eq!(copy_data_to_frame(&mut empty, 0, 0, &[]), Ok(()));
}

#[test]
fn opaque_pixel_covers_the_background() {
    let mut fg = vec![255u8, 128, 7, 255];
    fast_background_blit(&mut fg, &[200, 100, 50, 255]);
    // 255 * c >> 8 joined with (1 * (bg / 2)) >> 8, which is 0.
    assert_eq!(fg, vec![254, 127, 6, 255]);
}

#[test]
fn clear_pixel_shows_the_dimmed_background() {
    let mut fg = vec![0u8, 0, 0, 0];
    fast_background_blit(&mut fg, &[200, 101, 1, 77]);
    assert_eq!(fg, vec![100, 50, 0, 0]);
}

#[test]
fn half_clear_pixel_is_blended() {
    let mut fg = vec![64u8, 0, 128, 128, 1, 2, 3, 4];
    fast_background_blit(&mut fg, &[200, 100, 50, 0, 255, 255, 255, 255]);
    // Background: 100, 50, 25 at weight 128 of 256: 50, 25, 12.
    // Foreground at weight 128: 32, 0, 64. Joined bit by bit.
    assert_eq!(&fg[..4], &[50 | 32, 25, 12 | 64, 128]);
    // Opacity 4: background 127 * 252 >> 8 = 125, foreground 0.
    assert_eq!(&fg[4..], &[125, 125, 125, 4]);
}

#[test]
fn only_whole_pixels_of_both_planes_are_blended() {
    let mut fg = vec![10u8, 20, 30, 255, 10, 20, 30, 255, 10, 20];
    fast_background_blit(&mut fg, &[0, 0, 0, 0, 1, 2, 3]);
    assert_eq!(fg, vec![9, 19, 29, 255, 10, 20, 30, 255, 10, 20]);
    let mut fg = vec![10u8, 20, 30];
    fast_background_blit(&mut fg, &[0, 0, 0, 0]);
    assert_eq!(fg, vec![10, 20, 30]);
}

#[test]
fn streams_take_turns() {
    let mut schedule = MuxSchedule::new();
    let mut order = Vec::new();
    let mut audio_left = 10;
    let mut video_left = 10;
    // An encoder that gives a packet for every frame.
    while let Some(stream) = schedule.next_stream(audio_left > 0, video_left > 0) {
        let pts = schedule.stamp(stream, 1024).unwrap();
        match stream {
            Stream::Audio => audio_left -= 1,
            Stream::Video => video_left -= 1,
        }
        schedule.packet_written(stream).unwrap();
        order.push((stream, pts));
    }
    assert_eq!(order.len(), 20);
    for (i, (stream, pts)) in order.iter().enumerate() {
        if i % 2 == 0 {
            assert_eq!((*stream, *pts), (Stream::Audio, 1024 * (i as i64 / 2)));
        } else {
            assert_eq!((*stream, *pts), (Stream::Video, i as i64 / 2));
        }
    }
    // Within each stream presentation times go up.
    for stream in [Stream::Audio, Stream::Video] {
        let times: Vec<i64> = order.iter().filter(|(s, _)| *s == stream).map(|(_, p)| *p).collect();
        assert!(times.windows(2).all(|w| w[0] < w[1]));
    }
    assert_eq!(schedule.encoded_video_duration((1, 60)), Some(10_000_000_000 / 60));
}

#[test]
fn video_goes_on_while_audio_is_ahead() {
    let mut schedule = MuxSchedule::new();
    assert_eq!(schedule.next_stream(false, false), None);
    assert_eq!(schedule.next_stream(true, false), Some(Stream::Audio));
    assert_eq!(schedule.next_stream(false, true), Some(Stream::Video));
    assert_eq!(schedule.next_stream(true, true), Some(Stream::Audio));
    schedule.packet_written(Stream::Audio).unwrap();
    // Audio has a packet more than video.
    assert_eq!(schedule.next_stream(true, true), Some(Stream::Video));
    assert_eq!(schedule.next_stream(true, false), None);
    schedule.packet_written(Stream::Video).unwrap();
    schedule.packet_written(Stream::Video).unwrap();
    assert_eq!(schedule.next_stream(true, true), Some(Stream::Audio));
    assert_eq!(schedule.next_stream(true, false), Some(Stream::Audio));
}

#[test]
fn a_frame_without_packet_does_not_count() {
    let mut schedule = MuxSchedule::new();
    assert_eq!(schedule.stamp(Stream::Video, 1024), Ok(0));
    assert_eq!(schedule.stamp(Stream::Video, 1024), Ok(1));
    assert_eq!(schedule.stamp(Stream::Audio, 1024), Ok(0));
    assert_eq!(schedule.stamp(Stream::Audio, 960), Ok(1024));
    assert_eq!(schedule.stamp(Stream::Audio, 0), Ok(1984));
    assert_eq!(schedule.stamp(Stream::Audio, 1), Ok(1984));
    // No packet was written: audio is still due first.
    assert_eq!(schedule.next_stream(true, true), Some(Stream::Audio));
}

#[test]
fn draining_ends_when_both_encoders_are_empty() {
    assert!(!MuxSchedule::drained(true, true));
    assert!(!MuxSchedule::drained(true, false));
    assert!(!MuxSchedule::drained(false, true));
    assert!(MuxSchedule::drained(false, false));
}

#[test]
fn video_duration() {
    let mut schedule = MuxSchedule::new();
    assert_eq!(schedule.encoded_video_duration((70_224, 4_194_304)), Some(0));
    for _ in 0..60 {
        schedule.stamp(Stream::Video, 0).unwrap();
    }
    assert_eq!(
        schedule.encoded_video_duration((70_224, 4_194_304)),
        Some(60 * 70_224 * 1_000_000_000 / 4_194_304)
    );
    assert_eq!(schedule.encoded_video_duration((1, 0)), None);
    assert_eq!(schedule.encoded_video_duration((1, -60)), None);
    assert_eq!(schedule.encoded_video_duration((-1, 60)), None);
    assert_eq!(schedule.encoded_video_duration((0, 60)), Some(0));
}

#[test]
fn audio_frame_sizes() {
    assert_eq!(audio_frame_size(1024, false, 735), 1024);
    assert_eq!(audio_frame_size(1152, true, 735), 735);
    assert_eq!(audio_frame_size(0, false, 735), 735);
    assert_eq!(audio_frame_size(0, true, 0), 0);
}

#[test]
fn scaling_follows_the_aspect() {
    assert_eq!(scaling_mode((960, 540), (1920, 1080)), ScalingMode::Point);
    assert_eq!(scaling_mode((960, 540), (1280, 720)), ScalingMode::Point);
    assert_eq!(scaling_mode((960, 540), (1080, 1080)), ScalingMode::FastBilinear);
    assert_eq!(scaling_mode((960, 541), (1920, 1080)), ScalingMode::FastBilinear);
    assert_eq!(
        scaling_mode((u32::MAX, u32::MAX), (u32::MAX, u32::MAX - 1)),
        ScalingMode::FastBilinear
    );
}

#[test]
fn background_turns_the_steps_round() {
    let options = VideoOptions::default();
    let plan = plan_video(options.resolution_in, options.resolution_out, false);
    assert!(!plan.scale_first);
    assert_eq!(plan.convert_resolution, (960, 540));
    assert_eq!(plan.scaling, ScalingMode::Point);
    let plan = plan_video((960, 540), (1000, 1000), true);
    assert!(plan.scale_first);
    assert_eq!(plan.convert_resolution, (1000, 1000));
    assert_eq!(plan.scaling, ScalingMode::FastBilinear);
}

#[test]
fn codecs_get_their_defaults() {
    let none: Vec<KeyValue> = Vec::new();
    assert_eq!(
        pairs(&codec_options(CodecFamily::H264, &none)),
        vec![("preset", "veryfast"), ("crf", "20"), ("tune", "film")]
    );
    assert_eq!(
        pairs(&codec_options(CodecFamily::H265, &none)),
        vec![("preset", "veryfast"), ("crf", "20"), ("tune", "film")]
    );
    assert_eq!(pairs(&codec_options(CodecFamily::Aac, &none)), vec![("profile", "aac_low")]);
    assert!(codec_options(CodecFamily::Other, &none).is_empty());
    let asked = vec![
        KeyValue { key: "crf".to_string(), value: "12".to_string() },
        KeyValue { key: "x".to_string(), value: "".to_string() },
    ];
    assert_eq!(
        pairs(&codec_options(CodecFamily::H264, &asked)),
        vec![("preset", "veryfast"), ("crf", "20"), ("tune", "film"), ("crf", "12"), ("x", "")]
    );
    assert_eq!(pairs(&codec_options(CodecFamily::Other, &asked)), vec![("crf", "12"), ("x", "")]);
}

#[test]
fn mp4_gets_its_index_first() {
    assert_eq!(pairs(&container_options("mp4")), vec![("movflags", "faststart")]);
    assert!(container_options("mov").is_empty());
    assert!(container_options("MP4").is_empty());
    assert!(container_options("").is_empty());
}

#[test]
fn debug_background() {
    assert_eq!(DebugBackground::open("__debug__", 3, 2), Some(DebugBackground(3, 2)));
    assert_eq!(DebugBackground::open("__debug__ ", 3, 2), None);
    assert_eq!(DebugBackground::open("background.png", 3, 2), None);
    let mut background = DebugBackground(3, 2);
    let frame = background.next_frame().unwrap();
    assert_eq!(frame.len(), 24);
    assert!(frame.chunks(4).all(|px| px == [0, 0, 255, 128]));
    assert_eq!(DebugBackground(0, 7).next_frame(), Some(Vec::new()));
}

#[test]
fn background_kinds_in_order() {
    assert_eq!(background_kinds("__debug__"), vec![BackgroundKind::Debug]);
    assert_eq!(background_kinds("loop.gif"), vec![BackgroundKind::Video]);
    assert_eq!(background_kinds(".gif"), vec![BackgroundKind::Video]);
    assert_eq!(
        background_kinds("picture.png"),
        vec![BackgroundKind::Image, BackgroundKind::Video]
    );
    assert_eq!(background_kinds("loop.GIF"), vec![BackgroundKind::Image, BackgroundKind::Video]);
    assert_eq!(background_kinds("gif"), vec![BackgroundKind::Image, BackgroundKind::Video]);
    assert_eq!(background_kinds(""), vec![BackgroundKind::Image, BackgroundKind::Video]);
}

#[test]
fn decoder_rests_between_the_marks() {
    assert!(!decoder_rests(false, 30));
    assert!(decoder_rests(false, 31));
    assert!(decoder_rests(true, 30));
    assert!(decoder_rests(true, 11));
    assert!(!decoder_rests(true, 10));
    assert!(!decoder_rests(false, 0));
}

#[test]
fn frames_of_a_video_background() {
    assert_eq!(frame_source(3, false), FrameSource::Queued);
    assert_eq!(frame_source(1, true), FrameSource::Queued);
    assert_eq!(frame_source(0, true), FrameSource::Blank);
    assert_eq!(frame_source(0, false), FrameSource::Retry);
}
