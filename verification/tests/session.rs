use gb_presenter::gameboy::link::LinkSide::First;
use gb_presenter::gameboy::link::LinkSide::Second;
use gb_presenter::renderer::audio::fade;
use gb_presenter::renderer::audio::fade_divisor;
use gb_presenter::renderer::audio::mix;
use gb_presenter::renderer::frame_times::FrameTimes;
use gb_presenter::renderer::lsdj::SyncRole;
use gb_presenter::renderer::render_options::RenderInput;
use gb_presenter::renderer::render_options::RendererOptions;
use gb_presenter::renderer::render_options::StopCondition;
use gb_presenter::renderer::Phase;
use gb_presenter::renderer::Renderer;
use gb_presenter::renderer::SetupError;
use gb_presenter::renderer::SetupStep;
use gb_presenter::renderer::SongPosition;

fn tracker() -> RenderInput {
    RenderInput::LSDj("rom".to_string(), "sav".to_string())
}

fn session(input: RenderInput, stop: StopCondition, fadeout: u64) -> Renderer {
    let mut options = RendererOptions::default();
    options.input = input;
    options.stop_condition = stop;
    options.fadeout_length = fadeout;
    let mut renderer = Renderer::new(options);
    renderer.start_encoding(&[false; 8]).unwrap();
    renderer
}

fn row(row: u8) -> Option<SongPosition> {
    Some(SongPosition { row, end: false })
}

#[test]
fn loop_detection() {
    let mut renderer = session(tracker(), StopCondition::Loops(10), 180);
    for (i, r) in [0u8, 1, 2, 3, 0, 1, 2, 3].iter().enumerate() {
        assert!(renderer.step(i as u64 * 16_000_000, row(*r)));
    }
    assert_eq!(renderer.loop_count(), 1);
    assert_eq!(renderer.loop_duration(), Some(4));
    assert_eq!(renderer.current_frame(), 8);
    assert_eq!(renderer.last_position(), SongPosition { row: 3, end: false });
}

#[test]
fn second_loop_keeps_first_duration() {
    let mut renderer = session(tracker(), StopCondition::Loops(10), 180);
    for r in [5u8, 6, 0, 1, 2, 0, 1] {
        renderer.step(0, row(r));
    }
    assert_eq!(renderer.loop_count(), 2);
    assert_eq!(renderer.loop_duration(), Some(2));
}

#[test]
fn positions_are_ignored_without_a_tracker() {
    let mut renderer = session(RenderInput::GBS("x".to_string()), StopCondition::Frames(100), 10);
    for r in [3u8, 2, 1, 0] {
        renderer.step(0, row(r));
    }
    assert_eq!(renderer.loop_count(), 0);
    assert_eq!(renderer.loop_duration(), None);
    assert_eq!(renderer.last_position(), SongPosition { row: 0, end: false });
}

#[test]
fn fadeout_counts_down_after_frames() {
    let mut renderer = session(RenderInput::GBS("x".to_string()), StopCondition::Frames(3), 4);
    // Three frames are made before the stop condition is met.
    for _ in 0..3 {
        assert!(renderer.step(0, None));
        assert_eq!(renderer.fadeout_countdown(), None);
        assert_eq!(renderer.phase(), Phase::Playing);
    }
    let mut seen = Vec::new();
    let mut steps = 0;
    loop {
        let more = renderer.step(0, None);
        seen.push(renderer.fadeout_countdown().unwrap());
        if !more {
            break;
        }
        steps += 1;
        assert_eq!(renderer.phase(), Phase::Fading);
    }
    assert_eq!(seen, vec![4, 3, 2, 1, 0]);
    assert_eq!(steps, 4);
    assert_eq!(renderer.phase(), Phase::Stopped);
    assert_eq!(renderer.current_frame(), 7);
    // The countdown stays at 0.
    assert!(!renderer.step(0, None));
    assert_eq!(renderer.fadeout_countdown(), Some(0));
    assert_eq!(renderer.current_frame(), 7);
}

#[test]
fn fadeout_begins_after_loops() {
    let mut renderer = session(tracker(), StopCondition::Loops(2), 3);
    let mut rows = Vec::new();
    for _ in 0..3 {
        rows.extend_from_slice(&[0u8, 1, 2]);
    }
    let mut countdowns = Vec::new();
    for r in rows {
        renderer.step(0, row(r));
        countdowns.push(renderer.fadeout_countdown());
    }
    // The second loop is seen at the seventh step; the next step begins
    // the fadeout.
    assert_eq!(
        countdowns,
        vec![None, None, None, None, None, None, None, Some(3), Some(2)]
    );
    assert!(renderer.step(0, row(0)));
    assert!(!renderer.step(0, row(1)));
    assert_eq!(renderer.fadeout_countdown(), Some(0));
}

#[test]
fn fadeout_begins_at_end_of_song() {
    let mut renderer = session(tracker(), StopCondition::Frames(1000), 2);
    assert!(renderer.step(0, row(0)));
    assert!(renderer.step(0, Some(SongPosition { row: 1, end: true })));
    assert_eq!(renderer.fadeout_countdown(), None);
    assert!(renderer.step(0, row(2)));
    assert_eq!(renderer.fadeout_countdown(), Some(2));
    assert!(renderer.step(0, row(3)));
    assert_eq!(renderer.fadeout_countdown(), Some(1));
    assert!(!renderer.step(0, row(4)));
    assert_eq!(renderer.fadeout_countdown(), Some(0));
}

#[test]
fn fadeout_of_no_length_stops_at_once() {
    let mut renderer = session(RenderInput::GBS("x".to_string()), StopCondition::Frames(1), 0);
    assert!(renderer.step(0, None));
    assert!(!renderer.step(0, None));
    assert_eq!(renderer.current_frame(), 1);
}

#[test]
fn expected_duration_for_frames() {
    let mut renderer = session(RenderInput::GBS("x".to_string()), StopCondition::Frames(600), 180);
    assert_eq!(renderer.expected_duration_frames(), None);
    renderer.step(0, None);
    assert_eq!(renderer.expected_duration_frames(), Some(780));
    assert_eq!(renderer.expected_duration(), Some(13_000_000_000));
}

#[test]
fn expected_duration_for_loops() {
    let mut renderer = session(tracker(), StopCondition::Loops(3), 10);
    for r in [0u8, 1, 2, 3, 0] {
        renderer.step(0, row(r));
        assert_eq!(renderer.expected_duration_frames(), None);
    }
    renderer.step(0, row(1));
    // The loop was seen at the frame with index 4.
    assert_eq!(renderer.expected_duration_frames(), Some(10 + 4 * 3));
    for r in [2u8, 3, 0, 1, 0] {
        renderer.step(0, row(r));
    }
    assert_eq!(renderer.expected_duration_frames(), Some(22));
}

#[test]
fn setup_errors() {
    let mut renderer = Renderer::new(RendererOptions::default());
    assert_eq!(renderer.phase(), Phase::Priming);
    assert_eq!(renderer.start_encoding(&[false; 8]), Err(SetupError::NoInput));
    assert_eq!(renderer.phase(), Phase::Priming);

    let mut options = RendererOptions::default();
    options.input = RenderInput::GBS("x".to_string());
    options.stop_condition = StopCondition::Loops(2);
    let mut renderer = Renderer::new(options);
    assert_eq!(renderer.start_encoding(&[false; 8]), Err(SetupError::LoopsUnsupported));

    let mut options = RendererOptions::default();
    options.input = tracker();
    options.stop_condition = StopCondition::Loops(2);
    let mut renderer = Renderer::new(options);
    assert_eq!(renderer.start_encoding(&[true; 8]), Err(SetupError::AllChannelsHidden));
    assert_eq!(renderer.start_encoding(&[]), Err(SetupError::AllChannelsHidden));
    let mut hidden = [true; 8];
    hidden[6] = false;
    assert_eq!(renderer.start_encoding(&hidden), Ok(()));
    assert_eq!(renderer.phase(), Phase::Playing);
}

#[test]
fn start_makes_the_session_new() {
    let mut renderer = session(tracker(), StopCondition::Frames(2), 1);
    for r in [4u8, 0, 1, 2] {
        renderer.step(1_000, row(r));
    }
    assert_eq!(renderer.phase(), Phase::Stopped);
    renderer.start_encoding(&[false]).unwrap();
    assert_eq!(renderer.phase(), Phase::Playing);
    assert_eq!(renderer.current_frame(), 0);
    assert_eq!(renderer.loop_count(), 0);
    assert_eq!(renderer.loop_duration(), None);
    assert_eq!(renderer.fadeout_countdown(), None);
    assert_eq!(renderer.expected_duration_frames(), None);
    assert_eq!(renderer.average_fps(), 0);
}

#[test]
fn machines_and_roles() {
    let mut options = RendererOptions::default();
    options.input = RenderInput::LSDj2x("a".into(), "b".into(), "c".into(), "d".into());
    options.auto_lsdj_sync = true;
    let renderer = Renderer::new(options);
    assert!(renderer.is_2x());
    assert!(renderer.links_machines());
    assert_eq!(renderer.sync_roles(), (SyncRole::Primary, SyncRole::Secondary));

    let mut options = RendererOptions::default();
    options.input = tracker();
    options.auto_lsdj_sync = true;
    let renderer = Renderer::new(options);
    assert!(!renderer.is_2x());
    assert!(!renderer.links_machines());
    assert_eq!(renderer.sync_roles(), (SyncRole::NoSync, SyncRole::Ignore));

    let mut options = RendererOptions::default();
    options.input = RenderInput::VGM("x".into(), 60, 0);
    let mut renderer = Renderer::new(options);
    assert!(!renderer.is_2x());
    renderer.set_vgm_2x(true);
    assert!(renderer.is_2x());
    assert!(!renderer.links_machines());
    assert_eq!(renderer.sync_roles(), (SyncRole::Ignore, SyncRole::Ignore));
}

#[test]
fn start_button_is_held_at_first() {
    let mut renderer = session(tracker(), StopCondition::Frames(100), 10);
    assert!(renderer.holds_start());
    renderer.step(499_999_999, None);
    assert!(renderer.holds_start());
    renderer.step(500_000_000, None);
    assert!(!renderer.holds_start());
    let renderer = session(RenderInput::GBS("x".into()), StopCondition::Frames(100), 10);
    assert!(!renderer.holds_start());
}

#[test]
fn frame_rates() {
    let mut renderer = session(RenderInput::GBS("x".into()), StopCondition::Frames(100), 10);
    assert_eq!(renderer.instantaneous_fps(), 0);
    assert_eq!(renderer.average_fps(), 0);
    renderer.step(10_000_000, None);
    assert_eq!(renderer.instantaneous_fps(), 100);
    assert_eq!(renderer.average_fps(), 100);
    renderer.step(40_000_000, None);
    assert_eq!(renderer.instantaneous_fps(), 33);
    assert_eq!(renderer.average_fps(), 50);
    assert_eq!(renderer.encode_rate(), 83);
    // A clock that goes back gives a frame of no length.
    renderer.step(30_000_000, None);
    assert_eq!(renderer.instantaneous_fps(), u32::MAX);
    assert_eq!(renderer.average_fps(), 75);
}

#[test]
fn eta_adds_what_is_left() {
    let mut renderer = session(RenderInput::GBS("x".into()), StopCondition::Frames(100), 20);
    assert_eq!(renderer.eta_duration(5), None);
    renderer.step(10_000_000, None);
    renderer.step(20_000_000, None);
    // 118 frames are left at 100 frames a second.
    assert_eq!(renderer.eta_duration(20_000_000), Some(20_000_000 + 1_180_000_000));
}

#[test]
fn frame_window_forgets_the_oldest() {
    let mut window = FrameTimes::new(3);
    assert!(window.is_empty());
    for t in [10u64, 20, 30] {
        window.push(t);
    }
    assert_eq!(window.times(), vec![10, 20, 30]);
    assert_eq!(window.len(), 3);
    window.push(40);
    assert_eq!(window.times(), vec![20, 30, 40]);
    window.push(50);
    assert_eq!(window.times(), vec![30, 40, 50]);
    assert_eq!(window.len(), 3);
    // Three frames in 120 ns.
    assert_eq!(window.average_fps(), 25_000_000);
    assert_eq!(window.instantaneous_fps(), 20_000_000);
    window.clear();
    assert!(window.is_empty());
    assert_eq!(window.times(), Vec::<u64>::new());
    window.push(7);
    assert_eq!(window.times(), vec![7]);
}

#[test]
fn renderer_window_holds_six_hundred_frames() {
    let mut renderer = session(RenderInput::GBS("x".into()), StopCondition::Frames(10_000), 10);
    // 600 frames of 1 ms, then 300 frames of 3 ms.
    let mut now = 0u64;
    for _ in 0..600 {
        now += 1_000_000;
        renderer.step(now, None);
    }
    assert_eq!(renderer.average_fps(), 1000);
    for _ in 0..300 {
        now += 3_000_000;
        renderer.step(now, None);
    }
    // 300 frames of 1 ms and 300 of 3 ms are left in the window.
    assert_eq!(renderer.average_fps(), 500);
}

#[test]
fn fade_divisors() {
    assert_eq!(fade_divisor(180, 180), 1);
    assert_eq!(fade_divisor(180, 91), 1);
    assert_eq!(fade_divisor(180, 90), 2);
    assert_eq!(fade_divisor(180, 60), 3);
    assert_eq!(fade_divisor(180, 1), 180);
    assert_eq!(fade_divisor(180, 0), i16::MAX);
    assert_eq!(fade_divisor(1_000_000, 1), i16::MAX);
    assert_eq!(fade_divisor(10, 20), 1);
}

#[test]
fn samples_are_faded() {
    let audio = vec![100i16, -100, 7, -7, i16::MAX, i16::MIN, 0];
    assert_eq!(fade(audio.clone(), 180, None), audio);
    assert_eq!(fade(audio.clone(), 180, Some(180)), audio);
    assert_eq!(
        fade(audio.clone(), 180, Some(60)),
        vec![33, -33, 2, -2, 10922, -10922, 0]
    );
    assert_eq!(fade(audio, 180, Some(0)), vec![0, 0, 0, 0, 1, -1, 0]);
}

#[test]
fn samples_are_mixed() {
    let first = [100i16, -100, i16::MAX, i16::MIN, 5, 9];
    let second = [50i16, -51, i16::MAX, i16::MIN, -8];
    assert_eq!(mix(&first, &second, 180, None), vec![75, -75, 16383, -16384, -1]);
    assert_eq!(mix(&first, &second, 180, Some(90)), vec![37, -37, 8191, -8192, 0]);
    assert_eq!(mix(&first, &[], 180, None), Vec::<i16>::new());
}

#[test]
fn renderer_fades_its_audio() {
    let mut renderer = session(RenderInput::GBS("x".into()), StopCondition::Frames(1), 4);
    assert_eq!(renderer.adjust_audio(vec![100, -100]), vec![100, -100]);
    renderer.step(0, None);
    renderer.step(0, None);
    assert_eq!(renderer.fadeout_countdown(), Some(4));
    assert_eq!(renderer.adjust_audio(vec![100, -100]), vec![100, -100]);
    renderer.step(0, None);
    renderer.step(0, None);
    assert_eq!(renderer.fadeout_countdown(), Some(2));
    assert_eq!(renderer.adjust_audio(vec![100, -100]), vec![50, -50]);
    assert_eq!(renderer.mix_audio(&[100, 20], &[100, -20]), vec![50, 0]);
    renderer.step(0, None);
    assert_eq!(renderer.adjust_audio(vec![100, -100]), vec![25, -25]);
}

#[test]
fn positions_as_text() {
    assert_eq!(SongPosition { row: 0, end: false }.to_string(), "0");
    assert_eq!(SongPosition { row: 9, end: false }.to_string(), "9");
    assert_eq!(SongPosition { row: 10, end: false }.to_string(), "10");
    assert_eq!(SongPosition { row: 127, end: false }.to_string(), "127");
    assert_eq!(SongPosition { row: 255, end: false }.to_string(), "255");
    assert_eq!(SongPosition { row: 12, end: true }.to_string(), "end");
    assert_eq!(SongPosition::default(), SongPosition { row: 0, end: false });
}

#[test]
fn plan_for_a_song_file() {
    let mut options = RendererOptions::default();
    options.input = RenderInput::GBS("x".into());
    let renderer = Renderer::new(options);
    assert_eq!(
        renderer.setup_plan(),
        vec![SetupStep::Configure(First), SetupStep::LoadSongFile(First), SetupStep::Settle(First)]
    );
    assert!(renderer.hides_second_chip());
    assert!(Renderer::new(RendererOptions::default()).setup_plan().is_empty());
}

#[test]
fn plan_for_a_tracker() {
    let mut options = RendererOptions::default();
    options.input = tracker();
    options.track_index = 4;
    options.auto_lsdj_sync = true;
    let renderer = Renderer::new(options);
    assert_eq!(
        renderer.setup_plan(),
        vec![
            SetupStep::Configure(First),
            SetupStep::LoadCartridge(First),
            SetupStep::Boot(First),
            SetupStep::SelectTrack(First, 4, SyncRole::NoSync),
            SetupStep::WatchForEnd(First),
            SetupStep::Settle(First),
        ]
    );
}

#[test]
fn plan_for_linked_trackers() {
    let mut options = RendererOptions::default();
    options.input = RenderInput::LSDj2x("a".into(), "b".into(), "c".into(), "d".into());
    options.track_index = 1;
    options.track_index_2x = 2;
    options.auto_lsdj_sync = true;
    let renderer = Renderer::new(options);
    let plan = renderer.setup_plan();
    assert_eq!(
        plan,
        vec![
            SetupStep::Configure(First),
            SetupStep::Configure(Second),
            SetupStep::LoadCartridge(First),
            SetupStep::LoadCartridge(Second),
            SetupStep::Boot(First),
            SetupStep::Boot(Second),
            SetupStep::SelectTrack(First, 1, SyncRole::Primary),
            SetupStep::SelectTrack(Second, 2, SyncRole::Secondary),
            SetupStep::WatchForEnd(First),
            SetupStep::Settle(First),
            SetupStep::Settle(Second),
            SetupStep::RunFrame(First),
            SetupStep::RunFrame(Second),
            SetupStep::Link,
        ]
    );
    // Each machine runs a frame by itself before the two are linked.
    let link = plan.iter().position(|s| *s == SetupStep::Link).unwrap();
    assert!(plan[..link].contains(&SetupStep::RunFrame(First)));
    assert!(plan[..link].contains(&SetupStep::RunFrame(Second)));
    assert!(!renderer.hides_second_chip());
}

#[test]
fn plan_for_a_log() {
    let mut options = RendererOptions::default();
    options.input = RenderInput::VGM("x".into(), 60, 0);
    let mut renderer = Renderer::new(options);
    assert_eq!(
        renderer.setup_plan(),
        vec![SetupStep::Configure(First), SetupStep::LoadLog(First), SetupStep::Settle(First)]
    );
    renderer.set_vgm_2x(true);
    assert_eq!(
        renderer.setup_plan(),
        vec![
            SetupStep::Configure(First),
            SetupStep::LoadLog(First),
            SetupStep::Configure(Second),
            SetupStep::LoadLog(Second),
            SetupStep::Settle(First),
            SetupStep::Settle(Second),
        ]
    );
}
