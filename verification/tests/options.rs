use gb_presenter::gameboy::model::model_value_parser;
use gb_presenter::gui::render_thread::idle_action;
use gb_presenter::gui::render_thread::progress_due;
use gb_presenter::gui::render_thread::render_action;
use gb_presenter::gui::render_thread::IdleAction;
use gb_presenter::gui::render_thread::RenderAction;
use gb_presenter::gui::render_thread::RenderThreadRequest;
use gb_presenter::gameboy::Model;
use gb_presenter::gameboy::Revision;
use gb_presenter::renderer::render_options::RenderInput;
use gb_presenter::renderer::render_options::RendererOptions;
use gb_presenter::renderer::render_options::StopCondition;
use gb_presenter::renderer::render_options::StopConditionError;
use gb_presenter::video_builder::video_options::codec_option_value_parser;
use gb_presenter::video_builder::VideoOptions;

#[test]
fn stop_conditions_are_read() {
    assert_eq!(StopCondition::parse("time:3"), Ok(StopCondition::Frames(180)));
    assert_eq!(StopCondition::parse("time:300"), Ok(StopCondition::Frames(18000)));
    assert_eq!(StopCondition::parse("frames:180"), Ok(StopCondition::Frames(180)));
    assert_eq!(StopCondition::parse("frames:0"), Ok(StopCondition::Frames(0)));
    assert_eq!(StopCondition::parse("loops:2"), Ok(StopCondition::Loops(2)));
    assert_eq!(StopCondition::parse("loops:+2"), Ok(StopCondition::Loops(2)));
    assert_eq!(StopCondition::parse("frames:007"), Ok(StopCondition::Frames(7)));
    assert_eq!(
        StopCondition::parse("frames:18446744073709551615"),
        Ok(StopCondition::Frames(u64::MAX))
    );
}

#[test]
fn stop_condition_from_str() {
    assert_eq!("loops:5".parse::<StopCondition>(), Ok(StopCondition::Loops(5)));
    assert_eq!("loops".parse::<StopCondition>(), Err(StopConditionError::InvalidFormat));
}

#[test]
fn stop_condition_format_errors() {
    assert_eq!(StopCondition::parse(""), Err(StopConditionError::InvalidFormat));
    assert_eq!(StopCondition::parse("frames"), Err(StopConditionError::InvalidFormat));
    assert_eq!(StopCondition::parse("frames:1:2"), Err(StopConditionError::InvalidFormat));
    assert_eq!(StopCondition::parse("a:b:c"), Err(StopConditionError::InvalidFormat));
}

#[test]
fn stop_condition_unknown_kind() {
    assert_eq!(StopCondition::parse("seconds:3"), Err(StopConditionError::UnknownType));
    assert_eq!(StopCondition::parse(":3"), Err(StopConditionError::UnknownType));
    assert_eq!(StopCondition::parse("Time:3"), Err(StopConditionError::UnknownType));
    // The kind is looked at before the number.
    assert_eq!(StopCondition::parse("nsfe:x"), Err(StopConditionError::UnknownType));
}

#[test]
fn stop_condition_bad_numbers() {
    assert_eq!(StopCondition::parse("time:"), Err(StopConditionError::InvalidNumber));
    assert_eq!(StopCondition::parse("time:nsfe"), Err(StopConditionError::InvalidNumber));
    assert_eq!(StopCondition::parse("frames:-1"), Err(StopConditionError::InvalidNumber));
    assert_eq!(StopCondition::parse("frames:+"), Err(StopConditionError::InvalidNumber));
    assert_eq!(StopCondition::parse("frames:1 "), Err(StopConditionError::InvalidNumber));
    assert_eq!(StopCondition::parse("loops:1.5"), Err(StopConditionError::InvalidNumber));
    assert_eq!(
        StopCondition::parse("frames:18446744073709551616"),
        Err(StopConditionError::InvalidNumber)
    );
}

#[test]
fn stop_condition_time_too_long() {
    assert_eq!(
        StopCondition::parse("time:307445734561825861"),
        Err(StopConditionError::TooLong)
    );
    assert_eq!(
        StopCondition::parse("time:307445734561825860"),
        Ok(StopCondition::Frames(18446744073709551600))
    );
}

#[test]
fn renderer_defaults() {
    let options = RendererOptions::default();
    assert!(matches!(options.input, RenderInput::Unset));
    assert_eq!(options.stop_condition, StopCondition::Frames(18000));
    assert_eq!(options.fadeout_length, 180);
    assert_eq!(options.track_index, 0);
    assert_eq!(options.track_index_2x, 0);
    assert!(!options.auto_lsdj_sync);
    assert_eq!(options.model, Model::DMG(Revision::RevB));
    assert_eq!(options.video_options.video_codec, "libx264");
}

#[test]
fn video_defaults() {
    let options = VideoOptions::default();
    assert_eq!(options.output_path, "");
    assert!(options.metadata.is_empty());
    assert!(options.background_path.is_none());
    assert_eq!(options.video_time_base, (70_224, 4_194_304));
    assert_eq!(options.video_codec, "libx264");
    assert_eq!(options.pixel_format_in, "rgba");
    assert_eq!(options.pixel_format_out, "yuv420p");
    assert_eq!(options.resolution_in, (960, 540));
    assert_eq!(options.resolution_out, (1920, 1080));
    assert_eq!(options.audio_time_base, (1, 44_100));
    assert_eq!(options.audio_codec, "aac");
    assert_eq!(options.audio_channels, 2);
    assert_eq!(options.sample_format_in, "s16");
    assert_eq!(options.sample_format_out, "fltp");
    assert_eq!(options.sample_rate, 44_100);
    let copy = options.clone();
    assert_eq!(copy.audio_codec, "aac");
    assert_eq!(copy.resolution_out, (1920, 1080));
}

#[test]
fn inputs_with_a_position() {
    assert!(RenderInput::LSDj("a".to_string(), "b".to_string()).tracks_position());
    assert!(RenderInput::LSDj2x("a".to_string(), "b".to_string(), "c".to_string(), "d".to_string())
        .tracks_position());
    assert!(!RenderInput::GBS("a".to_string()).tracks_position());
    assert!(!RenderInput::VGM("a".to_string(), 60, 0).tracks_position());
    assert!(!RenderInput::Unset.tracks_position());
}

#[test]
fn model_names_are_read() {
    assert_eq!(model_value_parser("dmg"), Ok(Model::DMG(Revision::RevB)));
    assert_eq!(model_value_parser("DMG-B"), Ok(Model::DMG(Revision::RevB)));
    assert_eq!(model_value_parser("CGB-0"), Ok(Model::CGB(Revision::Rev0)));
    assert_eq!(model_value_parser("cgba"), Ok(Model::CGB(Revision::RevA)));
    assert_eq!(model_value_parser("Cgb-B"), Ok(Model::CGB(Revision::RevB)));
    assert_eq!(model_value_parser("CGB-C"), Ok(Model::CGB(Revision::RevC)));
    assert_eq!(model_value_parser("CGB-D"), Ok(Model::CGB(Revision::RevD)));
    assert_eq!(model_value_parser("CGB"), Ok(Model::CGB(Revision::RevE)));
    assert_eq!(model_value_parser("CGB-E"), Ok(Model::CGB(Revision::RevE)));
    assert_eq!(model_value_parser("-c-g-b-e-"), Ok(Model::CGB(Revision::RevE)));
    assert_eq!(model_value_parser("MGB"), Ok(Model::MGB));
    assert_eq!(model_value_parser("agb"), Ok(Model::AGB));
    for bad in ["", "-", "gbp", "sgb", "dmga", "cgbf", "cgb e", "dm", "dmgbb"] {
        assert_eq!(model_value_parser(bad), Err("Invalid model string".to_string()));
    }
}

#[test]
fn codec_options_are_read() {
    assert_eq!(
        codec_option_value_parser("crf=18"),
        Ok(("crf".to_string(), "18".to_string()))
    );
    assert_eq!(
        codec_option_value_parser("x264-params=keyint=60:bframes=2"),
        Ok(("x264-params".to_string(), "keyint=60:bframes=2".to_string()))
    );
    assert_eq!(codec_option_value_parser("="), Ok((String::new(), String::new())));
    assert_eq!(codec_option_value_parser("a="), Ok(("a".to_string(), String::new())));
    assert_eq!(codec_option_value_parser("=b"), Ok((String::new(), "b".to_string())));
    assert_eq!(
        codec_option_value_parser("t\u{ef}tle=\u{e9}t\u{e9}"),
        Ok(("t\u{ef}tle".to_string(), "\u{e9}t\u{e9}".to_string()))
    );
    let message = "Invalid option specification (must be of the form 'option=value').";
    assert_eq!(codec_option_value_parser("crf"), Err(message.to_string()));
    assert_eq!(codec_option_value_parser(""), Err(message.to_string()));
}

#[test]
fn requests_while_idle() {
    let start = RenderThreadRequest::StartRender(RendererOptions::default());
    match idle_action(start) {
        IdleAction::Start(options) => assert_eq!(options.fadeout_length, 180),
        _ => panic!("a render should start"),
    }
    assert!(matches!(idle_action(RenderThreadRequest::CancelRender), IdleAction::Refuse));
    assert!(matches!(idle_action(RenderThreadRequest::Terminate), IdleAction::Quit));
}

#[test]
fn requests_between_frames() {
    let start = RenderThreadRequest::StartRender(RendererOptions::default());
    assert_eq!(render_action(None), RenderAction::Step);
    assert_eq!(render_action(Some(&start)), RenderAction::RefuseAndStep);
    assert_eq!(render_action(Some(&RenderThreadRequest::CancelRender)), RenderAction::Cancel);
    assert_eq!(render_action(Some(&RenderThreadRequest::Terminate)), RenderAction::Quit);
}

#[test]
fn progress_is_told_twice_a_second() {
    assert!(!progress_due(0));
    assert!(!progress_due(499_999_999));
    assert!(progress_due(500_000_000));
    assert!(progress_due(u128::MAX));
}
