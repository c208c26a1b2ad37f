use gb_presenter::visualizer::oscilloscope::scope_window;
use gb_presenter::visualizer::oscilloscope::ScopeWindow;
use gb_presenter::visualizer::piano_roll::get_piano_key;
use gb_presenter::visualizer::piano_roll::PianoKey;

#[test]
fn keys_of_an_octave() {
    let shapes: Vec<PianoKey> = (0..12).map(|i| get_piano_key(i, 109)).collect();
    assert_eq!(
        shapes,
        vec![
            PianoKey::WhiteLeft,
            PianoKey::Black,
            PianoKey::WhiteCenter,
            PianoKey::Black,
            PianoKey::WhiteRight,
            PianoKey::WhiteLeft,
            PianoKey::Black,
            PianoKey::WhiteCenter,
            PianoKey::Black,
            PianoKey::WhiteCenter,
            PianoKey::Black,
            PianoKey::WhiteRight,
        ]
    );
    assert_eq!(get_piano_key(12, 109), PianoKey::WhiteLeft);
    assert_eq!(get_piano_key(107, 109), PianoKey::WhiteRight);
}

#[test]
fn last_key_has_no_neighbour() {
    assert_eq!(get_piano_key(108, 109), PianoKey::WhiteFull);
    assert_eq!(get_piano_key(120, 109), PianoKey::WhiteFull);
    assert_eq!(get_piano_key(109, 109), PianoKey::Black);
    assert_eq!(get_piano_key(112, 109), PianoKey::WhiteRight);
    assert_eq!(get_piano_key(0, 1), PianoKey::WhiteFull);
    assert_eq!(get_piano_key(0, 0), PianoKey::WhiteFull);
    assert_eq!(get_piano_key(0, 2), PianoKey::WhiteLeft);
}

#[test]
fn short_wave_is_shown_whole() {
    assert_eq!(scope_window(&[], 0, 100), ScopeWindow { padding: 100, start: 0, end: 0 });
    assert_eq!(
        scope_window(&[true, false, true], 3, 100),
        ScopeWindow { padding: 97, start: 0, end: 3 }
    );
    assert_eq!(scope_window(&[false; 100], 100, 100), ScopeWindow { padding: 0, start: 0, end: 100 });
}

#[test]
fn window_is_centred_on_the_last_edge() {
    let mut edges = vec![false; 1000];
    // Without an edge the end of the wave is shown.
    assert_eq!(scope_window(&edges, 1000, 100), ScopeWindow { padding: 0, start: 900, end: 1000 });
    edges[300] = true;
    edges[700] = true;
    assert_eq!(scope_window(&edges, 1000, 100), ScopeWindow { padding: 0, start: 650, end: 750 });
    // An edge in the last window's length does not count.
    edges[900] = true;
    edges[950] = true;
    assert_eq!(scope_window(&edges, 1000, 100), ScopeWindow { padding: 0, start: 650, end: 750 });
    edges[899] = true;
    assert_eq!(scope_window(&edges, 1000, 100), ScopeWindow { padding: 0, start: 849, end: 949 });
    // An edge near the start cannot stand in the middle.
    let mut edges = vec![false; 1000];
    edges[20] = true;
    assert_eq!(scope_window(&edges, 1000, 100), ScopeWindow { padding: 0, start: 0, end: 100 });
    // Fewer marks than samples.
    assert_eq!(scope_window(&[false, true], 1000, 100), ScopeWindow { padding: 0, start: 0, end: 100 });
    assert_eq!(scope_window(&[], 1000, 100), ScopeWindow { padding: 0, start: 900, end: 1000 });
}
