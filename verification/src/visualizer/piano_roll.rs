use vstd::prelude::*;

verus! {

/// The shape of a key of the piano: a white key with a black key to its
/// right, on both sides or to its left, a white key with none, or a black
/// key.
#[derive(Copy, Clone, Debug, PartialEq, Eq, Structural)]
pub enum PianoKey {
    WhiteLeft,
    WhiteCenter,
    WhiteRight,
    WhiteFull,
    Black,
}

/// The shape of the key that is `note` semitones above a C, within an
/// octave.
pub open spec fn key_in_octave(note: int) -> PianoKey {
    if note == 1 || note == 3 || note == 6 || note == 8 || note == 10 {
        PianoKey::Black
    } else if note == 0 || note == 5 {
        PianoKey::WhiteLeft
    } else if note == 4 || note == 11 {
        PianoKey::WhiteRight
    } else {
        PianoKey::WhiteCenter
    }
}

/// The shape of the key with index `index` on a piano of `key_count` keys
/// that begins with a C: the last key has no black key to its right.
pub open spec fn piano_key(index: int, key_count: int) -> PianoKey {
    let key = key_in_octave(index % 12);
    if index >= key_count - 1 && key != PianoKey::Black && key != PianoKey::WhiteRight {
        PianoKey::WhiteFull
    } else {
        key
    }
}

/// The shape of a key of the piano.
pub fn get_piano_key(index: usize, key_count: usize) -> (key: PianoKey)
    ensures
        key == piano_key(index as int, key_count as int),
{
    let note = index % 12;
    let key = if note == 1 || note == 3 || note == 6 || note == 8 || note == 10 {
        PianoKey::Black
    } else if note == 0 || note == 5 {
        PianoKey::WhiteLeft
    } else if note == 4 || note == 11 {
        PianoKey::WhiteRight
    } else {
        PianoKey::WhiteCenter
    };
    let last = key_count == 0 || index >= key_count - 1;
    match key {
        PianoKey::Black => key,
        PianoKey::WhiteRight => key,
        _ => if last {
            PianoKey::WhiteFull
        } else {
            key
        },
    }
}

} // verus!
