pub mod end_detector;
pub mod save_file;

pub use end_detector::EndDetector;
pub use save_file::get_track_titles_from_save;

use super::SongPosition;
use crate::gameboy::joypad::JoypadButton;
use crate::text::find_byte;
use crate::text::index_of;
use crate::text::parse_i32;
use crate::text::signed_value;
use crate::text::split;
use crate::text::split_bytes;
use crate::text::utf8_decode;
use vstd::prelude::*;
use vstd::slice::slice_subrange;
use vstd::string::StrSliceExecFns;
use vstd::string::StringExecFns;
use vstd::string::StringSliceAdditionalSpecFns;
use vstd::utf8::decode_utf8;
use vstd::utf8::encode_utf8_decode_utf8;
use vstd::utf8::valid_utf8;

verus! {

/// The part that a tracker takes in keeping time with another.
#[derive(Copy, Clone, Debug, PartialEq, Eq, Structural)]
pub enum SyncRole {
    /// The setting is left as the save file has it.
    Ignore,
    /// The tracker keeps time by itself.
    NoSync,
    /// The tracker gives the time.
    Primary,
    /// The tracker takes the time from the other.
    Secondary,
}

/// Why the title of a cartridge does not name a version of the tracker.
#[derive(Copy, Clone, Debug, PartialEq, Eq, Structural)]
pub enum TitleError {
    /// The title is not UTF-8.
    InvalidUtf8,
    /// The title does not begin with the tracker's tag.
    NotLsdj,
}

/// The tag that the title of the tracker begins with: `LSDj-v`.
pub open spec fn lsdj_tag() -> Seq<char> {
    seq!['L', 'S', 'D', 'j', '-', 'v']
}

/// Whether `s` begins with the tag.
pub open spec fn starts_with_tag(s: Seq<char>) -> bool {
    s.len() >= 6 && s.take(6) == lsdj_tag()
}

/// `s` without the tags in it: read from the left, every tag is left out.
pub open spec fn without_tag(s: Seq<char>) -> Seq<char>
    decreases s.len(),
{
    if s.len() == 0 {
        s
    } else if starts_with_tag(s) {
        without_tag(s.skip(6))
    } else {
        seq![s[0]] + without_tag(s.skip(1))
    }
}

/// The version that the title bytes of a cartridge name: the title ends
/// before its first zero byte, has to be UTF-8 and to begin with the tag, and
/// the version is the title without its tags.
pub open spec fn title_outcome(bytes: Seq<u8>) -> Result<Seq<char>, TitleError> {
    let raw = bytes.take(index_of(bytes, 0));
    if !valid_utf8(raw) {
        Err(TitleError::InvalidUtf8)
    } else if !starts_with_tag(decode_utf8(raw)) {
        Err(TitleError::NotLsdj)
    } else {
        Ok(without_tag(decode_utf8(raw)))
    }
}

fn tag_at(s: &str, at: usize, len: usize) -> (found: bool)
    requires
        len == s@.len(),
        at <= len,
    ensures
        found == starts_with_tag(s@.skip(at as int)),
{
    if len - at < 6 {
        return false;
    }
    let found = s.get_char(at) == 'L' && s.get_char(at + 1) == 'S' && s.get_char(at + 2) == 'D'
        && s.get_char(at + 3) == 'j' && s.get_char(at + 4) == '-' && s.get_char(at + 5) == 'v';
    proof {
        let rest = s@.skip(at as int);
        let head = rest.take(6);
        assert(head[0] == s@[at as int]);
        assert(head[1] == s@[at + 1]);
        assert(head[2] == s@[at + 2]);
        assert(head[3] == s@[at + 3]);
        assert(head[4] == s@[at + 4]);
        assert(head[5] == s@[at + 5]);
        if found {
            assert(head =~= lsdj_tag());
        } else {
            assert(lsdj_tag()[0] == 'L');
            assert(lsdj_tag()[1] == 'S');
            assert(lsdj_tag()[2] == 'D');
            assert(lsdj_tag()[3] == 'j');
            assert(lsdj_tag()[4] == '-');
            assert(lsdj_tag()[5] == 'v');
        }
    }
    found
}

/// Reads the version of the tracker from the title bytes of its cartridge.
pub fn parse_title_bytes(title_bytes: &[u8]) -> (res: Result<String, TitleError>)
    ensures
        match res {
            Ok(version) => title_outcome(title_bytes@) == Ok::<Seq<char>, TitleError>(version@),
            Err(e) => title_outcome(title_bytes@) == Err::<Seq<char>, TitleError>(e),
        },
{
    let end = find_byte(title_bytes, 0, 0);
    let raw = slice_subrange(title_bytes, 0, end);
    proof {
        assert(title_bytes@.skip(0) =~= title_bytes@);
        assert(raw@ =~= title_bytes@.take(index_of(title_bytes@, 0)));
    }
    let title = match utf8_decode(raw) {
        Ok(title) => title,
        Err(_) => {
            return Err(TitleError::InvalidUtf8);
        },
    };
    proof {
        encode_utf8_decode_utf8(title@);
    }
    let text = title.as_str();
    let len = text.unicode_len();
    assert(text@.skip(0) =~= text@);
    if !tag_at(text, 0, len) {
        return Err(TitleError::NotLsdj);
    }
    let mut version = String::new();
    let mut i: usize = 0;
    while i < len
        invariant
            len == text@.len(),
            i <= len,
            version@ + without_tag(text@.skip(i as int)) == without_tag(text@),
        decreases len - i,
    {
        let ghost rest = text@.skip(i as int);
        if tag_at(text, i, len) {
            assert(rest.skip(6) =~= text@.skip(i + 6));
            i = i + 6;
        } else {
            let ghost before = version@;
            version.append(text.substring_char(i, i + 1));
            proof {
                assert(text@.subrange(i as int, i + 1) =~= seq![rest[0]]);
                assert(rest.skip(1) =~= text@.skip(i + 1));
                assert(version@ + without_tag(text@.skip(i + 1)) =~= before + without_tag(rest));
            }
            i = i + 1;
        }
    }
    assert(version@ + without_tag(text@.skip(i as int)) =~= version@);
    Ok(version)
}

/// The number that the part of a version with index `index` writes, 0
/// where there is no such part or it writes no number.
pub open spec fn version_part(parts: Seq<Seq<u8>>, index: int) -> int {
    if index < parts.len() {
        match signed_value(parts[index]) {
            Some(v) => v,
            None => 0,
        }
    } else {
        0
    }
}

/// The major, minor and revision numbers of a version whose parts are
/// separated by dots.
pub open spec fn version_numbers(version: Seq<u8>) -> (int, int, int) {
    let parts = split(version, 0x2E);
    (version_part(parts, 0), version_part(parts, 1), version_part(parts, 2))
}

fn part_number(parts: &Vec<Vec<u8>>, index: usize) -> (number: i32)
    ensures
        number == version_part(Seq::new(parts@.len(), |i: int| parts@[i]@), index as int),
{
    if index < parts.len() {
        match parse_i32(parts[index].as_slice()) {
            Some(v) => v,
            None => 0,
        }
    } else {
        0
    }
}

/// Reads the numbers of a version such as `9.2.L`: what is no number
/// counts as 0.
pub fn parse_version(version: &str) -> (numbers: (i32, i32, i32))
    ensures
        (numbers.0 as int, numbers.1 as int, numbers.2 as int) == version_numbers(
            version.spec_bytes(),
        ),
{
    let parts = split_bytes(version.as_bytes(), 0x2E);
    assert(Seq::new(parts@.len(), |i: int| parts@[i]@) =~= split(version.spec_bytes(), 0x2E));
    (part_number(&parts, 0), part_number(&parts, 1), part_number(&parts, 2))
}

/// Where a version of the tracker keeps the row that each of its four
/// channels plays: the address of the first of four bytes. Versions before 3
/// are not known.
pub open spec fn position_base(major: i32, minor: i32, revision: i32) -> Option<u16> {
    if 0 <= major <= 2 {
        None
    } else if major == 3 {
        if minor == 1 && revision == 9 {
            Some(0xC553u16)
        } else if minor == 6 || minor == 7 {
            Some(0xC544u16)
        } else if minor == 8 || minor == 9 {
            Some(0xC599u16)
        } else {
            Some(0xC552u16)
        }
    } else if major == 4 {
        if minor == 0 {
            Some(0xC351u16)
        } else if minor == 1 {
            Some(0xC598u16)
        } else if minor == 3 {
            Some(0xC499u16)
        } else if minor == 4 {
            Some(0xC497u16)
        } else if minor == 5 || minor == 6 || minor == 7 {
            Some(0xC492u16)
        } else {
            Some(0xC299u16)
        }
    } else {
        Some(0xC200u16)
    }
}

/// Looks a version of the tracker up in the table of addresses.
pub fn position_address(major: i32, minor: i32, revision: i32) -> (address: Option<u16>)
    ensures
        address == position_base(major, minor, revision),
{
    match (major, minor, revision) {
        (0..=2, _, _) => None,
        (3, 1, 9) => Some(0xC553),
        (3, 6, _) => Some(0xC544),
        (3, 7, _) => Some(0xC544),
        (3, 8, _) => Some(0xC599),
        (3, 9, _) => Some(0xC599),
        (3, _, _) => Some(0xC552),
        (4, 0, _) => Some(0xC351),
        (4, 1, _) => Some(0xC598),
        (4, 3, _) => Some(0xC499),
        (4, 4, _) => Some(0xC497),
        (4, 5, _) => Some(0xC492),
        (4, 6, _) => Some(0xC492),
        (4, 7, _) => Some(0xC492),
        (4, _, _) => Some(0xC299),
        (_, _, _) => Some(0xC200),
    }
}

/// The address to read the position of the song at, for the cartridge
/// with these title bytes: `None` where it is not the tracker or its version
/// is not known.
pub open spec fn position_address_of(title_bytes: Seq<u8>) -> Option<u16> {
    match title_outcome(title_bytes) {
        Err(_) => None,
        Ok(version) => {
            let numbers = version_numbers(vstd::utf8::encode_utf8(version));
            position_base(numbers.0 as i32, numbers.1 as i32, numbers.2 as i32)
        },
    }
}

/// The address to read the position of the song at, from the title bytes
/// of the cartridge that runs.
pub fn song_position_address(title_bytes: &[u8]) -> (address: Option<u16>)
    ensures
        address == position_address_of(title_bytes@),
{
    match parse_title_bytes(title_bytes) {
        Err(_) => None,
        Ok(version) => {
            let (major, minor, revision) = parse_version(version.as_str());
            position_address(major, minor, revision)
        },
    }
}

/// Greatest row that a channel plays.
pub const LAST_ROW: u8 = 0x7F;

/// Whether `row` is the row that is played where the channels are at
/// `rows`: the greatest of them that is a row at all.
pub open spec fn is_top_row(rows: Seq<u8>, row: u8) -> bool {
    &&& row <= LAST_ROW
    &&& exists|i: int| 0 <= i < rows.len() && rows[i] == row
    &&& forall|i: int| 0 <= i < rows.len() && rows[i] <= LAST_ROW ==> rows[i] <= row
}

/// The position of the song, from the bytes that the channels' rows are
/// kept in and from whether the end of the song has been seen. `None` where
/// no channel plays.
pub fn get_song_position(rows: &[u8], end: bool) -> (position: Option<SongPosition>)
    ensures
        match position {
            Some(p) => is_top_row(rows@, p.row) && p.end == end,
            None => forall|i: int| 0 <= i < rows@.len() ==> rows@[i] > LAST_ROW,
        },
{
    let mut top: Option<u8> = None;
    let mut i: usize = 0;
    while i < rows.len()
        invariant
            i <= rows@.len(),
            match top {
                Some(row) => is_top_row(rows@.take(i as int), row),
                None => forall|j: int| 0 <= j < i ==> rows@[j] > LAST_ROW,
            },
        decreases rows@.len() - i,
    {
        let row = rows[i];
        let ghost before = rows@.take(i as int);
        let ghost after = rows@.take(i + 1);
        proof {
            assert(forall|j: int| 0 <= j < i ==> after[j] == before[j]);
            assert(after[i as int] == row);
        }
        if row <= LAST_ROW {
            match top {
                Some(best) => {
                    if row > best {
                        top = Some(row);
                    } else {
                        proof {
                            let k = choose|k: int| 0 <= k < before.len() && before[k] == best;
                            assert(after[k] == best);
                        }
                    }
                },
                None => {
                    top = Some(row);
                },
            }
        } else {
            proof {
                if top is Some {
                    let best = top->0;
                    let k = choose|k: int| 0 <= k < before.len() && before[k] == best;
                    assert(after[k] == best);
                }
            }
        }
        i = i + 1;
    }
    assert(rows@.take(i as int) =~= rows@);
    match top {
        Some(row) => Some(SongPosition { row, end }),
        None => None,
    }
}

/// How many times the sync setting is moved to the right from its first
/// value, or -1 where it is left alone. A tracker that gives the time is set
/// to the third value before version 6.0.2 and to the second from then on.
pub open spec fn sync_option(role: SyncRole, version: Option<(i32, i32, i32)>) -> int {
    match role {
        SyncRole::Ignore => -1,
        SyncRole::NoSync => 0,
        SyncRole::Primary => match version {
            Some((major, minor, revision)) => if major < 6 || (major == 6 && minor == 0 && revision
                < 2) {
                2
            } else {
                1
            },
            None => -1,
        },
        SyncRole::Secondary => 1,
    }
}

/// The sync setting for a tracker with the part `role`.
pub fn sync_option_index(role: SyncRole, version: Option<(i32, i32, i32)>) -> (index: i32)
    ensures
        index == sync_option(role, version),
{
    match role {
        SyncRole::Ignore => -1,
        SyncRole::NoSync => 0,
        SyncRole::Primary => match version {
            Some((major, minor, revision)) => {
                if major < 6 || (major == 6 && minor == 0 && revision < 2) {
                    2
                } else {
                    1
                }
            },
            None => -1,
        },
        SyncRole::Secondary => 1,
    }
}

/// One step of an input macro: the buttons that are held down while the
/// machine runs, and for how many milliseconds, where that is not left to the
/// machine.
#[derive(Debug)]
pub struct MacroStep {
    pub buttons: Vec<JoypadButton>,
    pub duration_ms: Option<u64>,
}

/// What a `MacroStep` stands for.
pub struct MacroPress {
    pub buttons: Seq<JoypadButton>,
    pub duration_ms: Option<u64>,
}

impl View for MacroStep {
    type V = MacroPress;

    open spec fn view(&self) -> MacroPress {
        MacroPress { buttons: self.buttons@, duration_ms: self.duration_ms }
    }
}

/// What each of `steps` stands for.
pub open spec fn presses(steps: Seq<MacroStep>) -> Seq<MacroPress> {
    Seq::new(steps.len(), |i: int| steps[i]@)
}

/// Milliseconds that a song is given to load.
pub const LOAD_WAIT_MS: u64 = 5000;

/// Holding `buttons` for the usual time.
pub open spec fn press(buttons: Seq<JoypadButton>) -> MacroPress {
    MacroPress { buttons, duration_ms: None }
}

/// Holding `first`, then `second`.
pub open spec fn pair(first: Seq<JoypadButton>, second: Seq<JoypadButton>) -> Seq<MacroPress> {
    seq![press(first), press(second)]
}

/// Pressing `button` and letting it go.
pub open spec fn tap(button: JoypadButton) -> Seq<MacroPress> {
    pair(seq![button], Seq::empty())
}

/// `steps` `count` times over.
pub open spec fn repeat(steps: Seq<MacroPress>, count: nat) -> Seq<MacroPress>
    decreases count,
{
    if count == 0 {
        Seq::empty()
    } else {
        repeat(steps, (count - 1) as nat) + steps
    }
}

/// The steps that set the sync setting to the value with index `index`:
/// with A held, sixteen times to the left, then `index` times to the right.
/// Nothing where `index` is negative.
pub open spec fn sync_macro(index: int) -> Seq<MacroPress> {
    if index < 0 {
        Seq::empty()
    } else {
        seq![press(seq![JoypadButton::A])] + repeat(
            pair(seq![JoypadButton::A, JoypadButton::Left], seq![JoypadButton::A]),
            16,
        ) + repeat(
            pair(seq![JoypadButton::A, JoypadButton::Right], seq![JoypadButton::A]),
            index as nat,
        ) + seq![press(Seq::empty())]
    }
}

/// The steps that load the song with index `track_index` in the tracker:
/// past the opening screen, into the project menu and up to its top, down to
/// the sync setting and through it, down to the bottom entry and into the
/// list of songs, up to its top and down to the song, then the song is
/// chosen, the question whether to save is answered, and the song is given
/// time to load.
pub open spec fn select_track_macro(track_index: u8, sync_index: int) -> Seq<MacroPress> {
    tap(JoypadButton::B) + seq![
        press(seq![JoypadButton::Select]),
        press(seq![JoypadButton::Select, JoypadButton::Up]),
        press(Seq::empty()),
    ] + repeat(tap(JoypadButton::Up), 16) + repeat(tap(JoypadButton::Down), 2) + sync_macro(
        sync_index,
    ) + repeat(tap(JoypadButton::Down), 16) + tap(JoypadButton::A) + tap(JoypadButton::A) + repeat(
        tap(JoypadButton::Up),
        32,
    ) + repeat(tap(JoypadButton::Down), track_index as nat) + tap(JoypadButton::A) + tap(
        JoypadButton::Left,
    ) + seq![
        press(seq![JoypadButton::A]),
        MacroPress { buttons: Seq::empty(), duration_ms: Some(LOAD_WAIT_MS) },
    ]
}

fn add_step(out: &mut Vec<MacroStep>, buttons: Vec<JoypadButton>, duration_ms: Option<u64>)
    ensures
        presses(final(out)@) == presses(old(out)@).push(
            MacroPress { buttons: buttons@, duration_ms },
        ),
{
    out.push(MacroStep { buttons, duration_ms });
    assert(presses(out@) =~= presses(old(out)@).push(MacroPress { buttons: buttons@, duration_ms }));
}

fn copy_buttons(buttons: &Vec<JoypadButton>) -> (copy: Vec<JoypadButton>)
    ensures
        copy@ == buttons@,
{
    let mut copy: Vec<JoypadButton> = Vec::new();
    let mut i: usize = 0;
    while i < buttons.len()
        invariant
            i <= buttons@.len(),
            copy@ == buttons@.take(i as int),
        decreases buttons@.len() - i,
    {
        copy.push(buttons[i]);
        assert(buttons@.take(i + 1) =~= buttons@.take(i as int).push(buttons@[i as int]));
        i = i + 1;
    }
    assert(buttons@.take(i as int) =~= buttons@);
    copy
}

fn add_pairs(
    out: &mut Vec<MacroStep>,
    first: Vec<JoypadButton>,
    second: Vec<JoypadButton>,
    count: usize,
)
    ensures
        presses(final(out)@) == presses(old(out)@) + repeat(pair(first@, second@), count as nat),
{
    let mut i: usize = 0;
    assert(presses(out@) =~= presses(old(out)@) + repeat(pair(first@, second@), 0));
    while i < count
        invariant
            i <= count,
            presses(out@) == presses(old(out)@) + repeat(pair(first@, second@), i as nat),
        decreases count - i,
    {
        let ghost before = presses(out@);
        add_step(out, copy_buttons(&first), None);
        add_step(out, copy_buttons(&second), None);
        proof {
            assert(presses(out@) =~= before + pair(first@, second@));
            assert(presses(out@) =~= presses(old(out)@) + repeat(
                pair(first@, second@),
                (i + 1) as nat,
            ));
        }
        i = i + 1;
    }
}

fn add_taps(out: &mut Vec<MacroStep>, button: JoypadButton, count: usize)
    ensures
        presses(final(out)@) == presses(old(out)@) + repeat(tap(button), count as nat),
{
    let first = vec![button];
    assert(first@ =~= seq![button]);
    add_pairs(out, first, Vec::new(), count);
}

fn add_tap(out: &mut Vec<MacroStep>, button: JoypadButton)
    ensures
        presses(final(out)@) == presses(old(out)@) + tap(button),
{
    let first = vec![button];
    assert(first@ =~= seq![button]);
    add_step(out, first, None);
    add_step(out, Vec::new(), None);
    assert(presses(out@) =~= presses(old(out)@) + tap(button));
}

fn add_sync(out: &mut Vec<MacroStep>, index: i32)
    ensures
        presses(final(out)@) == presses(old(out)@) + sync_macro(index as int),
{
    if index < 0 {
        assert(presses(out@) =~= presses(old(out)@) + sync_macro(index as int));
        return ;
    }
    let hold = vec![JoypadButton::A];
    let left = vec![JoypadButton::A, JoypadButton::Left];
    let right = vec![JoypadButton::A, JoypadButton::Right];
    assert(hold@ =~= seq![JoypadButton::A]);
    assert(left@ =~= seq![JoypadButton::A, JoypadButton::Left]);
    assert(right@ =~= seq![JoypadButton::A, JoypadButton::Right]);
    add_step(out, copy_buttons(&hold), None);
    add_pairs(out, left, copy_buttons(&hold), 16);
    add_pairs(out, right, hold, index as usize);
    add_step(out, Vec::new(), None);
    assert(presses(out@) =~= presses(old(out)@) + sync_macro(index as int));
}

/// The input macro that loads a song in the tracker. `version` holds the
/// numbers of the tracker's version where they are known; the sync setting
/// of a tracker that gives the time depends on them.
pub fn select_track_joypad_macro(
    track_index: u8,
    sync_role: SyncRole,
    version: Option<(i32, i32, i32)>,
) -> (steps: Vec<MacroStep>)
    ensures
        presses(steps@) == select_track_macro(track_index, sync_option(sync_role, version)),
{
    let mut out: Vec<MacroStep> = Vec::new();
    assert(presses(out@) =~= Seq::<MacroPress>::empty());
    // Past the opening screen, where there is one.
    add_tap(&mut out, JoypadButton::B);
    // Into the project menu.
    let select = vec![JoypadButton::Select];
    let select_up = vec![JoypadButton::Select, JoypadButton::Up];
    assert(select@ =~= seq![JoypadButton::Select]);
    assert(select_up@ =~= seq![JoypadButton::Select, JoypadButton::Up]);
    add_step(&mut out, select, None);
    add_step(&mut out, select_up, None);
    add_step(&mut out, Vec::new(), None);
    // To the top entry, then to the sync setting.
    add_taps(&mut out, JoypadButton::Up, 16);
    add_taps(&mut out, JoypadButton::Down, 2);
    add_sync(&mut out, sync_option_index(sync_role, version));
    // To the bottom entry, which loads and saves, then into the list.
    add_taps(&mut out, JoypadButton::Down, 16);
    add_tap(&mut out, JoypadButton::A);
    add_tap(&mut out, JoypadButton::A);
    // To the first song, then to the song asked for.
    add_taps(&mut out, JoypadButton::Up, 32);
    add_taps(&mut out, JoypadButton::Down, track_index as usize);
    add_tap(&mut out, JoypadButton::A);
    // The question whether to save changes, where it is asked.
    add_tap(&mut out, JoypadButton::Left);
    let confirm = vec![JoypadButton::A];
    assert(confirm@ =~= seq![JoypadButton::A]);
    add_step(&mut out, confirm, None);
    // Time for the song to load.
    add_step(&mut out, Vec::new(), Some(LOAD_WAIT_MS));
    assert(presses(out@) =~= select_track_macro(track_index, sync_option(sync_role, version)));
    out
}

} // verus!
