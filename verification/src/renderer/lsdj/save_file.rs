use crate::text::find_byte;
use crate::text::hex_string;
use crate::text::hex_text;
use crate::text::index_of;
use crate::text::utf8_decode;
use vstd::prelude::*;
use vstd::slice::slice_subrange;
use vstd::string::StringExecFns;
use vstd::utf8::decode_utf8;
use vstd::utf8::encode_utf8_decode_utf8;
use vstd::utf8::valid_utf8;

verus! {

/// Offset of the titles of the songs in a save file.
pub const TITLES_OFFSET: usize = 0x8000;

/// Offset of the versions of the songs.
pub const VERSIONS_OFFSET: usize = 0x8100;

/// Offset of the two bytes `jk` that mark a save file.
pub const MARK_OFFSET: usize = 0x813E;

/// Number of songs that a save file has room for.
pub const SLOT_COUNT: usize = 32;

/// Bytes that a title takes.
pub const TITLE_LEN: usize = 8;

/// Why the songs of a save file cannot be listed.
#[derive(Copy, Clone, Debug, PartialEq, Eq, Structural)]
pub enum SaveError {
    /// The file ends before its list of songs does.
    Truncated,
    /// The file is not marked as a save file.
    BadMark,
    /// The title of a song is not UTF-8.
    InvalidTitle,
    /// The file holds no song.
    Empty,
}

/// The title of the song with index `slot`: its eight bytes up to the first
/// zero.
pub open spec fn slot_title(sav: Seq<u8>, slot: int) -> Seq<u8> {
    let chunk = sav.subrange(TITLES_OFFSET + TITLE_LEN * slot, TITLES_OFFSET + TITLE_LEN * slot + 8);
    chunk.take(index_of(chunk, 0))
}

/// The number of songs: the songs from `from` on up to the first without a
/// title.
pub open spec fn used_slots(sav: Seq<u8>, from: int) -> int
    decreases SLOT_COUNT - from,
{
    if from >= SLOT_COUNT || slot_title(sav, from).len() == 0 {
        from
    } else {
        used_slots(sav, from + 1)
    }
}

proof fn lemma_used_slots(sav: Seq<u8>, from: int)
    requires
        0 <= from <= SLOT_COUNT,
    ensures
        from <= used_slots(sav, from) <= SLOT_COUNT,
    decreases SLOT_COUNT - from,
{
    if from < SLOT_COUNT && slot_title(sav, from).len() != 0 {
        lemma_used_slots(sav, from + 1);
    }
}

/// The name of the song with index `slot`: its title, a dot, and its
/// version in hexadecimal digits.
pub open spec fn slot_name(sav: Seq<u8>, slot: int) -> Seq<char> {
    decode_utf8(slot_title(sav, slot)) + seq!['.'] + hex_text(sav[VERSIONS_OFFSET + slot] as nat)
}

/// The names of the songs of a save file, or why they cannot be listed.
pub open spec fn titles_outcome(sav: Seq<u8>) -> Result<Seq<Seq<char>>, SaveError> {
    if sav.len() < MARK_OFFSET + 2 {
        Err(SaveError::Truncated)
    } else if sav[MARK_OFFSET as int] != 0x6A || sav[MARK_OFFSET + 1] != 0x6B {
        Err(SaveError::BadMark)
    } else if exists|i: int| 0 <= i < used_slots(sav, 0) && !valid_utf8(slot_title(sav, i)) {
        Err(SaveError::InvalidTitle)
    } else if used_slots(sav, 0) == 0 {
        Err(SaveError::Empty)
    } else {
        Ok(Seq::new(used_slots(sav, 0) as nat, |i: int| slot_name(sav, i)))
    }
}

/// Lists the songs of a save file, given as its bytes.
pub fn get_track_titles_from_save(sav: &[u8]) -> (res: Result<Vec<String>, SaveError>)
    ensures
        match res {
            Ok(titles) => {
                &&& titles_outcome(sav@) is Ok
                &&& titles@.len() == titles_outcome(sav@)->Ok_0.len()
                &&& forall|i: int|
                    0 <= i < titles@.len() ==> (#[trigger] titles@[i])@ == titles_outcome(
                        sav@,
                    )->Ok_0[i]
            },
            Err(e) => titles_outcome(sav@) == Err::<Seq<Seq<char>>, SaveError>(e),
        },
{
    if sav.len() < MARK_OFFSET + 2 {
        return Err(SaveError::Truncated);
    }
    if sav[MARK_OFFSET] != 0x6A || sav[MARK_OFFSET + 1] != 0x6B {
        return Err(SaveError::BadMark);
    }
    let mut result: Vec<String> = Vec::new();
    let mut slot: usize = 0;
    let mut more = true;
    while more && slot < SLOT_COUNT
        invariant
            sav@.len() >= MARK_OFFSET + 2,
            sav@[MARK_OFFSET as int] == 0x6A,
            sav@[MARK_OFFSET + 1] == 0x6B,
            slot <= SLOT_COUNT,
            more ==> used_slots(sav@, 0) == used_slots(sav@, slot as int),
            !more ==> used_slots(sav@, 0) == slot,
            forall|i: int| 0 <= i < slot ==> valid_utf8(slot_title(sav@, i)),
            result@.len() == slot,
            forall|i: int| 0 <= i < slot ==> (#[trigger] result@[i])@ == slot_name(sav@, i),
        decreases SLOT_COUNT - slot + if more { 1int } else { 0int },
    {
        let start: usize = TITLES_OFFSET + TITLE_LEN * slot;
        let chunk = slice_subrange(sav, start, start + TITLE_LEN);
        let end = find_byte(chunk, 0, 0);
        proof {
            assert(chunk@.skip(0) =~= chunk@);
        }
        if end == 0 {
            assert(slot_title(sav@, slot as int).len() == 0);
            more = false;
        } else {
            let raw = slice_subrange(chunk, 0, end);
            assert(raw@ =~= slot_title(sav@, slot as int));
            let mut name = match utf8_decode(raw) {
                Ok(name) => name,
                Err(_) => {
                    proof {
                        lemma_used_slots(sav@, slot + 1);
                        assert(slot_title(sav@, slot as int).len() != 0);
                        assert(used_slots(sav@, slot as int) == used_slots(sav@, slot + 1));
                        let bad = slot as int;
                        assert(0 <= bad < used_slots(sav@, 0) && !valid_utf8(slot_title(sav@, bad)));
                    }
                    return Err(SaveError::InvalidTitle);
                },
            };
            proof {
                encode_utf8_decode_utf8(name@);
                reveal_strlit(".");
            }
            name.append(".");
            let version = hex_string(sav[VERSIONS_OFFSET + slot] as u64);
            name.append(version.as_str());
            assert(name@ =~= slot_name(sav@, slot as int));
            result.push(name);
            slot = slot + 1;
        }
    }
    if result.len() == 0 {
        return Err(SaveError::Empty);
    }
    Ok(result)
}

} // verus!
