use crate::text::decode_text;
use crate::text::decoded_text;
use crate::text::find_byte;
use crate::text::index_of;
use crate::text::utf8_decode;
use crate::text::DECODE_LIMIT;
use crate::text::utf8_error_text;
use vstd::prelude::*;
use vstd::slice::slice_subrange;
use vstd::slice::slice_to_vec;
use vstd::string::StringExecFns;
use vstd::utf8::decode_utf8;
use vstd::utf8::encode_utf8_decode_utf8;
use vstd::utf8::valid_utf8;

verus! {

/// Length of the header of a song file.
pub const HEADER_LEN: usize = 0x70;

/// Width of a text field of the header.
pub const FIELD_LEN: usize = 0x20;

/// The text that `bytes` decode to as Shift-JIS, or `None` where they hold
/// a malformed sequence.
pub open spec fn shift_jis_text(bytes: Seq<u8>) -> Option<Seq<char>> {
    decoded_text(true, bytes)
}

/// What `decode_shift_jis` returns for `bytes`.
pub open spec fn shift_jis_outcome(bytes: Seq<u8>) -> Option<Seq<char>> {
    if bytes.len() > DECODE_LIMIT {
        None
    } else {
        shift_jis_text(bytes)
    }
}

/// Decodes Shift-JIS. `None` where the bytes hold a malformed sequence, or
/// are more than the decoder is given at once.
pub fn decode_shift_jis(s: &[u8]) -> (text: Option<String>)
    ensures
        match text {
            Some(t) => shift_jis_outcome(s@) == Some(t@),
            None => shift_jis_outcome(s@) is None,
        },
{
    if s.len() > DECODE_LIMIT {
        None
    } else {
        decode_text(true, s)
    }
}

/// Whether `data` starts with the tag `GBS` and the version 1.
pub open spec fn has_gbs_magic(data: Seq<u8>) -> bool {
    &&& data.len() >= 4
    &&& data[0] == 0x47
    &&& data[1] == 0x42
    &&& data[2] == 0x53
    &&& data[3] == 1
}

/// A song file that `Gbs` accepts: the tag, and a whole header.
pub open spec fn valid_gbs(data: Seq<u8>) -> bool {
    has_gbs_magic(data) && data.len() >= HEADER_LEN
}

/// The bytes of the text field of `max_len` bytes at `offset`: the field
/// up to its first zero.
pub open spec fn field_bytes(data: Seq<u8>, offset: int, max_len: int) -> Seq<u8> {
    let field = data.subrange(offset, offset + max_len);
    field.take(index_of(field, 0))
}

/// The text of a field: what its bytes decode to as Shift-JIS, where they
/// do, and as UTF-8 otherwise. `shift_jis` is what the Shift-JIS decoder made
/// of the bytes.
pub open spec fn field_text(bytes: Seq<u8>, shift_jis: Option<Seq<char>>) -> Result<
    Seq<char>,
    Seq<char>,
> {
    match shift_jis {
        Some(text) => Ok(text),
        None => if valid_utf8(bytes) {
            Ok(decode_utf8(bytes))
        } else {
            Err(utf8_error_text(bytes))
        },
    }
}

/// Whether `res` is what `outcome` says.
pub open spec fn text_is(res: Result<String, String>, outcome: Result<Seq<char>, Seq<char>>) -> bool {
    match res {
        Ok(text) => outcome == Ok::<Seq<char>, Seq<char>>(text@),
        Err(message) => outcome == Err::<Seq<char>, Seq<char>>(message@),
    }
}

/// A song file.
pub struct Gbs {
    data: Vec<u8>,
}

impl View for Gbs {
    type V = Seq<u8>;

    closed spec fn view(&self) -> Seq<u8> {
        self.data@
    }
}

impl Gbs {
    #[verifier::type_invariant]
    spec fn well_formed(self) -> bool {
        valid_gbs(self.data@)
    }

    /// Accepts the bytes of a song file: they have to begin with the tag
    /// and to hold the whole header.
    pub fn new(data: &[u8]) -> (res: Result<Self, String>)
        ensures
            match res {
                Ok(gbs) => valid_gbs(data@) && gbs@ == data@,
                Err(message) => !valid_gbs(data@) && message@ == "Invalid GBS file"@,
            },
    {
        if data.len() < HEADER_LEN || data[0] != 0x47 || data[1] != 0x42 || data[2] != 0x53
            || data[3] != 1 {
            return Err(String::from_str("Invalid GBS file"));
        }
        Ok(Self { data: slice_to_vec(data) })
    }

    /// Number of songs in the file.
    pub fn song_count(&self) -> (count: u8)
        ensures
            count == self@[4],
            valid_gbs(self@),
    {
        proof {
            use_type_invariant(self);
        }
        self.data[4]
    }

    /// Number of the song that is played first, counted from 1.
    pub fn starting_song(&self) -> (song: u8)
        ensures
            song == self@[5],
            valid_gbs(self@),
    {
        proof {
            use_type_invariant(self);
        }
        self.data[5]
    }

    /// The text of a field, given what the Shift-JIS decoder made of its
    /// bytes.
    pub fn text_from(bytes: &[u8], shift_jis: Option<String>) -> (res: Result<String, String>)
        ensures
            text_is(
                res,
                field_text(
                    bytes@,
                    match shift_jis {
                        Some(t) => Some(t@),
                        None => None,
                    },
                ),
            ),
    {
        match shift_jis {
            Some(text) => Ok(text),
            None => {
                match utf8_decode(bytes) {
                    Ok(text) => {
                        proof {
                            encode_utf8_decode_utf8(text@);
                        }
                        Ok(text)
                    },
                    Err(message) => Err(message),
                }
            },
        }
    }

    fn parse_string(&self, offset: usize, max_len: usize) -> (res: Result<String, String>)
        requires
            offset + max_len <= HEADER_LEN,
        ensures
            text_is(
                res,
                field_text(
                    field_bytes(self@, offset as int, max_len as int),
                    shift_jis_outcome(field_bytes(self@, offset as int, max_len as int)),
                ),
            ),
    {
        proof {
            use_type_invariant(self);
        }
        let field = slice_subrange(self.data.as_slice(), offset, offset + max_len);
        let end = find_byte(field, 0, 0);
        let bytes = slice_subrange(field, 0, end);
        proof {
            assert(field@.skip(0) =~= field@);
            assert(bytes@ =~= field_bytes(self@, offset as int, max_len as int));
        }
        Gbs::text_from(bytes, decode_shift_jis(bytes))
    }

    /// The title of the album.
    pub fn title(&self) -> (res: Result<String, String>)
        ensures
            text_is(
                res,
                field_text(
                    field_bytes(self@, 0x10, 0x20),
                    shift_jis_outcome(field_bytes(self@, 0x10, 0x20)),
                ),
            ),
    {
        self.parse_string(0x10, FIELD_LEN)
    }

    /// The artist.
    pub fn artist(&self) -> (res: Result<String, String>)
        ensures
            text_is(
                res,
                field_text(
                    field_bytes(self@, 0x30, 0x20),
                    shift_jis_outcome(field_bytes(self@, 0x30, 0x20)),
                ),
            ),
    {
        self.parse_string(0x30, FIELD_LEN)
    }

    /// The holder of the copyright.
    pub fn copyright(&self) -> (res: Result<String, String>)
        ensures
            text_is(
                res,
                field_text(
                    field_bytes(self@, 0x50, 0x20),
                    shift_jis_outcome(field_bytes(self@, 0x50, 0x20)),
                ),
            ),
    {
        self.parse_string(0x50, FIELD_LEN)
    }
}

} // verus!
