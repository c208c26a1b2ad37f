//! Reading the playlists that name the tracks of a song file: one track a
//! line, as the file's name with `::GBS`, the number of the track, its title
//! and its length, with commas between them.

use super::gbs::decode_shift_jis;
use super::gbs::shift_jis_outcome;
use crate::text::decode_text;
use crate::text::decoded_text;
use crate::text::index_of;
use crate::text::lemma_index_of;
use crate::text::parse_unsigned;
use crate::text::split;
use crate::text::split_bytes;
use crate::text::unsigned_value;
use crate::text::utf8_decode;
use crate::text::utf8_error_text;
use crate::text::DECODE_LIMIT;
use vstd::prelude::*;
use vstd::string::StrSliceExecFns;
use vstd::string::StringExecFns;
use vstd::utf8::decode_utf8;
use vstd::utf8::encode_utf8;
use vstd::utf8::encode_utf8_decode_utf8;
use vstd::utf8::valid_utf8;

verus! {

/// Most characters of a title that is kept whole.
pub const TITLE_LIMIT: usize = 60;

/// Characters that are kept of a title that is longer; three dots follow
/// them.
pub const TITLE_KEPT: usize = 57;

/// Why the number of a track cannot be read.
#[derive(Copy, Clone, Debug, PartialEq, Eq, Structural)]
pub enum IndexError {
    /// There is nothing to read.
    Empty,
    /// A character is no digit.
    InvalidDigit,
    /// The number is more than 255.
    TooLarge,
}

/// A track that a playlist names.
#[derive(Clone, Debug, PartialEq, Eq)]
pub struct TrackEntry {
    /// The number of the track in the song file.
    pub index: u8,
    pub title: String,
    /// The length of the track in seconds, where the playlist tells it.
    pub duration: Option<u64>,
}

/// What a `TrackEntry` stands for.
pub struct TrackText {
    pub index: u8,
    pub title: Seq<char>,
    pub duration: Option<u64>,
}

impl View for TrackEntry {
    type V = TrackText;

    open spec fn view(&self) -> TrackText {
        TrackText { index: self.index, title: self.title@, duration: self.duration }
    }
}

/// The text that `bytes` decode to as Windows-1252, or `None` where they
/// hold a malformed sequence.
pub open spec fn windows_1252_text(bytes: Seq<u8>) -> Option<Seq<char>> {
    decoded_text(false, bytes)
}

/// The text of a playlist: what its bytes decode to as Windows-1252, else
/// as Shift-JIS, else as UTF-8. `western` and `japanese` are what the first
/// two decoders made of the bytes.
pub open spec fn playlist_text(
    bytes: Seq<u8>,
    western: Option<Seq<char>>,
    japanese: Option<Seq<char>>,
) -> Result<Seq<char>, Seq<char>> {
    match western {
        Some(text) => Ok(text),
        None => match japanese {
            Some(text) => Ok(text),
            None => if valid_utf8(bytes) {
                Ok(decode_utf8(bytes))
            } else {
                Err(utf8_error_text(bytes))
            },
        },
    }
}

/// What the Windows-1252 decoder is taken to make of `bytes`: nothing of
/// more bytes than it is given at once.
pub open spec fn windows_1252_outcome(bytes: Seq<u8>) -> Option<Seq<char>> {
    if bytes.len() > DECODE_LIMIT {
        None
    } else {
        windows_1252_text(bytes)
    }
}

/// The text of a playlist, given what the two decoders made of its bytes.
pub fn text_from(bytes: &[u8], western: Option<String>, japanese: Option<String>) -> (res: Result<
    String,
    String,
>)
    ensures
        match res {
            Ok(text) => playlist_text(
                bytes@,
                match western {
                    Some(t) => Some(t@),
                    None => None,
                },
                match japanese {
                    Some(t) => Some(t@),
                    None => None,
                },
            ) == Ok::<Seq<char>, Seq<char>>(text@),
            Err(message) => playlist_text(
                bytes@,
                match western {
                    Some(t) => Some(t@),
                    None => None,
                },
                match japanese {
                    Some(t) => Some(t@),
                    None => None,
                },
            ) == Err::<Seq<char>, Seq<char>>(message@),
        },
{
    match western {
        Some(text) => Ok(text),
        None => match japanese {
            Some(text) => Ok(text),
            None => match utf8_decode(bytes) {
                Ok(text) => {
                    proof {
                        encode_utf8_decode_utf8(text@);
                    }
                    Ok(text)
                },
                Err(message) => Err(message),
            },
        },
    }
}

/// Decodes the bytes of a playlist.
pub fn decode_playlist(bytes: &[u8]) -> (res: Result<String, String>)
    ensures
        match res {
            Ok(text) => playlist_text(
                bytes@,
                windows_1252_outcome(bytes@),
                shift_jis_outcome(bytes@),
            ) == Ok::<Seq<char>, Seq<char>>(text@),
            Err(message) => playlist_text(
                bytes@,
                windows_1252_outcome(bytes@),
                shift_jis_outcome(bytes@),
            ) == Err::<Seq<char>, Seq<char>>(message@),
        },
{
    let western = if bytes.len() > DECODE_LIMIT {
        None
    } else {
        decode_text(false, bytes)
    };
    match western {
        Some(text) => Ok(text),
        None => text_from(bytes, None, decode_shift_jis(bytes)),
    }
}

/// A text in small letters, as the standard library makes them.
pub uninterp spec fn lowercase_text(s: Seq<char>) -> Seq<char>;

/// `str::to_lowercase`: the text with every character in its lowercase
/// form. Nothing is claimed but that the result depends on the text alone.
#[verifier::external_body]
fn lowercase(s: &str) -> (lower: String)
    ensures
        lower@ == lowercase_text(s@),
{
    s.to_lowercase()
}

/// `s` with one backslash for every two, read from the left.
pub open spec fn unescaped(s: Seq<char>) -> Seq<char>
    decreases s.len(),
{
    if s.len() == 0 {
        s
    } else if s.len() >= 2 && s[0] == '\\' && s[1] == '\\' {
        seq!['\\'] + unescaped(s.skip(2))
    } else {
        seq![s[0]] + unescaped(s.skip(1))
    }
}

/// `s` without its pairs of backslashes, read from the left.
pub open spec fn without_pairs(s: Seq<char>) -> Seq<char>
    decreases s.len(),
{
    if s.len() == 0 {
        s
    } else if s.len() >= 2 && s[0] == '\\' && s[1] == '\\' {
        without_pairs(s.skip(2))
    } else {
        seq![s[0]] + without_pairs(s.skip(1))
    }
}

/// Whether the comma behind the field `s` belongs to it: the field ends in
/// a backslash once its pairs of backslashes are left out.
pub open spec fn takes_comma(s: Seq<char>) -> bool {
    without_pairs(s).len() > 0 && without_pairs(s).last() == '\\'
}

/// The fields that the first `count` of the pieces `raw` of a line make:
/// each piece is a field, with one backslash for every two, but a piece
/// behind a field that takes its comma is joined to that field, where the
/// comma stands for the field's last character.
pub open spec fn joined(raw: Seq<Seq<char>>, count: int) -> Seq<Seq<char>>
    decreases count,
{
    if count <= 0 {
        Seq::empty()
    } else {
        let before = joined(raw, count - 1);
        let piece = unescaped(raw[count - 1]);
        if before.len() > 0 && takes_comma(before.last()) {
            before.drop_last().push(before.last().drop_last() + seq![','] + piece)
        } else {
            before.push(piece)
        }
    }
}

/// The fields of a line.
pub open spec fn fields_of(line: Seq<char>) -> Seq<Seq<char>> {
    joined(split(line, ','), split(line, ',').len() as int)
}

/// The field with index `index`, empty where the line has no such field.
pub open spec fn field_at(fields: Seq<Seq<char>>, index: int) -> Seq<char> {
    if 0 <= index < fields.len() {
        fields[index]
    } else {
        Seq::empty()
    }
}

/// The number of a track as the standard library reads it from the bytes
/// of a string: digits, before which a `+` may stand. The first character
/// that is no digit, or the first digit with which the number is more than
/// 255, decides the error.
pub open spec fn index_value(s: Seq<u8>) -> Result<u8, IndexError> {
    if s.len() == 0 {
        Err(IndexError::Empty)
    } else if s.len() == 1 && (s[0] == 0x2B || s[0] == 0x2D) {
        Err(IndexError::InvalidDigit)
    } else if s[0] == 0x2B {
        digits_from(s, 1, 0)
    } else {
        digits_from(s, 0, 0)
    }
}

/// Reads the digits of `s` from `at` on, with `value` read so far.
pub open spec fn digits_from(s: Seq<u8>, at: int, value: int) -> Result<u8, IndexError>
    decreases s.len() - at,
{
    if at >= s.len() {
        Ok(value as u8)
    } else if !(0x30 <= s[at] <= 0x39) {
        Err(IndexError::InvalidDigit)
    } else if 10 * value + (s[at] - 0x30) > 255 {
        Err(IndexError::TooLarge)
    } else {
        digits_from(s, at + 1, 10 * value + (s[at] - 0x30))
    }
}

/// Reads the number of a track.
pub fn parse_index(s: &[u8]) -> (res: Result<u8, IndexError>)
    ensures
        res == index_value(s@),
{
    if s.len() == 0 {
        return Err(IndexError::Empty);
    }
    if s.len() == 1 && (s[0] == 0x2B || s[0] == 0x2D) {
        return Err(IndexError::InvalidDigit);
    }
    let mut at: usize = if s[0] == 0x2B {
        1
    } else {
        0
    };
    let mut value: u8 = 0;
    while at < s.len()
        invariant
            at <= s@.len(),
            digits_from(s@, at as int, value as int) == index_value(s@),
        decreases s@.len() - at,
    {
        let c = s[at];
        if c < 0x30 || c > 0x39 {
            return Err(IndexError::InvalidDigit);
        }
        let digit = c - 0x30;
        if value > 25 || (value == 25 && digit > 5) {
            return Err(IndexError::TooLarge);
        }
        value = 10 * value + digit;
        at = at + 1;
    }
    Ok(value)
}

/// The length in seconds that the bytes of a string name: numbers with
/// colons between them, each sixty times the next. What is no number counts
/// as 0, and the sum is kept to 64 bits.
pub open spec fn duration_value(parts: Seq<Seq<u8>>, count: int) -> int
    decreases count,
{
    if count <= 0 {
        0
    } else {
        let part = match unsigned_value(parts[count - 1], u64::MAX as int) {
            Some(v) => v,
            None => 0,
        };
        (duration_value(parts, count - 1) * 60 + part) % 0x1_0000_0000_0000_0000
    }
}

/// Reads a length such as `1:30`, which is 90 seconds.
pub fn parse_duration(s: &[u8]) -> (seconds: u64)
    ensures
        seconds == duration_value(split(s@, 0x3Au8), split(s@, 0x3Au8).len() as int),
{
    let parts = split_bytes(s, 0x3A);
    let ghost texts = split(s@, 0x3Au8);
    let mut seconds: u64 = 0;
    let mut i: usize = 0;
    while i < parts.len()
        invariant
            i <= parts@.len(),
            parts@.len() == texts.len(),
            forall|j: int| 0 <= j < parts@.len() ==> (#[trigger] parts@[j])@ == texts[j],
            seconds == duration_value(texts, i as int),
        decreases parts@.len() - i,
    {
        let part = match parse_unsigned(parts[i].as_slice(), u64::MAX) {
            Some(v) => v,
            None => 0,
        };
        let wide: u128 = seconds as u128 * 60 + part as u128;
        seconds = (wide % 0x1_0000_0000_0000_0000) as u64;
        i = i + 1;
    }
    seconds
}

fn find_char(s: &str, len: usize, from: usize, sep: char) -> (end: usize)
    requires
        len == s@.len(),
        from <= len,
    ensures
        from <= end <= len,
        end - from == index_of(s@.skip(from as int), sep),
{
    let mut end = from;
    while end < len && s.get_char(end) != sep
        invariant
            len == s@.len(),
            from <= end <= len,
            index_of(s@.skip(from as int), sep) == (end - from) + index_of(s@.skip(end as int), sep),
        decreases len - end,
    {
        proof {
            let rest = s@.skip(end as int);
            assert(rest[0] == s@[end as int]);
            assert(rest.drop_first() =~= s@.skip(end + 1));
        }
        end = end + 1;
    }
    proof {
        let rest = s@.skip(end as int);
        if end < len {
            assert(rest[0] == s@[end as int]);
        }
    }
    end
}

/// What each of `texts` holds.
pub open spec fn texts_of(texts: Seq<String>) -> Seq<Seq<char>> {
    Seq::new(texts.len(), |i: int| texts[i]@)
}

/// Cuts a text at every `sep`.
pub fn split_text(s: &str, sep: char) -> (parts: Vec<String>)
    ensures
        texts_of(parts@) == split(s@, sep),
{
    let len = s.unicode_len();
    let mut parts: Vec<String> = Vec::new();
    let mut pos: usize = 0;
    let mut more = true;
    proof {
        assert(s@.skip(0) =~= s@);
        assert(split(s@, sep).skip(0) =~= split(s@, sep));
    }
    while more
        invariant
            len == s@.len(),
            pos <= len,
            parts@.len() <= split(s@, sep).len(),
            forall|i: int| 0 <= i < parts@.len() ==> (#[trigger] parts@[i])@ == split(s@, sep)[i],
            more ==> split(s@, sep).skip(parts@.len() as int) == split(s@.skip(pos as int), sep),
            !more ==> parts@.len() == split(s@, sep).len(),
        decreases len - pos + if more { 1int } else { 0int },
    {
        let end = find_char(s, len, pos, sep);
        let part = String::from_str(s.substring_char(pos, end));
        proof {
            let rest = s@.skip(pos as int);
            let k = index_of(rest, sep);
            let all = split(s@, sep);
            let n = parts@.len() as int;
            lemma_index_of(rest, sep);
            assert(rest.take(k) =~= s@.subrange(pos as int, end as int));
            assert(split(rest, sep).len() >= 1);
            assert(all.skip(n).len() >= 1);
            assert(all.skip(n)[0] == all[n]);
            if k < rest.len() {
                assert(rest.skip(k + 1) =~= s@.skip(end + 1));
                assert(all.skip(n + 1) =~= all.skip(n).skip(1));
                assert(all.skip(n).skip(1) =~= split(rest.skip(k + 1), sep));
            } else {
                assert(rest.take(k) =~= rest);
                assert(all.skip(n).len() == 1);
            }
        }
        parts.push(part);
        if end == len {
            more = false;
        } else {
            pos = end + 1;
        }
    }
    assert(texts_of(parts@) =~= split(s@, sep));
    parts
}

/// Leaves out the pairs of backslashes of a text, or keeps one backslash
/// of each.
fn fold_pairs(s: &str, keep_one: bool) -> (out: String)
    ensures
        out@ == if keep_one {
            unescaped(s@)
        } else {
            without_pairs(s@)
        },
{
    let len = s.unicode_len();
    let mut out = String::new();
    let mut i: usize = 0;
    let ghost goal = if keep_one {
        unescaped(s@)
    } else {
        without_pairs(s@)
    };
    assert(s@.skip(0) =~= s@);
    while i < len
        invariant
            len == s@.len(),
            i <= len,
            goal == if keep_one {
                unescaped(s@)
            } else {
                without_pairs(s@)
            },
            goal == out@ + if keep_one {
                unescaped(s@.skip(i as int))
            } else {
                without_pairs(s@.skip(i as int))
            },
        decreases len - i,
    {
        let ghost rest = s@.skip(i as int);
        let ghost before = out@;
        proof {
            assert(rest[0] == s@[i as int]);
            if i + 1 < len {
                assert(rest[1] == s@[i + 1]);
            }
        }
        if len - i >= 2 && s.get_char(i) == '\\' && s.get_char(i + 1) == '\\' {
            if keep_one {
                proof {
                    reveal_strlit("\\");
                }
                out.append("\\");
                assert(out@ =~= before + seq!['\\']);
            }
            proof {
                assert(rest.skip(2) =~= s@.skip(i + 2));
                if keep_one {
                    assert(out@ + unescaped(s@.skip(i + 2)) =~= before + unescaped(rest));
                }
            }
            i = i + 2;
        } else {
            out.append(s.substring_char(i, i + 1));
            proof {
                assert(s@.subrange(i as int, i + 1) =~= seq![rest[0]]);
                assert(rest.skip(1) =~= s@.skip(i + 1));
                if keep_one {
                    assert(out@ + unescaped(s@.skip(i + 1)) =~= before + unescaped(rest));
                } else {
                    assert(out@ + without_pairs(s@.skip(i + 1)) =~= before + without_pairs(rest));
                }
            }
            i = i + 1;
        }
    }
    proof {
        let rest = s@.skip(i as int);
        assert(rest.len() == 0);
        assert(out@ + rest =~= out@);
    }
    out
}

fn has_open_escape(s: &str) -> (open: bool)
    ensures
        open == takes_comma(s@),
{
    let plain = fold_pairs(s, false);
    let n = plain.as_str().unicode_len();
    n > 0 && plain.as_str().get_char(n - 1) == '\\'
}

/// The fields of a line.
pub fn line_fields(line: &str) -> (fields: Vec<String>)
    ensures
        texts_of(fields@) == fields_of(line@),
{
    let raw = split_text(line, ',');
    let ghost pieces = split(line@, ',');
    let mut fields: Vec<String> = Vec::new();
    let mut i: usize = 0;
    assert(texts_of(fields@) =~= joined(pieces, 0));
    while i < raw.len()
        invariant
            i <= raw@.len(),
            texts_of(raw@) == pieces,
            texts_of(fields@) == joined(pieces, i as int),
        decreases raw@.len() - i,
    {
        let ghost before = texts_of(fields@);
        assert(raw@[i as int]@ == pieces[i as int]);
        let piece = fold_pairs(raw[i].as_str(), true);
        let n = fields.len();
        let join = n > 0 && has_open_escape(fields[n - 1].as_str());
        proof {
            if n > 0 {
                assert(before.last() == fields@[n - 1]@);
            }
        }
        if join {
            let last = fields.pop().unwrap();
            let count = last.as_str().unicode_len();
            proof {
                assert(without_pairs(last@).len() > 0);
                lemma_pairs_shorten(last@);
            }
            let mut merged = String::from_str(last.as_str().substring_char(0, count - 1));
            proof {
                reveal_strlit(",");
            }
            merged.append(",");
            merged.append(piece.as_str());
            proof {
                assert(last@.subrange(0, count - 1) =~= last@.drop_last());
                assert(merged@ =~= before.last().drop_last() + seq![','] + piece@);
                assert(texts_of(fields@) =~= before.drop_last());
            }
            fields.push(merged);
            assert(texts_of(fields@) =~= before.drop_last().push(merged@));
        } else {
            fields.push(piece);
            assert(texts_of(fields@) =~= before.push(piece@));
        }
        i = i + 1;
    }
    fields
}

/// Leaving pairs out makes a text no longer.
pub proof fn lemma_pairs_shorten(s: Seq<char>)
    ensures
        without_pairs(s).len() <= s.len(),
    decreases s.len(),
{
    if s.len() == 0 {
    } else if s.len() >= 2 && s[0] == '\\' && s[1] == '\\' {
        lemma_pairs_shorten(s.skip(2));
    } else {
        lemma_pairs_shorten(s.skip(1));
    }
}

/// A title as it is kept: one of more than 60 characters is cut to 57, and
/// three dots are put behind them.
pub open spec fn kept_title(title: Seq<char>) -> Seq<char> {
    if title.len() > TITLE_LIMIT {
        title.take(TITLE_KEPT as int) + seq!['.', '.', '.']
    } else {
        title
    }
}

/// What a line of a playlist says.
pub enum LineText {
    /// Nothing: the line is empty, a comment, about another file, or names
    /// no title.
    Skip,
    /// A track.
    Track(TrackText),
    /// The line is about the file, but the number of the track cannot be
    /// read.
    BadIndex(IndexError),
}

/// What a line says, where `wanted` names the file in small letters: the
/// name of the song file and `::gbs`.
#[verifier::opaque]
pub open spec fn line_text(line: Seq<char>, wanted: Seq<char>) -> LineText {
    let fields = fields_of(line);
    if line.len() == 0 || line[0] == '#' {
        LineText::Skip
    } else if lowercase_text(field_at(fields, 0)) != wanted {
        LineText::Skip
    } else {
        match index_value(encode_utf8(field_at(fields, 1))) {
            Err(e) => LineText::BadIndex(e),
            Ok(index) => if field_at(fields, 2).len() == 0 {
                LineText::Skip
            } else {
                let seconds = duration_value(
                    split(encode_utf8(field_at(fields, 3)), 0x3Au8),
                    split(encode_utf8(field_at(fields, 3)), 0x3Au8).len() as int,
                );
                LineText::Track(
                    TrackText {
                        index,
                        title: kept_title(field_at(fields, 2)),
                        duration: if seconds == 0 {
                            None
                        } else {
                            Some(seconds as u64)
                        },
                    },
                )
            },
        }
    }
}

/// What a line of a playlist says, as `parse_line` returns it.
pub enum Line {
    Skip,
    Track(TrackEntry),
    BadIndex(IndexError),
}

impl View for Line {
    type V = LineText;

    open spec fn view(&self) -> LineText {
        match self {
            Line::Skip => LineText::Skip,
            Line::Track(entry) => LineText::Track(entry@),
            Line::BadIndex(e) => LineText::BadIndex(*e),
        }
    }
}

fn field(fields: &Vec<String>, index: usize) -> (text: String)
    ensures
        text@ == field_at(texts_of(fields@), index as int),
{
    if index < fields.len() {
        fields[index].clone()
    } else {
        String::new()
    }
}

/// Reads a line of a playlist. `wanted` names the file in small letters.
pub fn parse_line(line: &str, wanted: &String) -> (res: Line)
    ensures
        res@ == line_text(line@, wanted@),
{
    reveal(line_text);
    let len = line.unicode_len();
    if len == 0 || line.get_char(0) == '#' {
        return Line::Skip;
    }
    let fields = line_fields(line);
    let filename = field(&fields, 0);
    if !lowercase(filename.as_str()).eq(wanted) {
        return Line::Skip;
    }
    let number = field(&fields, 1);
    let index = match parse_index(number.as_str().as_bytes()) {
        Ok(index) => index,
        Err(e) => {
            return Line::BadIndex(e);
        },
    };
    let title = field(&fields, 2);
    let count = title.as_str().unicode_len();
    if count == 0 {
        return Line::Skip;
    }
    let kept = if count > TITLE_LIMIT {
        let mut kept = String::from_str(title.as_str().substring_char(0, TITLE_KEPT));
        proof {
            reveal_strlit("...");
        }
        kept.append("...");
        assert(kept@ =~= kept_title(title@));
        kept
    } else {
        title
    };
    let length = field(&fields, 3);
    let seconds = parse_duration(length.as_str().as_bytes());
    Line::Track(
        TrackEntry {
            index,
            title: kept,
            duration: if seconds == 0 {
                None
            } else {
                Some(seconds)
            },
        },
    )
}

/// The lines of a text: it is cut at every line feed, and a carriage
/// return before a line feed goes with it.
pub open spec fn line_at(pieces: Seq<Seq<char>>, index: int) -> Seq<char> {
    let piece = pieces[index];
    if index + 1 < pieces.len() && piece.len() > 0 && piece.last() == '\r' {
        piece.drop_last()
    } else {
        piece
    }
}

fn nth_line(pieces: &Vec<String>, index: usize) -> (line: &str)
    requires
        index < pieces@.len(),
    ensures
        line@ == line_at(texts_of(pieces@), index as int),
{
    let piece = pieces[index].as_str();
    let count = piece.unicode_len();
    if index < pieces.len() - 1 && count > 0 && piece.get_char(count - 1) == '\r' {
        let line = piece.substring_char(0, count - 1);
        assert(line@ =~= piece@.drop_last());
        line
    } else {
        piece
    }
}

/// The tracks that the first `count` lines of a playlist name for the
/// file, in their order, or the first error in them.
pub open spec fn tracks_of(pieces: Seq<Seq<char>>, wanted: Seq<char>, count: int) -> Result<
    Seq<TrackText>,
    IndexError,
>
    decreases count,
{
    if count <= 0 {
        Ok(Seq::empty())
    } else {
        match tracks_of(pieces, wanted, count - 1) {
            Err(e) => Err(e),
            Ok(tracks) => match line_text(line_at(pieces, count - 1), wanted) {
                LineText::Skip => Ok(tracks),
                LineText::Track(track) => Ok(tracks.push(track)),
                LineText::BadIndex(e) => Err(e),
            },
        }
    }
}

/// An error in the first lines is the error of the whole playlist.
pub proof fn lemma_error_stays(
    pieces: Seq<Seq<char>>,
    wanted: Seq<char>,
    count: int,
    total: int,
)
    requires
        count <= total,
        tracks_of(pieces, wanted, count) is Err,
    ensures
        tracks_of(pieces, wanted, total) == tracks_of(pieces, wanted, count),
    decreases total - count,
{
    if count < total {
        lemma_error_stays(pieces, wanted, count, total - 1);
    }
}

/// The name that the lines about a song file begin with, in small
/// letters.
pub open spec fn wanted_name(gbs_filename: Seq<char>) -> Seq<char> {
    lowercase_text(gbs_filename) + seq![':', ':', 'g', 'b', 's']
}

/// What each of `tracks` stands for.
pub open spec fn track_texts(tracks: Seq<TrackEntry>) -> Seq<TrackText> {
    Seq::new(tracks.len(), |i: int| tracks[i]@)
}

/// Reads a playlist: the tracks that it names for the song file with the
/// name `gbs_filename`, in the order of their lines. Where a track is named
/// twice, the later line counts.
pub fn parse_playlist(text: &str, gbs_filename: &str) -> (res: Result<Vec<TrackEntry>, IndexError>)
    ensures
        match res {
            Ok(tracks) => tracks_of(
                split(text@, '\n'),
                wanted_name(gbs_filename@),
                split(text@, '\n').len() as int,
            ) == Ok::<Seq<TrackText>, IndexError>(track_texts(tracks@)),
            Err(e) => tracks_of(
                split(text@, '\n'),
                wanted_name(gbs_filename@),
                split(text@, '\n').len() as int,
            ) == Err::<Seq<TrackText>, IndexError>(e),
        },
{
    let mut wanted = lowercase(gbs_filename);
    proof {
        reveal_strlit("::gbs");
    }
    wanted.append("::gbs");
    assert(wanted@ =~= wanted_name(gbs_filename@));
    let pieces = split_text(text, '\n');
    let ghost lines = split(text@, '\n');
    let mut tracks: Vec<TrackEntry> = Vec::new();
    let mut i: usize = 0;
    assert(track_texts(tracks@) =~= Seq::<TrackText>::empty());
    while i < pieces.len()
        invariant
            i <= pieces@.len(),
            texts_of(pieces@) == lines,
            lines == split(text@, '\n'),
            wanted@ == wanted_name(gbs_filename@),
            tracks_of(lines, wanted@, i as int) == Ok::<Seq<TrackText>, IndexError>(
                track_texts(tracks@),
            ),
        decreases pieces@.len() - i,
    {
        let line = nth_line(&pieces, i);
        let ghost before = track_texts(tracks@);
        match parse_line(line, &wanted) {
            Line::Skip => {},
            Line::Track(entry) => {
                tracks.push(entry);
                assert(track_texts(tracks@) =~= before.push(entry@));
            },
            Line::BadIndex(e) => {
                proof {
                    assert(tracks_of(lines, wanted@, i + 1) == Err::<Seq<TrackText>, IndexError>(
                        e,
                    ));
                    lemma_error_stays(lines, wanted@, i + 1, lines.len() as int);
                }
                return Err(e);
            },
        }
        i = i + 1;
    }
    Ok(tracks)
}

} // verus!
