use super::vgm::le_u16;
use crate::text::index_of;
use crate::text::lemma_index_of;
use crate::text::split;
use super::vgm::le_u32;
use super::vgm::read_le_u32;
use vstd::prelude::*;
use vstd::slice::slice_subrange;
use vstd::slice::slice_to_vec;

verus! {

/// Number of strings in a metadata block.
pub const FIELD_COUNT: usize = 11;

/// Why a byte string is not an acceptable metadata block.
#[derive(Clone, Copy, Debug, PartialEq, Eq, Structural)]
pub enum Gd3Error {
    /// It does not start with `Gd3 `.
    BadMagic,
    /// It ends before the string table that its header announces does.
    Truncated,
    /// A string is not UTF-16.
    InvalidStringTable,
    /// The string with this index, counted from 0, is missing.
    MissingField(usize),
}

/// The metadata of a log.
#[derive(Clone, Default)]
pub struct Gd3 {
    pub version: u32,
    pub title: String,
    pub original_title: String,
    pub game: String,
    pub original_game: String,
    pub system: String,
    pub original_system: String,
    pub author: String,
    pub original_author: String,
    pub release_date: String,
    pub ripper: String,
    pub notes: String,
}

/// What a `Gd3` stands for.
pub struct Gd3Text {
    pub version: u32,
    pub title: Seq<char>,
    pub original_title: Seq<char>,
    pub game: Seq<char>,
    pub original_game: Seq<char>,
    pub system: Seq<char>,
    pub original_system: Seq<char>,
    pub author: Seq<char>,
    pub original_author: Seq<char>,
    pub release_date: Seq<char>,
    pub ripper: Seq<char>,
    pub notes: Seq<char>,
}

impl View for Gd3 {
    type V = Gd3Text;

    open spec fn view(&self) -> Gd3Text {
        Gd3Text {
            version: self.version,
            title: self.title@,
            original_title: self.original_title@,
            game: self.game@,
            original_game: self.original_game@,
            system: self.system@,
            original_system: self.original_system@,
            author: self.author@,
            original_author: self.original_author@,
            release_date: self.release_date@,
            ripper: self.ripper@,
            notes: self.notes@,
        }
    }
}

/// Whether `data` starts with the four bytes `Gd3 `.
pub open spec fn has_gd3_magic(data: Seq<u8>) -> bool {
    &&& data.len() >= 4
    &&& data[0] == 0x47
    &&& data[1] == 0x64
    &&& data[2] == 0x33
    &&& data[3] == 0x20
}

/// The 16-bit units that `bytes` holds, low byte first; a last odd byte is
/// left out.
pub open spec fn units_of(bytes: Seq<u8>) -> Seq<u16> {
    Seq::new((bytes.len() / 2) as nat, |i: int| le_u16(bytes, 2 * i) as u16)
}

/// Index of the first zero in `units`, or their number where there is none.
pub open spec fn index_of_zero(units: Seq<u16>) -> int {
    index_of(units, 0u16)
}

/// The strings that zeros separate in `units`. There is always one more
/// string than there are zeros.
pub open spec fn pieces(units: Seq<u16>) -> Seq<Seq<u16>> {
    split(units, 0u16)
}

/// The framing of a metadata block: its version and its strings as UTF-16
/// units, or what is wrong with it.
pub open spec fn string_table(data: Seq<u8>) -> Result<(u32, Seq<Seq<u16>>), Gd3Error> {
    if !has_gd3_magic(data) {
        Err(Gd3Error::BadMagic)
    } else if data.len() < 12 || data.len() - 12 < le_u32(data, 8) {
        Err(Gd3Error::Truncated)
    } else {
        Ok(
            (
                le_u32(data, 4) as u32,
                pieces(units_of(data.subrange(12, 12 + le_u32(data, 8)))),
            ),
        )
    }
}

/// The text that a string of UTF-16 units decodes to, or `None` where it is
/// not valid UTF-16.
pub uninterp spec fn utf16_text(units: Seq<u16>) -> Option<Seq<char>>;

/// `String::from_utf16`: decodes UTF-16, with an error where the units hold
/// invalid data. Nothing is claimed but that the outcome depends on the units
/// alone.
#[verifier::external_body]
fn decode_utf16(units: &[u16]) -> (text: Option<String>)
    ensures
        match text {
            Some(s) => utf16_text(units@) == Some(s@),
            None => utf16_text(units@) is None,
        },
{
    match String::from_utf16(units) {
        Ok(s) => Some(s),
        Err(_) => None,
    }
}

/// What `Gd3::new` makes of a block whose strings decode to `texts`, string
/// by string.
pub open spec fn assemble(version: u32, texts: Seq<Option<Seq<char>>>) -> Result<
    Gd3Text,
    Gd3Error,
> {
    if exists|i: int| 0 <= i < texts.len() && texts[i] is None {
        Err(Gd3Error::InvalidStringTable)
    } else if texts.len() < FIELD_COUNT {
        Err(Gd3Error::MissingField(texts.len() as usize))
    } else {
        Ok(
            Gd3Text {
                version,
                title: texts[0]->0,
                original_title: texts[1]->0,
                game: texts[2]->0,
                original_game: texts[3]->0,
                system: texts[4]->0,
                original_system: texts[5]->0,
                author: texts[6]->0,
                original_author: texts[7]->0,
                release_date: texts[8]->0,
                ripper: texts[9]->0,
                notes: texts[10]->0,
            },
        )
    }
}

/// What `Gd3::new` returns for `data`.
pub open spec fn gd3_outcome(data: Seq<u8>) -> Result<Gd3Text, Gd3Error> {
    match string_table(data) {
        Err(e) => Err(e),
        Ok((version, strings)) => assemble(
            version,
            Seq::new(strings.len(), |i: int| utf16_text(strings[i])),
        ),
    }
}

fn find_zero(units: &[u16], from: usize) -> (end: usize)
    requires
        from <= units@.len(),
    ensures
        from <= end <= units@.len(),
        end - from == index_of_zero(units@.skip(from as int)),
{
    let mut end = from;
    while end < units.len() && units[end] != 0
        invariant
            from <= end <= units@.len(),
            index_of_zero(units@.skip(from as int)) == (end - from) + index_of_zero(
                units@.skip(end as int),
            ),
        decreases units@.len() - end,
    {
        proof {
            let rest = units@.skip(end as int);
            assert(rest[0] == units@[end as int]);
            assert(rest.drop_first() =~= units@.skip(end + 1));
        }
        end = end + 1;
    }
    proof {
        let rest = units@.skip(end as int);
        if end < units@.len() {
            assert(rest[0] == units@[end as int]);
        }
    }
    end
}

fn read_units(bytes: &[u8]) -> (units: Vec<u16>)
    ensures
        units@ == units_of(bytes@),
{
    let count = bytes.len() / 2;
    let mut units: Vec<u16> = Vec::new();
    let mut i: usize = 0;
    while i < count
        invariant
            count == bytes@.len() / 2,
            2 * count <= bytes@.len() <= usize::MAX,
            i <= count,
            units@.len() == i,
            forall|j: int| 0 <= j < i ==> units@[j] == le_u16(bytes@, 2 * j) as u16,
        decreases count - i,
    {
        let unit: u16 = bytes[2 * i] as u16 + 0x100 * (bytes[2 * i + 1] as u16);
        units.push(unit);
        i = i + 1;
    }
    assert(units@ =~= units_of(bytes@));
    units
}

fn split_at_zeros(units: &[u16]) -> (strings: Vec<Vec<u16>>)
    ensures
        strings@.len() == pieces(units@).len(),
        forall|i: int| 0 <= i < strings@.len() ==> (#[trigger] strings@[i])@ == pieces(units@)[i],
{
    let mut strings: Vec<Vec<u16>> = Vec::new();
    let mut pos: usize = 0;
    let mut more = true;
    proof {
        assert(units@.skip(0) =~= units@);
        assert(pieces(units@).skip(0) =~= pieces(units@));
    }
    while more
        invariant
            pos <= units@.len(),
            strings@.len() <= pieces(units@).len(),
            forall|i: int|
                0 <= i < strings@.len() ==> (#[trigger] strings@[i])@ == pieces(units@)[i],
            more ==> pieces(units@).skip(strings@.len() as int) == pieces(units@.skip(pos as int)),
            !more ==> strings@.len() == pieces(units@).len(),
        decreases units@.len() - pos + if more { 1int } else { 0int },
    {
        let end = find_zero(units, pos);
        let piece = slice_to_vec(slice_subrange(units, pos, end));
        proof {
            let rest = units@.skip(pos as int);
            let k = index_of_zero(rest);
            let all = pieces(units@);
            let n = strings@.len() as int;
            lemma_index_of(rest, 0u16);
            assert(rest.take(k) =~= units@.subrange(pos as int, end as int));
            assert(pieces(rest).len() >= 1);
            assert(all.skip(n).len() >= 1);
            assert(all.skip(n)[0] == all[n]);
            if k < rest.len() {
                assert(rest.skip(k + 1) =~= units@.skip(end + 1));
                assert(all.skip(n + 1) =~= all.skip(n).skip(1));
                assert(all.skip(n).skip(1) =~= pieces(rest.skip(k + 1)));
            } else {
                assert(rest.take(k) =~= rest);
                assert(all.skip(n).len() == 1);
            }
        }
        strings.push(piece);
        if end == units.len() {
            more = false;
        } else {
            pos = end + 1;
        }
    }
    strings
}

fn starts_with_gd3_magic(data: &[u8]) -> (yes: bool)
    ensures
        yes == has_gd3_magic(data@),
{
    data.len() >= 4 && data[0] == 0x47 && data[1] == 0x64 && data[2] == 0x33 && data[3] == 0x20
}

/// Frames a metadata block: checks the tag and the announced size, and cuts
/// the string table at its zeros.
pub fn read_string_table(data: &[u8]) -> (res: Result<(u32, Vec<Vec<u16>>), Gd3Error>)
    ensures
        match res {
            Ok((version, strings)) => {
                &&& string_table(data@) is Ok
                &&& version == string_table(data@)->Ok_0.0
                &&& strings@.len() == string_table(data@)->Ok_0.1.len()
                &&& forall|i: int|
                    0 <= i < strings@.len() ==> (#[trigger] strings@[i])@ == string_table(
                        data@,
                    )->Ok_0.1[i]
            },
            Err(e) => string_table(data@) == Err::<(u32, Seq<Seq<u16>>), Gd3Error>(e),
        },
{
    if !starts_with_gd3_magic(data) {
        return Err(Gd3Error::BadMagic);
    }
    if data.len() < 12 {
        return Err(Gd3Error::Truncated);
    }
    let version = read_le_u32(data, 4);
    let size = read_le_u32(data, 8);
    if ((data.len() - 12) as u64) < (size as u64) {
        return Err(Gd3Error::Truncated);
    }
    let table = slice_subrange(data, 12, 12 + size as usize);
    let units = read_units(table);
    let strings = split_at_zeros(units.as_slice());
    Ok((version, strings))
}

impl Gd3 {
    /// Builds the metadata from the strings of a block, already decoded or
    /// found undecodable one by one.
    pub fn from_texts(version: u32, texts: Vec<Option<String>>) -> (res: Result<Gd3, Gd3Error>)
        ensures
            match res {
                Ok(gd3) => assemble(version, texts.deep_view()) == Ok::<Gd3Text, Gd3Error>(gd3@),
                Err(e) => assemble(version, texts.deep_view()) == Err::<Gd3Text, Gd3Error>(e),
            },
    {
        let mut i: usize = 0;
        while i < texts.len()
            invariant
                i <= texts@.len(),
                forall|j: int| 0 <= j < i ==> texts.deep_view()[j] is Some,
            decreases texts@.len() - i,
        {
            if texts[i].is_none() {
                assert(texts.deep_view()[i as int] is None);
                return Err(Gd3Error::InvalidStringTable);
            }
            i = i + 1;
        }
        if texts.len() < FIELD_COUNT {
            return Err(Gd3Error::MissingField(texts.len()));
        }
        let gd3 = Gd3 {
            version,
            title: field(&texts, 0),
            original_title: field(&texts, 1),
            game: field(&texts, 2),
            original_game: field(&texts, 3),
            system: field(&texts, 4),
            original_system: field(&texts, 5),
            author: field(&texts, 6),
            original_author: field(&texts, 7),
            release_date: field(&texts, 8),
            ripper: field(&texts, 9),
            notes: field(&texts, 10),
        };
        Ok(gd3)
    }

    /// Reads a metadata block.
    pub fn new(data: &[u8]) -> (res: Result<Gd3, Gd3Error>)
        ensures
            match res {
                Ok(gd3) => gd3_outcome(data@) == Ok::<Gd3Text, Gd3Error>(gd3@),
                Err(e) => gd3_outcome(data@) == Err::<Gd3Text, Gd3Error>(e),
            },
    {
        let (version, strings) = match read_string_table(data) {
            Ok(table) => table,
            Err(e) => {
                return Err(e);
            },
        };
        let ghost spec_strings = string_table(data@)->Ok_0.1;
        let mut texts: Vec<Option<String>> = Vec::new();
        let mut i: usize = 0;
        while i < strings.len()
            invariant
                i <= strings@.len(),
                strings@.len() == spec_strings.len(),
                forall|j: int|
                    0 <= j < strings@.len() ==> (#[trigger] strings@[j])@ == spec_strings[j],
                texts@.len() == i,
                forall|j: int|
                    0 <= j < i ==> (#[trigger] texts.deep_view()[j]) == utf16_text(spec_strings[j]),
            decreases strings@.len() - i,
        {
            let text = decode_utf16(strings[i].as_slice());
            let ghost before = texts.deep_view();
            texts.push(text);
            proof {
                assert(texts.deep_view() =~= before.push(text.deep_view()));
            }
            i = i + 1;
        }
        assert(texts.deep_view() =~= Seq::new(
            spec_strings.len(),
            |i: int| utf16_text(spec_strings[i]),
        ));
        Gd3::from_texts(version, texts)
    }
}

fn field(texts: &Vec<Option<String>>, index: usize) -> (text: String)
    requires
        index < texts@.len(),
        texts.deep_view()[index as int] is Some,
    ensures
        text@ == texts.deep_view()[index as int]->0,
{
    match &texts[index] {
        Some(s) => s.clone(),
        None => String::new(),
    }
}

} // verus!
