use super::gd3::gd3_outcome;
use super::gd3::Gd3;
use flate2::read::GzDecoder;
use std::io::Read;
use vstd::prelude::*;
use vstd::slice::slice_subrange;
use vstd::slice::slice_to_vec;

verus! {

/// Shortest log image that holds every header field read here.
pub const HEADER_LEN: usize = 0x84;

/// Oldest format version that carries a Game Boy clock field.
pub const MIN_VERSION: u32 = 0x161;

/// Bit of a clock field that says two chips are driven.
pub const CLOCK_FLAG_IS_2X: u32 = 0x4000_0000;

/// The unsigned 16-bit little-endian number at `at`.
pub open spec fn le_u16(data: Seq<u8>, at: int) -> int {
    data[at] as int + 0x100 * (data[at + 1] as int)
}

/// The unsigned 32-bit little-endian number at `at`.
pub open spec fn le_u32(data: Seq<u8>, at: int) -> int {
    data[at] as int + 0x100 * (data[at + 1] as int) + 0x1_0000 * (data[at + 2] as int)
        + 0x100_0000 * (data[at + 3] as int)
}

/// Whether `data` starts with the four bytes `Vgm `.
pub open spec fn has_magic(data: Seq<u8>) -> bool {
    &&& data.len() >= 4
    &&& data[0] == 0x56
    &&& data[1] == 0x67
    &&& data[2] == 0x6D
    &&& data[3] == 0x20
}

/// Offset one past the last byte of the command stream, as the header
/// tells it.
pub open spec fn end_offset_of(data: Seq<u8>) -> int {
    le_u32(data, 0x4) + 0x4
}

/// The format version, as the header tells it.
pub open spec fn version_of(data: Seq<u8>) -> int {
    le_u32(data, 0x8)
}

/// Offset of the metadata block; 0x14 where there is none.
pub open spec fn gd3_offset_of(data: Seq<u8>) -> int {
    le_u32(data, 0x14) + 0x14
}

/// Length of the whole log in samples.
pub open spec fn sample_count_of(data: Seq<u8>) -> int {
    le_u32(data, 0x18)
}

/// Offset of the command that a loop resumes at.
pub open spec fn loop_offset_of(data: Seq<u8>) -> int {
    le_u32(data, 0x1C) + 0x1C
}

/// Length of the looped part in samples.
pub open spec fn loop_sample_count_of(data: Seq<u8>) -> int {
    le_u32(data, 0x20)
}

/// Offset of the first command.
pub open spec fn start_offset_of(data: Seq<u8>) -> int {
    le_u32(data, 0x34) + 0x34
}

/// The clock field of the Game Boy: its clock in Hz, and the flag for two
/// chips.
pub open spec fn clock_field_of(data: Seq<u8>) -> int {
    le_u32(data, 0x80)
}

/// Why a byte string is not an acceptable register log.
#[derive(Clone, Copy, Debug, PartialEq, Eq, Structural)]
pub enum VgmError {
    /// Neither a log nor a gzip stream.
    NotVgm,
    /// A gzip stream that does not inflate.
    InflateFailed,
    /// A gzip stream that holds something else than a log.
    NotVgz,
    /// Shorter than the header.
    TruncatedHeader,
    /// Older than the oldest supported version.
    UnsupportedVersion,
    /// No Game Boy clock in the header.
    NoGameBoy,
    /// The loop is said to be longer than the whole log.
    LoopTooLong,
}

/// The first defect of a log image, if it has one. The checks are made in
/// this order: magic, length, version, clock, loop length.
pub open spec fn image_defect(image: Seq<u8>) -> Option<VgmError> {
    if !has_magic(image) {
        Some(VgmError::NotVgm)
    } else if image.len() < HEADER_LEN {
        Some(VgmError::TruncatedHeader)
    } else if version_of(image) < MIN_VERSION {
        Some(VgmError::UnsupportedVersion)
    } else if clock_field_of(image) == 0 {
        Some(VgmError::NoGameBoy)
    } else if loop_sample_count_of(image) > sample_count_of(image) {
        Some(VgmError::LoopTooLong)
    } else {
        None
    }
}

/// A log image that `Vgm` accepts.
pub open spec fn valid_image(image: Seq<u8>) -> bool {
    image_defect(image) is None
}

/// Whether `data` starts with a well-formed gzip member header, as the gzip
/// decoder judges it.
pub uninterp spec fn gzip_header_present(data: Seq<u8>) -> bool;

/// What the gzip decoder inflates the first member of `data` to, or `None`
/// where it reports an error.
pub uninterp spec fn gzip_inflated(data: Seq<u8>) -> Option<Seq<u8>>;

/// `flate2::read::GzDecoder::new` followed by `header`: the decoder parses
/// the member header when it is made, and `header` is `Some` exactly when that
/// succeeded. Nothing is claimed but that the answer depends on the bytes
/// alone.
#[verifier::external_body]
fn gzip_header_found(data: &[u8]) -> (found: bool)
    ensures
        found == gzip_header_present(data@),
{
    GzDecoder::new(data).header().is_some()
}

/// `read_to_end` on a `flate2::read::GzDecoder` over `data`: the inflated
/// bytes of the first member, or `None` where the decoder returns an error
/// (a bad header, a corrupt stream, a checksum that does not match). Nothing
/// is claimed but that the outcome depends on the bytes alone.
#[verifier::external_body]
fn gzip_inflate(data: &[u8]) -> (out: Option<Vec<u8>>)
    ensures
        match out {
            Some(bytes) => gzip_inflated(data@) == Some(bytes@),
            None => gzip_inflated(data@) is None,
        },
{
    let mut bytes = Vec::new();
    match GzDecoder::new(data).read_to_end(&mut bytes) {
        Ok(_) => Some(bytes),
        Err(_) => None,
    }
}

/// What `Vgm::new` makes of `data` once the gzip decoder has spoken:
/// `header` is whether it saw a gzip header, `inflated` what it inflated.
pub open spec fn parse_outcome(data: Seq<u8>, header: bool, inflated: Option<Seq<u8>>) -> Result<
    Seq<u8>,
    VgmError,
> {
    if has_magic(data) {
        match image_defect(data) {
            Some(e) => Err(e),
            None => Ok(data),
        }
    } else if !header {
        Err(VgmError::NotVgm)
    } else {
        match inflated {
            None => Err(VgmError::InflateFailed),
            Some(image) => if !has_magic(image) {
                Err(VgmError::NotVgz)
            } else {
                match image_defect(image) {
                    Some(e) => Err(e),
                    None => Ok(image),
                }
            },
        }
    }
}

/// A register-write log: the raw image, header first.
pub struct Vgm {
    data: Vec<u8>,
}

impl View for Vgm {
    type V = Seq<u8>;

    closed spec fn view(&self) -> Seq<u8> {
        self.data@
    }
}

fn starts_with_magic(data: &[u8]) -> (yes: bool)
    ensures
        yes == has_magic(data@),
{
    data.len() >= 4 && data[0] == 0x56 && data[1] == 0x67 && data[2] == 0x6D && data[3] == 0x20
}

pub(crate) fn read_le_u32(data: &[u8], offset: usize) -> (value: u32)
    requires
        offset + 4 <= data@.len(),
    ensures
        value as int == le_u32(data@, offset as int),
{
    let b0: u32 = data[offset] as u32;
    let b1: u32 = data[offset + 1] as u32;
    let b2: u32 = data[offset + 2] as u32;
    let b3: u32 = data[offset + 3] as u32;
    b0 + 0x100 * b1 + 0x1_0000 * b2 + 0x100_0000 * b3
}

impl Vgm {
    #[verifier::type_invariant]
    spec fn well_formed(self) -> bool {
        valid_image(self.data@)
    }

    /// Accepts an image that is already inflated.
    pub fn from_image(image: Vec<u8>) -> (res: Result<Vgm, VgmError>)
        ensures
            match res {
                Ok(vgm) => valid_image(image@) && vgm@ == image@,
                Err(e) => image_defect(image@) == Some(e),
            },
    {
        if !starts_with_magic(image.as_slice()) {
            return Err(VgmError::NotVgm);
        }
        if image.len() < HEADER_LEN {
            return Err(VgmError::TruncatedHeader);
        }
        if read_le_u32(image.as_slice(), 0x8) < MIN_VERSION {
            return Err(VgmError::UnsupportedVersion);
        }
        if read_le_u32(image.as_slice(), 0x80) == 0 {
            return Err(VgmError::NoGameBoy);
        }
        if read_le_u32(image.as_slice(), 0x20) > read_le_u32(image.as_slice(), 0x18) {
            return Err(VgmError::LoopTooLong);
        }
        Ok(Vgm { data: image })
    }

    /// Tells what `new` returns for each answer of the gzip decoder.
    pub fn from_parts(data: &[u8], header: bool, inflated: Option<Vec<u8>>) -> (res: Result<
        Vgm,
        VgmError,
    >)
        ensures
            match res {
                Ok(vgm) => parse_outcome(
                    data@,
                    header,
                    match inflated {
                        Some(v) => Some(v@),
                        None => None,
                    },
                ) == Ok::<Seq<u8>, VgmError>(vgm@),
                Err(e) => parse_outcome(
                    data@,
                    header,
                    match inflated {
                        Some(v) => Some(v@),
                        None => None,
                    },
                ) == Err::<Seq<u8>, VgmError>(e),
            },
    {
        if starts_with_magic(data) {
            return Vgm::from_image(slice_to_vec(data));
        }
        if !header {
            return Err(VgmError::NotVgm);
        }
        match inflated {
            None => Err(VgmError::InflateFailed),
            Some(image) => {
                if !starts_with_magic(image.as_slice()) {
                    Err(VgmError::NotVgz)
                } else {
                    Vgm::from_image(image)
                }
            },
        }
    }

    /// Reads a log, plain or gzip-compressed.
    pub fn new(data: &[u8]) -> (res: Result<Vgm, VgmError>)
        ensures
            match res {
                Ok(vgm) => parse_outcome(data@, gzip_header_present(data@), gzip_inflated(data@))
                    == Ok::<Seq<u8>, VgmError>(vgm@),
                Err(e) => parse_outcome(data@, gzip_header_present(data@), gzip_inflated(data@))
                    == Err::<Seq<u8>, VgmError>(e),
            },
    {
        if starts_with_magic(data) {
            return Vgm::from_image(slice_to_vec(data));
        }
        let header = gzip_header_found(data);
        if !header {
            return Err(VgmError::NotVgm);
        }
        let inflated = gzip_inflate(data);
        Vgm::from_parts(data, header, inflated)
    }

    /// The image, with what holds of every log.
    pub fn as_bytes(&self) -> (bytes: &[u8])
        ensures
            bytes@ == self@,
            valid_image(self@),
    {
        proof {
            use_type_invariant(self);
        }
        self.data.as_slice()
    }

    fn read_u32(&self, offset: usize) -> (value: u32)
        requires
            offset + 4 <= self@.len(),
        ensures
            value as int == le_u32(self@, offset as int),
    {
        read_le_u32(self.data.as_slice(), offset)
    }

    fn read_relative_offset(&self, offset: usize) -> (value: u64)
        requires
            offset + 4 <= self@.len(),
            offset <= 0x1000,
        ensures
            value as int == le_u32(self@, offset as int) + offset,
    {
        self.read_u32(offset) as u64 + offset as u64
    }

    /// Offset one past the last byte of the command stream.
    pub fn end_offset(&self) -> (value: u64)
        ensures
            value as int == end_offset_of(self@),
    {
        proof {
            use_type_invariant(self);
        }
        self.read_relative_offset(0x4)
    }

    /// The format version, which is at least the oldest supported one.
    pub fn version(&self) -> (value: u32)
        ensures
            value as int == version_of(self@),
            value >= MIN_VERSION,
    {
        proof {
            use_type_invariant(self);
        }
        self.read_u32(0x8)
    }

    /// Length of the whole log in samples.
    pub fn sample_count(&self) -> (value: u32)
        ensures
            value as int == sample_count_of(self@),
    {
        proof {
            use_type_invariant(self);
        }
        self.read_u32(0x18)
    }

    /// Offset of the command that a loop resumes at.
    pub fn loop_offset(&self) -> (value: u64)
        ensures
            value as int == loop_offset_of(self@),
    {
        proof {
            use_type_invariant(self);
        }
        self.read_relative_offset(0x1C)
    }

    /// Length of the looped part in samples, never more than `sample_count`.
    pub fn loop_sample_count(&self) -> (value: u32)
        ensures
            value as int == loop_sample_count_of(self@),
            value as int <= sample_count_of(self@),
    {
        proof {
            use_type_invariant(self);
        }
        self.read_u32(0x20)
    }

    /// Offset of the first command.
    pub fn start_offset(&self) -> (value: u64)
        ensures
            value as int == start_offset_of(self@),
    {
        proof {
            use_type_invariant(self);
        }
        self.read_relative_offset(0x34)
    }

    /// The Game Boy clock in Hz and whether two chips are driven.
    pub fn lr35902_clock(&self) -> (clock: Option<(u32, bool)>)
        ensures
            clock == Some(
                (
                    (clock_field_of(self@) as u32) & !CLOCK_FLAG_IS_2X,
                    ((clock_field_of(self@) as u32) & CLOCK_FLAG_IS_2X) != 0,
                ),
            ),
    {
        proof {
            use_type_invariant(self);
        }
        let value = self.read_u32(0x80);
        Some((value & !CLOCK_FLAG_IS_2X, (value & CLOCK_FLAG_IS_2X) != 0))
    }
}

/// One entry of the command stream.
#[derive(Clone, Debug)]
pub enum VgmIterItem {
    /// The stream has reached the command that a loop resumes at.
    HitLoopOffset,
    /// Nothing is written for this many samples.
    WaitCommand(u16),
    /// A block of data: its type and its bytes.
    DataBlock(u8, Vec<u8>),
    /// A register write: whether it is meant for the second chip, the
    /// register's address and the value.
    WriteLR35902RegCommand(bool, u16, u8),
    /// A command byte that is not understood; the stream ends with it.
    InvalidCommand(u8),
    /// The image ends in the middle of a command; the stream ends with it.
    Truncated,
}

/// What a `VgmIterItem` stands for.
pub enum VgmCommand {
    HitLoopOffset,
    Wait(u16),
    DataBlock(u8, Seq<u8>),
    Write(bool, u16, u8),
    Invalid(u8),
    Truncated,
}

impl View for VgmIterItem {
    type V = VgmCommand;

    open spec fn view(&self) -> VgmCommand {
        match self {
            VgmIterItem::HitLoopOffset => VgmCommand::HitLoopOffset,
            VgmIterItem::WaitCommand(samples) => VgmCommand::Wait(*samples),
            VgmIterItem::DataBlock(kind, bytes) => VgmCommand::DataBlock(*kind, bytes@),
            VgmIterItem::WriteLR35902RegCommand(second, addr, value) => VgmCommand::Write(
                *second,
                *addr,
                *value,
            ),
            VgmIterItem::InvalidCommand(code) => VgmCommand::Invalid(*code),
            VgmIterItem::Truncated => VgmCommand::Truncated,
        }
    }
}

/// Where a reader of the command stream stands.
pub struct Cursor {
    /// Offset of the next command byte.
    pub at: int,
    /// Whether the loop point has been reported.
    pub looped: bool,
    /// Whether the stream has ended on an invalid or truncated command.
    pub halted: bool,
}

/// The address that a register write names: the low seven bits of the
/// operand, counted from 0xFF10.
pub open spec fn register_address(operand: u8) -> u16 {
    ((operand & 0x7F) as u16 + 0xFF10) as u16
}

/// The command that starts at `at`, with the offset behind it. `None` is the
/// end-of-stream command.
pub open spec fn command_at(data: Seq<u8>, at: int) -> (Option<VgmCommand>, int) {
    let code = data[at];
    if code == 0x61 {
        if at + 3 <= data.len() {
            (Some(VgmCommand::Wait(le_u16(data, at + 1) as u16)), at + 3)
        } else {
            (Some(VgmCommand::Truncated), at)
        }
    } else if code == 0x62 {
        (Some(VgmCommand::Wait(735)), at + 1)
    } else if code == 0x63 {
        (Some(VgmCommand::Wait(882)), at + 1)
    } else if 0x70 <= code <= 0x7F {
        (Some(VgmCommand::Wait(((code & 0xF) + 1) as u16)), at + 1)
    } else if code == 0x67 {
        if at + 7 <= data.len() && at + 7 + le_u32(data, at + 3) <= data.len() {
            let size = le_u32(data, at + 3);
            (
                Some(VgmCommand::DataBlock(data[at + 2], data.subrange(at + 7, at + 7 + size))),
                at + 7 + size,
            )
        } else {
            (Some(VgmCommand::Truncated), at)
        }
    } else if code == 0xB3 {
        if at + 3 <= data.len() {
            (
                Some(
                    VgmCommand::Write(
                        (data[at + 1] & 0x80) != 0,
                        register_address(data[at + 1]),
                        data[at + 2],
                    ),
                ),
                at + 3,
            )
        } else {
            (Some(VgmCommand::Truncated), at)
        }
    } else if code == 0x66 {
        (None, at + 1)
    } else {
        (Some(VgmCommand::Invalid(code)), at + 1)
    }
}

/// One call of `next`: what it returns and where the reader stands after it.
pub open spec fn step(data: Seq<u8>, cur: Cursor) -> (Option<VgmCommand>, Cursor) {
    if cur.at >= end_offset_of(data) || cur.halted {
        (None, cur)
    } else if !cur.looped && cur.at == loop_offset_of(data) {
        (Some(VgmCommand::HitLoopOffset), Cursor { looped: true, ..cur })
    } else if cur.at >= data.len() {
        (Some(VgmCommand::Truncated), Cursor { halted: true, ..cur })
    } else {
        let (item, next) = command_at(data, cur.at);
        (
            item,
            Cursor {
                at: next,
                looped: cur.looped,
                halted: item is Some && (item->0 is Invalid || item->0 is Truncated),
            },
        )
    }
}

/// A bound on the number of items that are still to come.
pub open spec fn remaining(data: Seq<u8>, cur: Cursor) -> nat {
    if cur.halted || cur.at >= end_offset_of(data) {
        0
    } else {
        (2 * (end_offset_of(data) - cur.at) + if cur.looped {
            0int
        } else {
            1int
        }) as nat
    }
}

/// The items that a reader at `cur` yields until its first `None`.
pub open spec fn commands_from(data: Seq<u8>, cur: Cursor) -> Seq<VgmCommand>
    decreases remaining(data, cur),
{
    let (item, next) = step(data, cur);
    match item {
        None => Seq::empty(),
        Some(command) => if remaining(data, next) < remaining(data, cur) {
            seq![command] + commands_from(data, next)
        } else {
            seq![command]
        },
    }
}

/// Every item but the end of the stream brings the reader closer to it.
pub proof fn lemma_step_decreases(data: Seq<u8>, cur: Cursor)
    requires
        step(data, cur).0 is Some,
    ensures
        remaining(data, step(data, cur).1) < remaining(data, cur),
        commands_from(data, cur) == seq![step(data, cur).0->0] + commands_from(
            data,
            step(data, cur).1,
        ),
{
}

/// A reader that has reported the loop point does not report it again.
pub proof fn lemma_marker_comes_once(data: Seq<u8>, cur: Cursor)
    requires
        cur.looped,
    ensures
        forall|i: int|
            0 <= i < commands_from(data, cur).len() ==> !(#[trigger] commands_from(
                data,
                cur,
            )[i] is HitLoopOffset),
    decreases remaining(data, cur),
{
    let (item, next) = step(data, cur);
    if item is Some {
        lemma_step_decreases(data, cur);
        lemma_marker_comes_once(data, next);
        let rest = commands_from(data, next);
        assert forall|i: int| 0 <= i < commands_from(data, cur).len() implies !(
        #[trigger] commands_from(data, cur)[i] is HitLoopOffset) by {
            if i > 0 {
                assert(commands_from(data, cur)[i] == rest[i - 1]);
            }
        }
    }
}

/// A reader reports the loop point at most once.
pub proof fn lemma_marker_is_alone(data: Seq<u8>, cur: Cursor)
    ensures
        forall|i: int, j: int|
            0 <= i < j < commands_from(data, cur).len() ==> !(#[trigger] commands_from(
                data,
                cur,
            )[i] is HitLoopOffset && #[trigger] commands_from(data, cur)[j] is HitLoopOffset),
    decreases remaining(data, cur),
{
    let (item, next) = step(data, cur);
    if item is Some {
        lemma_step_decreases(data, cur);
        let all = commands_from(data, cur);
        let rest = commands_from(data, next);
        if next.looped {
            lemma_marker_comes_once(data, next);
        }
        lemma_marker_is_alone(data, next);
        assert forall|i: int, j: int| 0 <= i < j < all.len() implies !(#[trigger] all[i]
            is HitLoopOffset && #[trigger] all[j] is HitLoopOffset) by {
            assert(all[j] == rest[j - 1]);
            if i > 0 {
                assert(all[i] == rest[i - 1]);
            } else if all[0] is HitLoopOffset {
                assert(next.looped);
            }
        }
    }
}

/// The whole command stream of a log.
pub open spec fn commands(data: Seq<u8>) -> Seq<VgmCommand> {
    commands_from(data, Cursor { at: start_offset_of(data), looped: false, halted: false })
}

/// A reader of the command stream of a log.
pub struct VgmIterator<'a> {
    vgm: &'a Vgm,
    iter_ptr: u64,
    hit_loop_offset: bool,
    hit_invalid_command: bool,
}

impl<'a> View for VgmIterator<'a> {
    type V = Cursor;

    closed spec fn view(&self) -> Cursor {
        Cursor {
            at: self.iter_ptr as int,
            looped: self.hit_loop_offset,
            halted: self.hit_invalid_command,
        }
    }
}

impl<'a> VgmIterator<'a> {
    /// The image that is read.
    pub closed spec fn data(&self) -> Seq<u8> {
        self.vgm@
    }

    pub(crate) fn new(vgm: &'a Vgm) -> (iter: Self)
        ensures
            iter.data() == vgm@,
            iter@ == (Cursor { at: start_offset_of(vgm@), looped: false, halted: false }),
    {
        Self {
            vgm,
            iter_ptr: vgm.start_offset(),
            hit_loop_offset: false,
            hit_invalid_command: false,
        }
    }

    /// The next item, or `None` at the end of the stream.
    pub fn next(&mut self) -> (item: Option<VgmIterItem>)
        ensures
            final(self).data() == old(self).data(),
            final(self)@ == step(old(self).data(), old(self)@).1,
            match item {
                Some(it) => step(old(self).data(), old(self)@).0 == Some(it@),
                None => step(old(self).data(), old(self)@).0 is None,
            },
    {
        let data = self.vgm.as_bytes();
        if self.iter_ptr >= self.vgm.end_offset() || self.hit_invalid_command {
            return None;
        }
        if !self.hit_loop_offset && self.iter_ptr == self.vgm.loop_offset() {
            self.hit_loop_offset = true;
            return Some(VgmIterItem::HitLoopOffset);
        }
        if self.iter_ptr >= data.len() as u64 {
            self.hit_invalid_command = true;
            return Some(VgmIterItem::Truncated);
        }
        let at: usize = self.iter_ptr as usize;
        let left: usize = data.len() - at;
        let code = data[at];
        if code == 0x61 {
            if left < 3 {
                self.hit_invalid_command = true;
                return Some(VgmIterItem::Truncated);
            }
            let samples: u16 = data[at + 1] as u16 + 0x100 * (data[at + 2] as u16);
            self.iter_ptr = self.iter_ptr + 3;
            Some(VgmIterItem::WaitCommand(samples))
        } else if code == 0x62 {
            self.iter_ptr = self.iter_ptr + 1;
            Some(VgmIterItem::WaitCommand(735))
        } else if code == 0x63 {
            self.iter_ptr = self.iter_ptr + 1;
            Some(VgmIterItem::WaitCommand(882))
        } else if 0x70 <= code && code <= 0x7F {
            let low: u8 = code & 0xF;
            assert(low <= 0xF) by (bit_vector)
                requires
                    low == code & 0xF,
            ;
            self.iter_ptr = self.iter_ptr + 1;
            Some(VgmIterItem::WaitCommand((low + 1) as u16))
        } else if code == 0x67 {
            if left < 7 {
                self.hit_invalid_command = true;
                return Some(VgmIterItem::Truncated);
            }
            let size: u32 = read_le_u32(data, at + 3);
            if ((left - 7) as u64) < (size as u64) {
                self.hit_invalid_command = true;
                return Some(VgmIterItem::Truncated);
            }
            let kind = data[at + 2];
            let first: usize = at + 7;
            let block = slice_to_vec(slice_subrange(data, first, first + size as usize));
            self.iter_ptr = self.iter_ptr + 7 + size as u64;
            Some(VgmIterItem::DataBlock(kind, block))
        } else if code == 0xB3 {
            if left < 3 {
                self.hit_invalid_command = true;
                return Some(VgmIterItem::Truncated);
            }
            let operand = data[at + 1];
            let value = data[at + 2];
            let low: u8 = operand & 0x7F;
            assert(low <= 0x7F) by (bit_vector)
                requires
                    low == operand & 0x7F,
            ;
            self.iter_ptr = self.iter_ptr + 3;
            Some(
                VgmIterItem::WriteLR35902RegCommand((operand & 0x80) != 0, low as u16 + 0xFF10, value),
            )
        } else if code == 0x66 {
            self.iter_ptr = self.iter_ptr + 1;
            None
        } else {
            self.iter_ptr = self.iter_ptr + 1;
            self.hit_invalid_command = true;
            Some(VgmIterItem::InvalidCommand(code))
        }
    }
}

impl Vgm {
    /// A reader at the first command.
    pub fn iter(&self) -> (iter: VgmIterator<'_>)
        ensures
            iter.data() == self@,
            iter@ == (Cursor { at: start_offset_of(self@), looped: false, halted: false }),
            commands_from(iter.data(), iter@) == commands(self@),
    {
        VgmIterator::new(self)
    }
}

/// The metadata block that the header of `data` points to, if there is one
/// and it reads well.
pub open spec fn metadata_of(data: Seq<u8>) -> Option<super::gd3::Gd3Text> {
    let offset = gd3_offset_of(data);
    if offset == 0x14 || offset > data.len() {
        None
    } else {
        match gd3_outcome(data.skip(offset)) {
            Ok(text) => Some(text),
            Err(_) => None,
        }
    }
}

impl Vgm {
    /// The metadata of the log. `None` where the header names no metadata
    /// block, or the block is not acceptable.
    pub fn gd3_metadata(&self) -> (meta: Option<Gd3>)
        ensures
            match meta {
                Some(gd3) => metadata_of(self@) == Some(gd3@),
                None => metadata_of(self@) is None,
            },
    {
        proof {
            use_type_invariant(self);
        }
        let offset = self.read_relative_offset(0x14);
        if offset == 0x14 || offset > self.data.len() as u64 {
            return None;
        }
        let block = slice_subrange(self.data.as_slice(), offset as usize, self.data.len());
        assert(block@ =~= self@.skip(offset as int));
        match Gd3::new(block) {
            Ok(gd3) => Some(gd3),
            Err(_) => None,
        }
    }
}

} // verus!
