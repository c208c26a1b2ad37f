use super::gd3::Gd3Text;
use super::vgm::clock_field_of;
use super::vgm::CLOCK_FLAG_IS_2X;
use super::vgm::commands;
use super::vgm::commands_from;
use super::vgm::Cursor;
use super::vgm::lemma_marker_is_alone;
use super::vgm::lemma_step_decreases;
use super::vgm::metadata_of;
use super::vgm::remaining;
use super::vgm::start_offset_of;
use super::vgm::step;
use super::vgm::Vgm;
use super::vgm::VgmCommand;
use super::vgm::VgmIterItem;
use vstd::prelude::*;
use vstd::string::StringSliceAdditionalSpecFns;
use vstd::utf8::encode_utf8;

verus! {

/// Opcode: wait for the number of frames in the next byte.
pub const WAIT_CMD: u8 = 0x80;

/// Opcode: go on at the start of the next bank.
pub const NEXT_BANK_CMD: u8 = 0xA0;

/// Opcode: write the byte after next to the high-memory address in the next
/// byte.
pub const WRITE_HRAM_CMD: u8 = 0xB0;

/// Opcode: go on at the loop target.
pub const LOOP_CMD: u8 = 0xC0;

/// Opcode: the song is over.
pub const END_SONG_CMD: u8 = 0xD0;

/// Size of a bank of the cartridge.
pub const BANK_SIZE: usize = 0x4000;

/// Bytes of a bank that instructions may fill; the rest is kept for the
/// opcode that closes it.
pub const BANK_CAPACITY: usize = 0x3FFC;

/// Most banks that a program may have: a bank's number is stored in 16 bits,
/// and bank 0 holds the driver.
pub const MAX_BANKS: usize = 0xFFFF;

/// Most frames that one wait instruction can hold.
pub const MAX_WAIT: u32 = 0xFF;

/// Ticks per second of the timer at its slowest setting.
pub const TMA_RATE_0: u32 = 4096;

/// High-memory byte that a data block's first byte is written to.
pub const SYNC_ADDRESS: u8 = 0x80;

/// Low byte of the register that takes the place of a write to the other
/// chip: writing to it again changes nothing once the boot ROM is unmapped.
pub const INERT_REGISTER: u8 = 0x50;

/// The value written to `INERT_REGISTER`.
pub const INERT_VALUE: u8 = 0x01;

/// Why a log cannot be turned into a program.
#[derive(Clone, Copy, Debug, PartialEq, Eq, Structural)]
pub enum TranscodeError {
    /// The log holds a command that has no instruction.
    UnsupportedCommand(u8),
    /// The log ends in the middle of a command.
    TruncatedCommand,
    /// A data block has no byte to pass on.
    EmptyDataBlock,
    /// A write to the second chip in a log that drives only one.
    SecondChipWrite,
    /// The program needs more banks than can be numbered.
    TooManyBanks,
    /// The driver image is shorter than one bank.
    DriverTooShort,
    /// The cartridge image would be larger than memory can hold.
    ImageTooLarge,
}

/// The number of frames that `samples` log samples last at `engine_rate`
/// frames per second, rounded to the nearest whole frame (halves round up)
/// and capped at `u32::MAX`.
pub open spec fn frames_of_samples(samples: u32, engine_rate: u32) -> int {
    let exact = (2 * ((samples as int) * (engine_rate as int)) + 44100) / 88200;
    if exact > u32::MAX as int {
        u32::MAX as int
    } else {
        exact
    }
}

/// Turns a length in samples into a length in frames.
pub fn samples_to_frames(samples: u32, engine_rate: u32) -> (frames: u32)
    ensures
        frames as int == frames_of_samples(samples, engine_rate),
{
    assert((samples as int) * (engine_rate as int) <= 0xFFFF_FFFF * 0xFFFF_FFFF)
        by (nonlinear_arith)
        requires
            samples <= 0xFFFF_FFFF,
            engine_rate <= 0xFFFF_FFFF,
    ;
    let product: u128 = (samples as u128) * (engine_rate as u128);
    let exact: u128 = (2 * product + 44100) / 88200;
    if exact > 0xFFFF_FFFFu128 {
        0xFFFF_FFFFu32
    } else {
        exact as u32
    }
}

/// The number of samples that `frames` frames last at `engine_rate` frames
/// per second, where that is a whole number that fits 32 bits.
pub open spec fn samples_of_frames(frames: u32, engine_rate: u32) -> Option<u32> {
    if engine_rate == 0 || (frames as int * 44100) % (engine_rate as int) != 0 || (frames as int
        * 44100) / (engine_rate as int) > u32::MAX as int {
        None
    } else {
        Some(((frames as int * 44100) / (engine_rate as int)) as u32)
    }
}

/// The length in samples of a whole number of frames: `None` where the rate
/// is 0, the length is no whole number of samples, or it does not fit.
pub fn samples_to_frames_inverse(frames: u32, engine_rate: u32) -> (samples: Option<u32>)
    ensures
        samples == samples_of_frames(frames, engine_rate),
{
    if engine_rate == 0 {
        return None;
    }
    let scaled: u64 = frames as u64 * 44100;
    if scaled % (engine_rate as u64) != 0 {
        return None;
    }
    let samples: u64 = scaled / (engine_rate as u64);
    if samples > 0xFFFF_FFFFu64 {
        None
    } else {
        Some(samples as u32)
    }
}

/// Hundredths of a frame from which on a wait counts as a whole number of
/// frames.
pub const WHOLE_PERCENT: u32 = 98;

/// Whether `samples` samples are so far from a whole number of frames that
/// the timing suffers: the fraction of a frame that is left over is more than
/// nothing and less than `whole_percent` hundredths.
pub open spec fn frames_are_inexact(samples: u32, engine_rate: u32, whole_percent: u32) -> bool {
    let left = ((samples as int) * (engine_rate as int)) % 44100;
    0 < left && 100 * left < (whole_percent as int) * 44100
}

/// Tells whether a wait deserves a warning; `WHOLE_PERCENT` is the usual
/// threshold.
pub fn wait_is_inexact(samples: u32, engine_rate: u32, whole_percent: u32) -> (inexact: bool)
    ensures
        inexact == frames_are_inexact(samples, engine_rate, whole_percent),
{
    assert((samples as int) * (engine_rate as int) <= 0xFFFF_FFFF * 0xFFFF_FFFF)
        by (nonlinear_arith)
        requires
            samples <= 0xFFFF_FFFF,
            engine_rate <= 0xFFFF_FFFF,
    ;
    let product: u128 = (samples as u128) * (engine_rate as u128);
    let left: u128 = product % 44100;
    0 < left && 100 * left < (whole_percent as u128) * 44100
}

/// `tma_rate / engine_rate` rounded to the nearest whole number (halves
/// round up) and capped at `i32::MAX`; a division by 0 gives the cap, and 0
/// for 0 by 0.
pub open spec fn rounded_ratio(tma_rate: u32, engine_rate: u32) -> int {
    if engine_rate == 0 {
        if tma_rate == 0 {
            0
        } else {
            i32::MAX as int
        }
    } else {
        let exact = (2 * (tma_rate as int) + engine_rate as int) / (2 * (engine_rate as int));
        if exact > i32::MAX as int {
            i32::MAX as int
        } else {
            exact
        }
    }
}

/// The timer modulo that makes the timer overflow `engine_rate` times a
/// second when it ticks `tma_rate` times a second.
pub fn calculate_tma_modulo(tma_rate: u32, engine_rate: u32) -> (modulo: i32)
    ensures
        modulo as int == 0xFF - rounded_ratio(tma_rate, engine_rate),
{
    if engine_rate == 0 {
        if tma_rate == 0 {
            0xFF
        } else {
            0xFF - i32::MAX
        }
    } else {
        let exact: u64 = (2 * (tma_rate as u64) + engine_rate as u64) / (2 * (engine_rate as u64));
        if exact > 0x7FFF_FFFFu64 {
            0xFF - i32::MAX
        } else {
            0xFF - (exact as i32)
        }
    }
}

/// A program while it is written.
pub struct Program {
    /// The banks that are closed.
    pub banks: Seq<Seq<u8>>,
    /// The bank that is being filled.
    pub current: Seq<u8>,
    /// The loop target, once it is known: the number of its bank on the
    /// cartridge and its address there.
    pub loop_data: Option<(usize, usize)>,
    /// Whether the next instruction is the loop target.
    pub loop_pending: bool,
}

/// What each of `banks` holds.
pub open spec fn bank_contents(banks: Seq<Vec<u8>>) -> Seq<Seq<u8>> {
    Seq::new(banks.len(), |i: int| banks[i]@)
}

/// A finished program.
pub struct EngineImage {
    pub banks: Seq<Seq<u8>>,
    pub loop_data: Option<(usize, usize)>,
}

/// A program with nothing written yet.
pub open spec fn empty_program() -> Program {
    Program { banks: Seq::empty(), current: Seq::empty(), loop_data: None, loop_pending: false }
}

/// Where the next instruction of `p` goes: the number of its bank on the
/// cartridge, where the program's first bank is bank 1, and its address in
/// the window at 0x4000 that the bank is mapped to.
pub open spec fn position(p: Program) -> (usize, usize) {
    ((p.banks.len() + 1) as usize, (p.current.len() + 0x4000) as usize)
}

/// `p` with `instr` at the end of the bank that is being filled.
pub open spec fn place(p: Program, instr: Seq<u8>) -> Program {
    Program {
        banks: p.banks,
        current: p.current + instr,
        loop_data: if p.loop_pending {
            Some(position(p))
        } else {
            p.loop_data
        },
        loop_pending: false,
    }
}

/// `p` with the bank that is being filled closed and a new one begun.
pub open spec fn seal(p: Program) -> Program {
    Program { banks: p.banks.push(p.current.push(NEXT_BANK_CMD)), current: Seq::empty(), ..p }
}

/// `p` with one more instruction. The bank is closed first exactly when the
/// instruction would take it over its capacity.
pub open spec fn emit(p: Program, instr: Seq<u8>) -> Result<Program, TranscodeError> {
    if p.current.len() + instr.len() > BANK_CAPACITY {
        if p.banks.len() + 2 > MAX_BANKS {
            Err(TranscodeError::TooManyBanks)
        } else {
            Ok(place(seal(p), instr))
        }
    } else {
        Ok(place(p, instr))
    }
}

/// `p` with a wait of `frames` frames: as many instructions of 255 frames as
/// it takes, then one for the rest.
pub open spec fn emit_wait(p: Program, frames: int) -> Result<Program, TranscodeError>
    decreases frames,
{
    if frames > MAX_WAIT {
        match emit(p, seq![WAIT_CMD, 0xFFu8]) {
            Ok(next) => emit_wait(next, frames - MAX_WAIT),
            Err(e) => Err(e),
        }
    } else {
        emit(p, seq![WAIT_CMD, frames as u8])
    }
}

/// The instruction for a register write: the write itself where it is meant
/// for the chip that the program is for, an inert write otherwise.
pub open spec fn write_instruction(own: bool, addr: u16, value: u8) -> Seq<u8> {
    if own {
        seq![(addr & 0xFF) as u8, value]
    } else {
        seq![INERT_REGISTER, INERT_VALUE]
    }
}

/// `p` after one command of the log. `for_2x` says which chip the program is
/// for, `dual` whether the log drives two.
pub open spec fn apply(
    p: Program,
    command: VgmCommand,
    for_2x: bool,
    dual: bool,
    engine_rate: u32,
) -> Result<Program, TranscodeError> {
    match command {
        VgmCommand::HitLoopOffset => Ok(Program { loop_pending: true, ..p }),
        VgmCommand::Wait(samples) => emit_wait(p, frames_of_samples(samples as u32, engine_rate)),
        VgmCommand::DataBlock(_, bytes) => if bytes.len() == 0 {
            Err(TranscodeError::EmptyDataBlock)
        } else {
            emit(p, seq![WRITE_HRAM_CMD, SYNC_ADDRESS, bytes[0]])
        },
        VgmCommand::Write(second, addr, value) => if second && !dual {
            Err(TranscodeError::SecondChipWrite)
        } else {
            emit(p, write_instruction(second == for_2x, addr, value))
        },
        VgmCommand::Invalid(code) => Err(TranscodeError::UnsupportedCommand(code)),
        VgmCommand::Truncated => Err(TranscodeError::TruncatedCommand),
    }
}

/// `p` after the commands `commands`, or the first error.
pub open spec fn encode_from(
    p: Program,
    commands: Seq<VgmCommand>,
    for_2x: bool,
    dual: bool,
    engine_rate: u32,
) -> Result<Program, TranscodeError>
    decreases commands.len(),
{
    if commands.len() == 0 {
        Ok(p)
    } else {
        match apply(p, commands[0], for_2x, dual, engine_rate) {
            Ok(next) => encode_from(next, commands.drop_first(), for_2x, dual, engine_rate),
            Err(e) => Err(e),
        }
    }
}

/// The loop target of `p` once nothing more is written: a target that is
/// still pending is the place of the closing opcode.
pub open spec fn final_loop_data(p: Program) -> Option<(usize, usize)> {
    if p.loop_pending {
        Some(position(p))
    } else {
        p.loop_data
    }
}

/// `p` closed: the last bank ends in the loop opcode where there is a loop
/// target, in the end opcode otherwise.
pub open spec fn finish(p: Program) -> EngineImage {
    EngineImage {
        banks: p.banks.push(
            p.current.push(
                if final_loop_data(p) is Some {
                    LOOP_CMD
                } else {
                    END_SONG_CMD
                },
            ),
        ),
        loop_data: final_loop_data(p),
    }
}

/// The program for a list of commands.
pub open spec fn encode(commands: Seq<VgmCommand>, for_2x: bool, dual: bool, engine_rate: u32) -> Result<
    EngineImage,
    TranscodeError,
> {
    match encode_from(empty_program(), commands, for_2x, dual, engine_rate) {
        Ok(p) => Ok(finish(p)),
        Err(e) => Err(e),
    }
}

/// Whether the log `data` drives two chips.
pub open spec fn dual_of(data: Seq<u8>) -> bool {
    ((clock_field_of(data) as u32) & CLOCK_FLAG_IS_2X) != 0
}

/// The program for the log `data`.
pub open spec fn engine_data(data: Seq<u8>, for_2x: bool, engine_rate: u32) -> Result<
    EngineImage,
    TranscodeError,
> {
    encode(commands(data), for_2x, dual_of(data), engine_rate)
}

/// What holds of a program at every moment: no more banks than can be
/// numbered, closed banks that end in the opcode that closes them and hold
/// no more than their capacity before it, and the same of the bank that is
/// being filled.
pub open spec fn program_fits(p: Program) -> bool {
    &&& p.banks.len() + 1 <= MAX_BANKS
    &&& p.current.len() <= BANK_CAPACITY
    &&& forall|i: int|
        0 <= i < p.banks.len() ==> {
            &&& 1 <= (#[trigger] p.banks[i]).len() <= BANK_CAPACITY + 1
            &&& p.banks[i].last() == NEXT_BANK_CMD
        }
}

/// What holds of a finished program: every bank but the last is at most its
/// capacity of instruction bytes followed by the opcode that leads to the next
/// bank, and the last bank is at most its capacity of instruction bytes
/// followed by the loop opcode where there is a loop target and the end
/// opcode where there is none.
pub open spec fn image_fits(image: EngineImage) -> bool {
    &&& 1 <= image.banks.len() <= MAX_BANKS
    &&& forall|i: int|
        0 <= i < image.banks.len() ==> 1 <= (#[trigger] image.banks[i]).len() <= BANK_CAPACITY + 1
    &&& forall|i: int|
        0 <= i < image.banks.len() - 1 ==> (#[trigger] image.banks[i]).last() == NEXT_BANK_CMD
    &&& image.banks.last().last() == if image.loop_data is Some {
        LOOP_CMD
    } else {
        END_SONG_CMD
    }
}

proof fn lemma_emit_fits(p: Program, instr: Seq<u8>)
    requires
        program_fits(p),
        instr.len() <= BANK_CAPACITY,
    ensures
        emit(p, instr) is Ok ==> program_fits(emit(p, instr)->Ok_0),
{
    if emit(p, instr) is Ok {
        let q = emit(p, instr)->Ok_0;
        if p.current.len() + instr.len() > BANK_CAPACITY {
            let s = seal(p);
            assert forall|i: int| 0 <= i < s.banks.len() implies {
                &&& 1 <= (#[trigger] s.banks[i]).len() <= BANK_CAPACITY + 1
                &&& s.banks[i].last() == NEXT_BANK_CMD
            } by {
                if i < p.banks.len() {
                    assert(s.banks[i] == p.banks[i]);
                }
            }
        }
    }
}

proof fn lemma_emit_wait_fits(p: Program, frames: int)
    requires
        program_fits(p),
    ensures
        emit_wait(p, frames) is Ok ==> program_fits(emit_wait(p, frames)->Ok_0),
    decreases frames,
{
    if frames > MAX_WAIT {
        lemma_emit_fits(p, seq![WAIT_CMD, 0xFFu8]);
        if emit(p, seq![WAIT_CMD, 0xFFu8]) is Ok {
            lemma_emit_wait_fits(emit(p, seq![WAIT_CMD, 0xFFu8])->Ok_0, frames - MAX_WAIT);
        }
    } else {
        lemma_emit_fits(p, seq![WAIT_CMD, frames as u8]);
    }
}

proof fn lemma_apply_fits(
    p: Program,
    command: VgmCommand,
    for_2x: bool,
    dual: bool,
    engine_rate: u32,
)
    requires
        program_fits(p),
    ensures
        apply(p, command, for_2x, dual, engine_rate) is Ok ==> program_fits(
            apply(p, command, for_2x, dual, engine_rate)->Ok_0,
        ),
{
    match command {
        VgmCommand::HitLoopOffset => {},
        VgmCommand::Wait(samples) => {
            lemma_emit_wait_fits(p, frames_of_samples(samples as u32, engine_rate));
        },
        VgmCommand::DataBlock(_, bytes) => {
            if bytes.len() > 0 {
                lemma_emit_fits(p, seq![WRITE_HRAM_CMD, SYNC_ADDRESS, bytes[0]]);
            }
        },
        VgmCommand::Write(second, addr, value) => {
            lemma_emit_fits(p, write_instruction(second == for_2x, addr, value));
        },
        VgmCommand::Invalid(_) => {},
        VgmCommand::Truncated => {},
    }
}

proof fn lemma_encode_from_fits(
    p: Program,
    commands: Seq<VgmCommand>,
    for_2x: bool,
    dual: bool,
    engine_rate: u32,
)
    requires
        program_fits(p),
    ensures
        encode_from(p, commands, for_2x, dual, engine_rate) is Ok ==> program_fits(
            encode_from(p, commands, for_2x, dual, engine_rate)->Ok_0,
        ),
    decreases commands.len(),
{
    if commands.len() > 0 {
        lemma_apply_fits(p, commands[0], for_2x, dual, engine_rate);
        if apply(p, commands[0], for_2x, dual, engine_rate) is Ok {
            lemma_encode_from_fits(
                apply(p, commands[0], for_2x, dual, engine_rate)->Ok_0,
                commands.drop_first(),
                for_2x,
                dual,
                engine_rate,
            );
        }
    }
}

proof fn lemma_finish_fits(p: Program)
    requires
        program_fits(p),
    ensures
        image_fits(finish(p)),
{
    let image = finish(p);
    assert forall|i: int| 0 <= i < image.banks.len() implies 1 <= (#[trigger] image.banks[i]).len()
        <= BANK_CAPACITY + 1 by {
        if i < p.banks.len() {
            assert(image.banks[i] == p.banks[i]);
        }
    }
    assert forall|i: int| 0 <= i < image.banks.len() - 1 implies (#[trigger] image.banks[i]).last()
        == NEXT_BANK_CMD by {
        assert(image.banks[i] == p.banks[i]);
    }
}

/// No bank of a program holds more instruction bytes than its capacity,
/// every bank but the last ends in the opcode that leads to the next bank,
/// and the last bank ends in the loop opcode exactly when the program has a
/// loop target.
pub proof fn lemma_banks_fit(commands: Seq<VgmCommand>, for_2x: bool, dual: bool, engine_rate: u32)
    ensures
        encode(commands, for_2x, dual, engine_rate) is Ok ==> image_fits(
            encode(commands, for_2x, dual, engine_rate)->Ok_0,
        ),
{
    lemma_encode_from_fits(empty_program(), commands, for_2x, dual, engine_rate);
    if encode_from(empty_program(), commands, for_2x, dual, engine_rate) is Ok {
        lemma_finish_fits(encode_from(empty_program(), commands, for_2x, dual, engine_rate)->Ok_0);
    }
}

/// A program for the driver: its banks, and the loop target as the number
/// of its bank on the cartridge and its address there.
pub struct PegmodeEngineData {
    pub banks: Vec<Vec<u8>>,
    pub loop_data: Option<(usize, usize)>,
}

impl View for PegmodeEngineData {
    type V = EngineImage;

    open spec fn view(&self) -> EngineImage {
        EngineImage { banks: bank_contents(self.banks@), loop_data: self.loop_data }
    }
}

struct Encoder {
    banks: Vec<Vec<u8>>,
    current: Vec<u8>,
    loop_data: Option<(usize, usize)>,
    loop_pending: bool,
}

impl View for Encoder {
    type V = Program;

    closed spec fn view(&self) -> Program {
        Program {
            banks: bank_contents(self.banks@),
            current: self.current@,
            loop_data: self.loop_data,
            loop_pending: self.loop_pending,
        }
    }
}

impl Encoder {
    fn new() -> (encoder: Self)
        ensures
            encoder@ == empty_program(),
            program_fits(encoder@),
    {
        let encoder = Encoder {
            banks: Vec::new(),
            current: Vec::new(),
            loop_data: None,
            loop_pending: false,
        };
        assert(bank_contents(encoder.banks@) =~= Seq::<Seq<u8>>::empty());
        encoder
    }

    fn emit(&mut self, instr: &Vec<u8>) -> (res: Result<(), TranscodeError>)
        requires
            program_fits(old(self)@),
            instr@.len() <= 3,
        ensures
            match res {
                Ok(()) => emit(old(self)@, instr@) == Ok::<Program, TranscodeError>(final(self)@)
                    && program_fits(final(self)@),
                Err(e) => emit(old(self)@, instr@) == Err::<Program, TranscodeError>(e),
            },
    {
        proof {
            lemma_emit_fits(self@, instr@);
        }
        if self.current.len() + instr.len() > BANK_CAPACITY {
            if self.banks.len() + 2 > MAX_BANKS {
                return Err(TranscodeError::TooManyBanks);
            }
            let ghost before = bank_contents(self.banks@);
            self.current.push(NEXT_BANK_CMD);
            let mut full: Vec<u8> = Vec::new();
            std::mem::swap(&mut full, &mut self.current);
            self.banks.push(full);
            assert(bank_contents(self.banks@) =~= before.push(full@));
            assert(self@ == seal(old(self)@));
        }
        let ghost sealed = self@;
        if self.loop_pending {
            self.loop_data = Some((self.banks.len() + 1, self.current.len() + 0x4000));
            self.loop_pending = false;
        }
        let mut i: usize = 0;
        while i < instr.len()
            invariant
                i <= instr@.len(),
                self@.banks == sealed.banks,
                self@.loop_data == place(sealed, instr@).loop_data,
                self@.loop_pending == false,
                self@.current == sealed.current + instr@.take(i as int),
            decreases instr@.len() - i,
        {
            self.current.push(instr[i]);
            assert(instr@.take(i + 1) =~= instr@.take(i as int).push(instr@[i as int]));
            assert(self@.current =~= sealed.current + instr@.take(i + 1));
            i = i + 1;
        }
        assert(instr@.take(i as int) =~= instr@);
        assert(self@ == place(sealed, instr@));
        Ok(())
    }

    fn emit_wait(&mut self, frames: u32) -> (res: Result<(), TranscodeError>)
        requires
            program_fits(old(self)@),
        ensures
            match res {
                Ok(()) => emit_wait(old(self)@, frames as int) == Ok::<Program, TranscodeError>(
                    final(self)@,
                ) && program_fits(final(self)@),
                Err(e) => emit_wait(old(self)@, frames as int) == Err::<Program, TranscodeError>(e),
            },
    {
        let mut left = frames;
        while left > MAX_WAIT
            invariant
                program_fits(self@),
                emit_wait(self@, left as int) == emit_wait(old(self)@, frames as int),
            decreases left,
        {
            let chunk = vec![WAIT_CMD, 0xFFu8];
            assert(chunk@ =~= seq![WAIT_CMD, 0xFFu8]);
            match self.emit(&chunk) {
                Ok(()) => {},
                Err(e) => {
                    return Err(e);
                },
            }
            left = left - MAX_WAIT;
        }
        let last = vec![WAIT_CMD, left as u8];
        assert(last@ =~= seq![WAIT_CMD, left as u8]);
        self.emit(&last)
    }

    fn finish(self) -> (data: PegmodeEngineData)
        requires
            program_fits(self@),
        ensures
            data@ == finish(self@),
    {
        let mut encoder = self;
        if encoder.loop_pending {
            encoder.loop_data = Some((encoder.banks.len() + 1, encoder.current.len() + 0x4000));
        }
        if encoder.loop_data.is_some() {
            encoder.current.push(LOOP_CMD);
        } else {
            encoder.current.push(END_SONG_CMD);
        }
        let ghost before = bank_contents(encoder.banks@);
        let mut banks = encoder.banks;
        let last = encoder.current;
        banks.push(last);
        assert(bank_contents(banks@) =~= before.push(last@));
        PegmodeEngineData { banks, loop_data: encoder.loop_data }
    }
}

/// Turns the commands of a log into a program for one of its chips:
/// `for_2x` picks the second chip.
pub fn vgm_to_engine_format(vgm: &Vgm, for_2x: bool, engine_rate: u32) -> (res: Result<
    PegmodeEngineData,
    TranscodeError,
>)
    ensures
        match res {
            Ok(data) => engine_data(vgm@, for_2x, engine_rate) == Ok::<EngineImage, TranscodeError>(
                data@,
            ) && image_fits(data@),
            Err(e) => engine_data(vgm@, for_2x, engine_rate) == Err::<EngineImage, TranscodeError>(e),
        },
{
    let mut encoder = Encoder::new();
    let dual = match vgm.lr35902_clock() {
        Some((_, dual)) => dual,
        None => false,
    };
    let mut iter = vgm.iter();
    let ghost goal = encode_from(empty_program(), commands(vgm@), for_2x, dual, engine_rate);
    loop
        invariant_except_break
            encode_from(encoder@, commands_from(vgm@, iter@), for_2x, dual, engine_rate) == goal,
        invariant
            dual == dual_of(vgm@),
            iter.data() == vgm@,
            program_fits(encoder@),
            goal == encode_from(empty_program(), commands(vgm@), for_2x, dual, engine_rate),
        ensures
            program_fits(encoder@),
            goal == Ok::<Program, TranscodeError>(encoder@),
        decreases remaining(vgm@, iter@),
    {
        let ghost before = iter@;
        let ghost program = encoder@;
        let item = match iter.next() {
            Some(item) => item,
            None => {
                assert(commands_from(vgm@, before) =~= Seq::<VgmCommand>::empty());
                break ;
            },
        };
        proof {
            lemma_step_decreases(vgm@, before);
            let rest = commands_from(vgm@, before);
            assert(rest[0] == item@);
            assert(rest.drop_first() =~= commands_from(vgm@, iter@));
        }
        let done = match item {
            VgmIterItem::HitLoopOffset => {
                encoder.loop_pending = true;
                Ok(())
            },
            VgmIterItem::WaitCommand(samples) => {
                let frames = samples_to_frames(samples as u32, engine_rate);
                encoder.emit_wait(frames)
            },
            VgmIterItem::DataBlock(_, block) => {
                if block.len() == 0 {
                    Err(TranscodeError::EmptyDataBlock)
                } else {
                    let instr = vec![WRITE_HRAM_CMD, SYNC_ADDRESS, block[0]];
                    assert(instr@ =~= seq![WRITE_HRAM_CMD, SYNC_ADDRESS, block@[0]]);
                    encoder.emit(&instr)
                }
            },
            VgmIterItem::WriteLR35902RegCommand(second, addr, value) => {
                if second && !dual {
                    Err(TranscodeError::SecondChipWrite)
                } else if second == for_2x {
                    let low: u16 = addr & 0xFF;
                    assert(low <= 0xFF) by (bit_vector)
                        requires
                            low == addr & 0xFF,
                    ;
                    let instr = vec![low as u8, value];
                    assert(instr@ =~= write_instruction(true, addr, value));
                    encoder.emit(&instr)
                } else {
                    let instr = vec![INERT_REGISTER, INERT_VALUE];
                    assert(instr@ =~= write_instruction(false, addr, value));
                    encoder.emit(&instr)
                }
            },
            VgmIterItem::InvalidCommand(code) => Err(TranscodeError::UnsupportedCommand(code)),
            VgmIterItem::Truncated => Err(TranscodeError::TruncatedCommand),
        };
        match done {
            Ok(()) => {
                assert(apply(program, item@, for_2x, dual, engine_rate) == Ok::<
                    Program,
                    TranscodeError,
                >(encoder@));
            },
            Err(e) => {
                assert(apply(program, item@, for_2x, dual, engine_rate) == Err::<
                    Program,
                    TranscodeError,
                >(e));
                return Err(e);
            },
        }
    }
    proof {
        lemma_finish_fits(encoder@);
    }
    Ok(encoder.finish())
}

/// Width of a metadata string of a song file.
pub const METADATA_LEN: usize = 0x20;

/// Offset in the driver image of the first byte that a song file carries.
pub const LOAD_ADDRESS: usize = 0x3EF0;

/// Offset in the driver image of the timer modulo, which the timer control,
/// the loop address and the loop bank follow.
pub const TIMER_OFFSET: usize = 0x3FFA;

/// `bytes` cut or filled with zeros to the width of a metadata string.
pub open spec fn metadata_field(bytes: Seq<u8>) -> Seq<u8> {
    Seq::new(
        METADATA_LEN as nat,
        |i: int|
            if i < bytes.len() {
                bytes[i]
            } else {
                0u8
            },
    )
}

fn metadata_bytes(bytes: &[u8]) -> (field: Vec<u8>)
    ensures
        field@ == metadata_field(bytes@),
{
    let mut field: Vec<u8> = Vec::new();
    let mut i: usize = 0;
    while i < METADATA_LEN
        invariant
            i <= METADATA_LEN,
            field@.len() == i,
            forall|j: int| 0 <= j < i ==> field@[j] == metadata_field(bytes@)[j],
        decreases METADATA_LEN - i,
    {
        if i < bytes.len() {
            field.push(bytes[i]);
        } else {
            field.push(0);
        }
        i = i + 1;
    }
    assert(field@ =~= metadata_field(bytes@));
    field
}

/// The UTF-8 bytes of `s`, cut or filled with zeros to 32 bytes.
pub fn metadata_string(s: &str) -> (field: Vec<u8>)
    ensures
        field@ == metadata_field(s.spec_bytes()),
{
    metadata_bytes(s.as_bytes())
}

/// The byte that stands for the whole number `value` when all but its low
/// eight bits are dropped.
pub open spec fn low_byte(value: int) -> u8 {
    (value % 0x100) as u8
}

/// The timer modulo and timer control for a frame rate: at 60 frames a
/// second the timer is off and the modulo is the offset alone, at any other
/// rate the timer runs at its slowest setting.
pub open spec fn timer_settings(engine_rate: u32, tma_offset: i32) -> (u8, u8) {
    if engine_rate == 60 {
        (low_byte(tma_offset as int), 0u8)
    } else {
        (low_byte(0xFF - rounded_ratio(TMA_RATE_0, engine_rate) + tma_offset), 4u8)
    }
}

fn low_byte_of(value: i64) -> (byte: u8)
    requires
        -0x1_0000_0000 <= value <= 0x1_0000_0000,
    ensures
        byte == low_byte(value as int),
{
    let lifted: i64 = value + 0x1_0000_0000;
    proof {
        vstd::arithmetic::div_mod::lemma_mod_multiples_vanish(0x100_0000, value as int, 0x100);
    }
    (lifted % 0x100) as u8
}

/// Works out the timer modulo and the timer control for a frame rate.
pub fn timer_bytes(engine_rate: u32, tma_offset: i32) -> (settings: (u8, u8))
    ensures
        settings == timer_settings(engine_rate, tma_offset),
{
    if engine_rate == 60 {
        (low_byte_of(tma_offset as i64), 0)
    } else {
        let modulo = calculate_tma_modulo(TMA_RATE_0, engine_rate);
        (low_byte_of(modulo as i64 + tma_offset as i64), 4)
    }
}

/// The first sixteen bytes of a song file: the tag `GBS`, version 1, one
/// song, the first song is song 1, the load, init and play addresses, the
/// stack pointer, and the two timer bytes.
pub open spec fn gbs_header(tma: u8, tac: u8) -> Seq<u8> {
    seq![
        0x47u8,
        0x42u8,
        0x53u8,
        1u8,
        1u8,
        1u8,
        0xF0u8,
        0x3Eu8,
        0xF0u8,
        0x3Eu8,
        0x26u8,
        0x3Fu8,
        0xFEu8,
        0xFFu8,
        tma,
        tac,
    ]
}

/// The byte at offset `i` of the cartridge: the timer bytes and the loop
/// target at the end of bank 0, each bank of the program at the start of its
/// own bank of the cartridge, and elsewhere the driver, or 0 behind it.
pub open spec fn cartridge_byte(driver: Seq<u8>, image: EngineImage, tma: u8, tac: u8, i: int) -> u8 {
    if i == TIMER_OFFSET {
        tma
    } else if i == TIMER_OFFSET + 1 {
        tac
    } else if TIMER_OFFSET + 2 <= i < BANK_SIZE && image.loop_data is Some {
        let (bank, addr) = image.loop_data->Some_0;
        if i == TIMER_OFFSET + 2 {
            low_byte(addr as int)
        } else if i == TIMER_OFFSET + 3 {
            low_byte(addr as int / 0x100)
        } else if i == TIMER_OFFSET + 4 {
            low_byte(bank as int)
        } else {
            low_byte(bank as int / 0x100)
        }
    } else if i >= BANK_SIZE && i / (BANK_SIZE as int) <= image.banks.len() && i % (
    BANK_SIZE as int) < image.banks[i / (BANK_SIZE as int) - 1].len() {
        image.banks[i / (BANK_SIZE as int) - 1][i % (BANK_SIZE as int)]
    } else if i < driver.len() {
        driver[i]
    } else {
        0u8
    }
}

/// Length of the cartridge: the driver and one more bank than the program
/// has.
pub open spec fn cartridge_len(driver: Seq<u8>, image: EngineImage) -> int {
    driver.len() + (image.banks.len() + 1) * BANK_SIZE
}

/// The song file for a program: header, title, author and game, then the
/// cartridge from the load address on.
pub open spec fn gbs_file(
    driver: Seq<u8>,
    image: EngineImage,
    tma: u8,
    tac: u8,
    title: Seq<u8>,
    author: Seq<u8>,
    game: Seq<u8>,
) -> Seq<u8> {
    gbs_header(tma, tac) + metadata_field(title) + metadata_field(author) + metadata_field(game)
        + Seq::new(
        (cartridge_len(driver, image) - LOAD_ADDRESS) as nat,
        |k: int| cartridge_byte(driver, image, tma, tac, k + LOAD_ADDRESS),
    )
}

/// What `build_gbs` returns.
pub open spec fn build_outcome(
    driver: Seq<u8>,
    image: EngineImage,
    tma: u8,
    tac: u8,
    title: Seq<u8>,
    author: Seq<u8>,
    game: Seq<u8>,
) -> Result<Seq<u8>, TranscodeError> {
    if driver.len() < BANK_SIZE {
        Err(TranscodeError::DriverTooShort)
    } else if cartridge_len(driver, image) > usize::MAX {
        Err(TranscodeError::ImageTooLarge)
    } else {
        Ok(gbs_file(driver, image, tma, tac, title, author, game))
    }
}

fn cartridge_byte_at(
    driver: &[u8],
    engine: &PegmodeEngineData,
    tma: u8,
    tac: u8,
    i: usize,
) -> (byte: u8)
    requires
        image_fits(engine@),
    ensures
        byte == cartridge_byte(driver@, engine@, tma, tac, i as int),
{
    if i == TIMER_OFFSET {
        return tma;
    }
    if i == TIMER_OFFSET + 1 {
        return tac;
    }
    if TIMER_OFFSET + 2 <= i && i < BANK_SIZE {
        match engine.loop_data {
            Some((bank, addr)) => {
                if i == TIMER_OFFSET + 2 {
                    return (addr % 0x100) as u8;
                } else if i == TIMER_OFFSET + 3 {
                    return ((addr / 0x100) % 0x100) as u8;
                } else if i == TIMER_OFFSET + 4 {
                    return (bank % 0x100) as u8;
                } else {
                    return ((bank / 0x100) % 0x100) as u8;
                }
            },
            None => {},
        }
    }
    if i >= BANK_SIZE && i / BANK_SIZE <= engine.banks.len() {
        let bank = &engine.banks[i / BANK_SIZE - 1];
        assert(bank@ == engine@.banks[i as int / (BANK_SIZE as int) - 1]);
        if i % BANK_SIZE < bank.len() {
            return bank[i % BANK_SIZE];
        }
    }
    if i < driver.len() {
        driver[i]
    } else {
        0
    }
}

fn append(out: &mut Vec<u8>, bytes: &[u8])
    ensures
        final(out)@ == old(out)@ + bytes@,
{
    let mut i: usize = 0;
    while i < bytes.len()
        invariant
            i <= bytes@.len(),
            out@ == old(out)@ + bytes@.take(i as int),
        decreases bytes@.len() - i,
    {
        out.push(bytes[i]);
        assert(bytes@.take(i + 1) =~= bytes@.take(i as int).push(bytes@[i as int]));
        assert(out@ =~= old(out)@ + bytes@.take(i + 1));
        i = i + 1;
    }
    assert(bytes@.take(i as int) =~= bytes@);
}

/// Lays a program out behind the driver and wraps the cartridge as a song
/// file. `title`, `author` and `game` are the metadata strings as bytes.
pub fn build_gbs(
    driver: &[u8],
    engine: &PegmodeEngineData,
    tma: u8,
    tac: u8,
    title: &[u8],
    author: &[u8],
    game: &[u8],
) -> (res: Result<Vec<u8>, TranscodeError>)
    requires
        image_fits(engine@),
    ensures
        match res {
            Ok(file) => build_outcome(driver@, engine@, tma, tac, title@, author@, game@) == Ok::<
                Seq<u8>,
                TranscodeError,
            >(file@),
            Err(e) => build_outcome(driver@, engine@, tma, tac, title@, author@, game@) == Err::<
                Seq<u8>,
                TranscodeError,
            >(e),
        },
{
    if driver.len() < BANK_SIZE {
        return Err(TranscodeError::DriverTooShort);
    }
    assert(bank_contents(engine.banks@).len() == engine.banks@.len());
    let pages: usize = (engine.banks.len() + 1) * BANK_SIZE;
    let total: usize = match driver.len().checked_add(pages) {
        Some(total) => total,
        None => {
            return Err(TranscodeError::ImageTooLarge);
        },
    };
    let mut out: Vec<u8> = vec![
        0x47u8,
        0x42u8,
        0x53u8,
        1u8,
        1u8,
        1u8,
        0xF0u8,
        0x3Eu8,
        0xF0u8,
        0x3Eu8,
        0x26u8,
        0x3Fu8,
        0xFEu8,
        0xFFu8,
        tma,
        tac,
    ];
    assert(out@ =~= gbs_header(tma, tac));
    let title_field = metadata_bytes(title);
    append(&mut out, title_field.as_slice());
    let author_field = metadata_bytes(author);
    append(&mut out, author_field.as_slice());
    let game_field = metadata_bytes(game);
    append(&mut out, game_field.as_slice());
    let ghost front = out@;
    let mut i: usize = LOAD_ADDRESS;
    while i < total
        invariant
            LOAD_ADDRESS <= i <= total,
            total == cartridge_len(driver@, engine@),
            image_fits(engine@),
            out@.len() == front.len() + (i - LOAD_ADDRESS),
            forall|k: int| 0 <= k < front.len() ==> out@[k] == front[k],
            forall|j: int|
                front.len() <= j < out@.len() ==> #[trigger] out@[j] == cartridge_byte(
                    driver@,
                    engine@,
                    tma,
                    tac,
                    j - front.len() + LOAD_ADDRESS,
                ),
        decreases total - i,
    {
        let byte = cartridge_byte_at(driver, engine, tma, tac, i);
        out.push(byte);
        i = i + 1;
    }
    assert(out@ =~= gbs_file(driver@, engine@, tma, tac, title@, author@, game@));
    Ok(out)
}

/// The placeholder for metadata that a log does not have: `<?>`.
pub open spec fn placeholder() -> Seq<u8> {
    seq![0x3Cu8, 0x3Fu8, 0x3Eu8]
}

/// The title, author and game of a song file, as bytes.
pub open spec fn metadata_strings(meta: Option<Gd3Text>) -> (Seq<u8>, Seq<u8>, Seq<u8>) {
    match meta {
        Some(text) => (encode_utf8(text.title), encode_utf8(text.author), encode_utf8(text.game)),
        None => (placeholder(), placeholder(), placeholder()),
    }
}

/// What `vgm_to_gbs` returns for the log `data`.
pub open spec fn gbs_outcome(
    data: Seq<u8>,
    for_2x: bool,
    engine_rate: u32,
    tma_offset: i32,
    driver: Seq<u8>,
) -> Result<Seq<u8>, TranscodeError> {
    match engine_data(data, for_2x, engine_rate) {
        Err(e) => Err(e),
        Ok(image) => {
            let (tma, tac) = timer_settings(engine_rate, tma_offset);
            let (title, author, game) = metadata_strings(metadata_of(data));
            build_outcome(driver, image, tma, tac, title, author, game)
        },
    }
}

/// Turns a log into a song file for one of its chips: `for_2x` picks the
/// second chip. `patch_rom` is the image of the driver, at least one bank
/// long, that the program is laid out behind.
pub fn vgm_to_gbs(
    vgm: &Vgm,
    for_2x: bool,
    engine_rate: u32,
    tma_offset: i32,
    patch_rom: &[u8],
) -> (res: Result<Vec<u8>, TranscodeError>)
    ensures
        match res {
            Ok(file) => gbs_outcome(vgm@, for_2x, engine_rate, tma_offset, patch_rom@) == Ok::<
                Seq<u8>,
                TranscodeError,
            >(file@),
            Err(e) => gbs_outcome(vgm@, for_2x, engine_rate, tma_offset, patch_rom@) == Err::<
                Seq<u8>,
                TranscodeError,
            >(e),
        },
{
    let engine = match vgm_to_engine_format(vgm, for_2x, engine_rate) {
        Ok(engine) => engine,
        Err(e) => {
            return Err(e);
        },
    };
    let (tma, tac) = timer_bytes(engine_rate, tma_offset);
    match vgm.gd3_metadata() {
        Some(gd3) => build_gbs(
            patch_rom,
            &engine,
            tma,
            tac,
            gd3.title.as_str().as_bytes(),
            gd3.author.as_str().as_bytes(),
            gd3.game.as_str().as_bytes(),
        ),
        None => {
            let unknown = vec![0x3Cu8, 0x3Fu8, 0x3Eu8];
            assert(unknown@ =~= placeholder());
            build_gbs(
                patch_rom,
                &engine,
                tma,
                tac,
                unknown.as_slice(),
                unknown.as_slice(),
                unknown.as_slice(),
            )
        },
    }
}

/// A whole number of frames that lasts a whole number of samples is what
/// its length in samples is rounded to: exact lengths do not drift.
pub proof fn lemma_frames_round_trip(frames: u32, engine_rate: u32)
    requires
        samples_of_frames(frames, engine_rate) is Some,
    ensures
        frames_of_samples(samples_of_frames(frames, engine_rate)->0, engine_rate) == frames,
{
    let scaled = frames as int * 44100;
    let rate = engine_rate as int;
    let samples = scaled / rate;
    assert(samples * rate == scaled) by (nonlinear_arith)
        requires
            rate > 0,
            scaled % rate == 0,
            samples == scaled / rate,
    ;
}

/// The first instruction that a command is turned into; nothing for the
/// loop marker and for what cannot be turned into anything.
pub open spec fn first_instruction(command: VgmCommand, for_2x: bool, engine_rate: u32) -> Seq<u8> {
    match command {
        VgmCommand::Wait(samples) => if frames_of_samples(samples as u32, engine_rate) > MAX_WAIT {
            seq![WAIT_CMD, 0xFFu8]
        } else {
            seq![WAIT_CMD, frames_of_samples(samples as u32, engine_rate) as u8]
        },
        VgmCommand::DataBlock(_, bytes) => seq![WRITE_HRAM_CMD, SYNC_ADDRESS, bytes[0]],
        VgmCommand::Write(second, addr, value) => write_instruction(second == for_2x, addr, value),
        _ => Seq::empty(),
    }
}

/// Whether `instr` stands in `banks` at `target`, which names a bank by its
/// number on the cartridge and a byte by its address there.
pub open spec fn stands_at(banks: Seq<Seq<u8>>, target: (usize, usize), instr: Seq<u8>) -> bool {
    let (bank, addr) = target;
    &&& 1 <= bank <= banks.len()
    &&& BANK_SIZE <= addr
    &&& addr - BANK_SIZE + instr.len() <= banks[bank - 1].len()
    &&& banks[bank - 1].subrange(addr - BANK_SIZE, addr - BANK_SIZE + instr.len()) == instr
}

/// Whether the loop target of `p` is settled and `instr` stands at it.
pub open spec fn target_settled(p: Program, instr: Seq<u8>) -> bool {
    &&& !p.loop_pending
    &&& p.loop_data is Some
    &&& stands_at(p.banks.push(p.current), p.loop_data->0, instr)
}

proof fn lemma_emit_settles(p: Program, instr: Seq<u8>)
    requires
        program_fits(p),
        p.loop_pending,
        emit(p, instr) is Ok,
    ensures
        target_settled(emit(p, instr)->Ok_0, instr),
{
    let q = emit(p, instr)->Ok_0;
    let rows = q.banks.push(q.current);
    let (bank, addr) = q.loop_data->0;
    assert(rows[bank - 1] == q.current);
    assert(q.current.subrange(addr - BANK_SIZE, addr - BANK_SIZE + instr.len()) =~= instr);
}

proof fn lemma_emit_keeps(p: Program, instr: Seq<u8>, first: Seq<u8>)
    requires
        program_fits(p),
        target_settled(p, first),
        emit(p, instr) is Ok,
    ensures
        target_settled(emit(p, instr)->Ok_0, first),
{
    let q = emit(p, instr)->Ok_0;
    let before = p.banks.push(p.current);
    let after = q.banks.push(q.current);
    let (bank, addr) = p.loop_data->0;
    let from = addr - BANK_SIZE;
    let row = before[bank - 1];
    assert(row.len() <= after[bank - 1].len());
    let new_row = after[bank - 1];
    assert forall|k: int| 0 <= k < row.len() implies #[trigger] new_row[k] == row[k] by {}
    assert(after[bank - 1].subrange(from, from + first.len()) =~= row.subrange(
        from,
        from + first.len(),
    ));
}

proof fn lemma_emit_wait_keeps(p: Program, frames: int, first: Seq<u8>)
    requires
        program_fits(p),
        target_settled(p, first),
        emit_wait(p, frames) is Ok,
    ensures
        target_settled(emit_wait(p, frames)->Ok_0, first),
    decreases frames,
{
    if frames > MAX_WAIT {
        let chunk = seq![WAIT_CMD, 0xFFu8];
        lemma_emit_keeps(p, chunk, first);
        lemma_emit_fits(p, chunk);
        lemma_emit_wait_keeps(emit(p, chunk)->Ok_0, frames - MAX_WAIT, first);
    } else {
        lemma_emit_keeps(p, seq![WAIT_CMD, frames as u8], first);
    }
}

proof fn lemma_apply_settles(
    p: Program,
    command: VgmCommand,
    for_2x: bool,
    dual: bool,
    engine_rate: u32,
)
    requires
        program_fits(p),
        p.loop_pending,
        !(command is HitLoopOffset),
        apply(p, command, for_2x, dual, engine_rate) is Ok,
    ensures
        target_settled(
            apply(p, command, for_2x, dual, engine_rate)->Ok_0,
            first_instruction(command, for_2x, engine_rate),
        ),
{
    let first = first_instruction(command, for_2x, engine_rate);
    match command {
        VgmCommand::Wait(samples) => {
            let frames = frames_of_samples(samples as u32, engine_rate);
            lemma_emit_settles(p, first);
            if frames > MAX_WAIT {
                lemma_emit_fits(p, first);
                lemma_emit_wait_keeps(emit(p, first)->Ok_0, frames - MAX_WAIT, first);
            }
        },
        VgmCommand::DataBlock(_, bytes) => {
            lemma_emit_settles(p, first);
        },
        VgmCommand::Write(second, addr, value) => {
            lemma_emit_settles(p, first);
        },
        _ => {},
    }
}

proof fn lemma_apply_keeps(
    p: Program,
    command: VgmCommand,
    for_2x: bool,
    dual: bool,
    engine_rate: u32,
    first: Seq<u8>,
)
    requires
        program_fits(p),
        target_settled(p, first),
        !(command is HitLoopOffset),
        apply(p, command, for_2x, dual, engine_rate) is Ok,
    ensures
        target_settled(apply(p, command, for_2x, dual, engine_rate)->Ok_0, first),
{
    match command {
        VgmCommand::Wait(samples) => {
            lemma_emit_wait_keeps(p, frames_of_samples(samples as u32, engine_rate), first);
        },
        VgmCommand::DataBlock(_, bytes) => {
            lemma_emit_keeps(p, seq![WRITE_HRAM_CMD, SYNC_ADDRESS, bytes[0]], first);
        },
        VgmCommand::Write(second, addr, value) => {
            lemma_emit_keeps(p, write_instruction(second == for_2x, addr, value), first);
        },
        _ => {},
    }
}

proof fn lemma_encode_from_keeps(
    p: Program,
    commands: Seq<VgmCommand>,
    for_2x: bool,
    dual: bool,
    engine_rate: u32,
    first: Seq<u8>,
)
    requires
        program_fits(p),
        target_settled(p, first),
        forall|i: int| 0 <= i < commands.len() ==> !(#[trigger] commands[i] is HitLoopOffset),
        encode_from(p, commands, for_2x, dual, engine_rate) is Ok,
    ensures
        target_settled(encode_from(p, commands, for_2x, dual, engine_rate)->Ok_0, first),
    decreases commands.len(),
{
    if commands.len() > 0 {
        assert(!(commands[0] is HitLoopOffset));
        lemma_apply_keeps(p, commands[0], for_2x, dual, engine_rate, first);
        lemma_apply_fits(p, commands[0], for_2x, dual, engine_rate);
        let rest = commands.drop_first();
        assert forall|i: int| 0 <= i < rest.len() implies !(#[trigger] rest[i] is HitLoopOffset) by {
            assert(rest[i] == commands[i + 1]);
        }
        lemma_encode_from_keeps(
            apply(p, commands[0], for_2x, dual, engine_rate)->Ok_0,
            rest,
            for_2x,
            dual,
            engine_rate,
            first,
        );
    }
}

/// Encoding a list of commands is encoding its front and then its back.
pub proof fn lemma_encode_from_concat(
    p: Program,
    front: Seq<VgmCommand>,
    back: Seq<VgmCommand>,
    for_2x: bool,
    dual: bool,
    engine_rate: u32,
)
    ensures
        encode_from(p, front + back, for_2x, dual, engine_rate) == match encode_from(
            p,
            front,
            for_2x,
            dual,
            engine_rate,
        ) {
            Ok(q) => encode_from(q, back, for_2x, dual, engine_rate),
            Err(e) => Err(e),
        },
    decreases front.len(),
{
    if front.len() == 0 {
        assert(front + back =~= back);
    } else {
        assert((front + back)[0] == front[0]);
        assert((front + back).drop_first() =~= front.drop_first() + back);
        match apply(p, front[0], for_2x, dual, engine_rate) {
            Ok(q) => {
                lemma_encode_from_concat(q, front.drop_first(), back, for_2x, dual, engine_rate);
            },
            Err(_) => {},
        }
    }
}

/// Where a log holds the loop marker, then the command `next`, then
/// commands without another marker, the loop target of its program is where
/// the first instruction of `next` stands, and the program ends in the loop
/// opcode.
pub proof fn lemma_loop_target(
    before: Seq<VgmCommand>,
    next: VgmCommand,
    after: Seq<VgmCommand>,
    for_2x: bool,
    dual: bool,
    engine_rate: u32,
)
    requires
        !(next is HitLoopOffset),
        forall|i: int| 0 <= i < after.len() ==> !(#[trigger] after[i] is HitLoopOffset),
        encode(
            before + seq![VgmCommand::HitLoopOffset, next] + after,
            for_2x,
            dual,
            engine_rate,
        ) is Ok,
    ensures
        ({
            let image = encode(
                before + seq![VgmCommand::HitLoopOffset, next] + after,
                for_2x,
                dual,
                engine_rate,
            )->Ok_0;
            &&& image.loop_data is Some
            &&& stands_at(
                image.banks,
                image.loop_data->0,
                first_instruction(next, for_2x, engine_rate),
            )
            &&& image.banks.last().last() == LOOP_CMD
        }),
{
    let start = empty_program();
    let middle = seq![VgmCommand::HitLoopOffset, next];
    let first = first_instruction(next, for_2x, engine_rate);
    lemma_encode_from_concat(start, before + middle, after, for_2x, dual, engine_rate);
    lemma_encode_from_concat(start, before, middle, for_2x, dual, engine_rate);
    lemma_encode_from_fits(start, before, for_2x, dual, engine_rate);
    let at_marker = encode_from(start, before, for_2x, dual, engine_rate)->Ok_0;
    let marked = Program { loop_pending: true, ..at_marker };
    assert(middle.drop_first() =~= seq![next]);
    assert(seq![next].drop_first() =~= Seq::<VgmCommand>::empty());
    assert(encode_from(at_marker, middle, for_2x, dual, engine_rate) == encode_from(
        marked,
        seq![next],
        for_2x,
        dual,
        engine_rate,
    ));
    let placed = apply(marked, next, for_2x, dual, engine_rate)->Ok_0;
    let none = Seq::<VgmCommand>::empty();
    assert(encode_from(placed, none, for_2x, dual, engine_rate) == Ok::<Program, TranscodeError>(placed));
    assert(seq![next][0] == next);
    assert(encode_from(marked, seq![next], for_2x, dual, engine_rate) == Ok::<Program, TranscodeError>(
        placed,
    ));
    lemma_apply_settles(marked, next, for_2x, dual, engine_rate);
    lemma_apply_fits(marked, next, for_2x, dual, engine_rate);
    lemma_encode_from_keeps(placed, after, for_2x, dual, engine_rate, first);
    lemma_encode_from_fits(placed, after, for_2x, dual, engine_rate);
    let done = encode_from(placed, after, for_2x, dual, engine_rate)->Ok_0;
    let image = finish(done);
    let rows = done.banks.push(done.current);
    let (bank, addr) = done.loop_data->0;
    let from = addr - BANK_SIZE;
    assert(image.banks[bank - 1].len() >= rows[bank - 1].len());
    let old_row = rows[bank - 1];
    let new_row = image.banks[bank - 1];
    assert forall|k: int| 0 <= k < old_row.len() implies #[trigger] new_row[k] == old_row[k] by {}
    assert(image.banks[bank - 1].subrange(from, from + first.len()) =~= rows[bank - 1].subrange(
        from,
        from + first.len(),
    ));
}

/// Where the loop marker is the last command of a log, the loop target of
/// its program is the loop opcode that closes it.
pub proof fn lemma_loop_target_at_end(
    before: Seq<VgmCommand>,
    for_2x: bool,
    dual: bool,
    engine_rate: u32,
)
    requires
        encode(before + seq![VgmCommand::HitLoopOffset], for_2x, dual, engine_rate) is Ok,
    ensures
        ({
            let image = encode(
                before + seq![VgmCommand::HitLoopOffset],
                for_2x,
                dual,
                engine_rate,
            )->Ok_0;
            &&& image.loop_data is Some
            &&& stands_at(image.banks, image.loop_data->0, seq![LOOP_CMD])
        }),
{
    let start = empty_program();
    let marker = seq![VgmCommand::HitLoopOffset];
    lemma_encode_from_concat(start, before, marker, for_2x, dual, engine_rate);
    lemma_encode_from_fits(start, before, for_2x, dual, engine_rate);
    let at_marker = encode_from(start, before, for_2x, dual, engine_rate)->Ok_0;
    let marked = Program { loop_pending: true, ..at_marker };
    let none = Seq::<VgmCommand>::empty();
    assert(marker.drop_first() =~= none);
    assert(encode_from(marked, none, for_2x, dual, engine_rate) == Ok::<Program, TranscodeError>(marked));
    assert(marker[0] == VgmCommand::HitLoopOffset);
    assert(encode_from(at_marker, marker, for_2x, dual, engine_rate) == Ok::<Program, TranscodeError>(marked));
    let image = finish(marked);
    let (bank, addr) = image.loop_data->0;
    assert(image.banks[bank - 1].subrange(addr - BANK_SIZE, addr - BANK_SIZE + 1) =~= seq![
        LOOP_CMD,
    ]);
}

/// In the program of a log whose command stream holds the loop marker
/// before its last command, the loop target is where the first instruction
/// of the command behind the marker stands, and the program ends in the loop
/// opcode.
pub proof fn lemma_log_loop_target(data: Seq<u8>, at: int, for_2x: bool, engine_rate: u32)
    requires
        0 <= at < commands(data).len() - 1,
        commands(data)[at] is HitLoopOffset,
        engine_data(data, for_2x, engine_rate) is Ok,
    ensures
        ({
            let image = engine_data(data, for_2x, engine_rate)->Ok_0;
            &&& image.loop_data is Some
            &&& stands_at(
                image.banks,
                image.loop_data->0,
                first_instruction(commands(data)[at + 1], for_2x, engine_rate),
            )
            &&& image.banks.last().last() == LOOP_CMD
        }),
{
    let all = commands(data);
    let before = all.take(at);
    let next = all[at + 1];
    let after = all.skip(at + 2);
    lemma_marker_is_alone(
        data,
        Cursor { at: start_offset_of(data), looped: false, halted: false },
    );
    assert(!(next is HitLoopOffset)) by {
        assert(all[at] is HitLoopOffset);
    }
    assert forall|i: int| 0 <= i < after.len() implies !(#[trigger] after[i] is HitLoopOffset) by {
        assert(after[i] == all[at + 2 + i]);
        assert(all[at] is HitLoopOffset);
    }
    assert(all =~= before + seq![VgmCommand::HitLoopOffset, next] + after);
    lemma_loop_target(before, next, after, for_2x, dual_of(data), engine_rate);
}

/// The instructions of a wait of `frames` frames, one behind the other.
pub open spec fn wait_bytes(frames: int) -> Seq<u8>
    decreases frames,
{
    if frames > MAX_WAIT {
        seq![WAIT_CMD, 0xFFu8] + wait_bytes(frames - MAX_WAIT)
    } else {
        seq![WAIT_CMD, frames as u8]
    }
}

/// The instructions that a command is turned into, one behind the other.
pub open spec fn command_bytes(command: VgmCommand, for_2x: bool, engine_rate: u32) -> Seq<u8> {
    match command {
        VgmCommand::Wait(samples) => wait_bytes(frames_of_samples(samples as u32, engine_rate)),
        VgmCommand::DataBlock(_, bytes) => seq![WRITE_HRAM_CMD, SYNC_ADDRESS, bytes[0]],
        VgmCommand::Write(second, addr, value) => write_instruction(second == for_2x, addr, value),
        _ => Seq::empty(),
    }
}

/// The instructions that a list of commands is turned into, in the order
/// of the commands.
pub open spec fn all_bytes(commands: Seq<VgmCommand>, for_2x: bool, engine_rate: u32) -> Seq<u8>
    decreases commands.len(),
{
    if commands.len() == 0 {
        Seq::empty()
    } else {
        command_bytes(commands[0], for_2x, engine_rate) + all_bytes(
            commands.drop_first(),
            for_2x,
            engine_rate,
        )
    }
}

/// What banks hold without the opcodes that close them, one bank behind
/// the other.
pub open spec fn bodies(banks: Seq<Seq<u8>>) -> Seq<u8>
    decreases banks.len(),
{
    if banks.len() == 0 {
        Seq::empty()
    } else {
        bodies(banks.drop_last()) + banks.last().drop_last()
    }
}

/// The instructions of a program that is being written.
pub open spec fn written_bytes(p: Program) -> Seq<u8> {
    bodies(p.banks) + p.current
}

proof fn lemma_emit_appends(p: Program, instr: Seq<u8>)
    requires
        emit(p, instr) is Ok,
    ensures
        written_bytes(emit(p, instr)->Ok_0) == written_bytes(p) + instr,
{
    let q = emit(p, instr)->Ok_0;
    if p.current.len() + instr.len() > BANK_CAPACITY {
        let sealed = seal(p);
        assert(sealed.banks.drop_last() =~= p.banks);
        assert(sealed.banks.last().drop_last() =~= p.current);
        assert(written_bytes(q) =~= written_bytes(p) + instr);
    } else {
        assert(written_bytes(q) =~= written_bytes(p) + instr);
    }
}

proof fn lemma_emit_wait_appends(p: Program, frames: int)
    requires
        emit_wait(p, frames) is Ok,
    ensures
        written_bytes(emit_wait(p, frames)->Ok_0) == written_bytes(p) + wait_bytes(frames),
    decreases frames,
{
    if frames > MAX_WAIT {
        let chunk = seq![WAIT_CMD, 0xFFu8];
        lemma_emit_appends(p, chunk);
        let next = emit(p, chunk)->Ok_0;
        lemma_emit_wait_appends(next, frames - MAX_WAIT);
        assert(written_bytes(emit_wait(p, frames)->Ok_0) =~= written_bytes(p) + wait_bytes(frames));
    } else {
        lemma_emit_appends(p, seq![WAIT_CMD, frames as u8]);
    }
}

proof fn lemma_apply_appends(
    p: Program,
    command: VgmCommand,
    for_2x: bool,
    dual: bool,
    engine_rate: u32,
)
    requires
        apply(p, command, for_2x, dual, engine_rate) is Ok,
    ensures
        written_bytes(apply(p, command, for_2x, dual, engine_rate)->Ok_0) == written_bytes(p)
            + command_bytes(command, for_2x, engine_rate),
{
    match command {
        VgmCommand::HitLoopOffset => {
            assert(written_bytes(p) + Seq::<u8>::empty() =~= written_bytes(p));
        },
        VgmCommand::Wait(samples) => {
            lemma_emit_wait_appends(p, frames_of_samples(samples as u32, engine_rate));
        },
        VgmCommand::DataBlock(_, bytes) => {
            lemma_emit_appends(p, seq![WRITE_HRAM_CMD, SYNC_ADDRESS, bytes[0]]);
        },
        VgmCommand::Write(second, addr, value) => {
            lemma_emit_appends(p, write_instruction(second == for_2x, addr, value));
        },
        _ => {},
    }
}

proof fn lemma_encode_from_appends(
    p: Program,
    commands: Seq<VgmCommand>,
    for_2x: bool,
    dual: bool,
    engine_rate: u32,
)
    requires
        encode_from(p, commands, for_2x, dual, engine_rate) is Ok,
    ensures
        written_bytes(encode_from(p, commands, for_2x, dual, engine_rate)->Ok_0) == written_bytes(p)
            + all_bytes(commands, for_2x, engine_rate),
    decreases commands.len(),
{
    if commands.len() == 0 {
        assert(written_bytes(p) + Seq::<u8>::empty() =~= written_bytes(p));
    } else {
        lemma_apply_appends(p, commands[0], for_2x, dual, engine_rate);
        let next = apply(p, commands[0], for_2x, dual, engine_rate)->Ok_0;
        lemma_encode_from_appends(next, commands.drop_first(), for_2x, dual, engine_rate);
        assert(written_bytes(encode_from(p, commands, for_2x, dual, engine_rate)->Ok_0)
            =~= written_bytes(p) + all_bytes(commands, for_2x, engine_rate));
    }
}

/// A program is the instructions of its log, command by command in their
/// order, cut into banks: without the opcodes that close the banks, what
/// the banks hold is what the commands are turned into, nothing left out,
/// nothing added and nothing moved. A write that is not meant for the chip
/// of the program still has its instruction, the inert write.
pub proof fn lemma_program_keeps_order(
    commands: Seq<VgmCommand>,
    for_2x: bool,
    dual: bool,
    engine_rate: u32,
)
    requires
        encode(commands, for_2x, dual, engine_rate) is Ok,
    ensures
        bodies(encode(commands, for_2x, dual, engine_rate)->Ok_0.banks) == all_bytes(
            commands,
            for_2x,
            engine_rate,
        ),
{
    let start = empty_program();
    lemma_encode_from_appends(start, commands, for_2x, dual, engine_rate);
    let done = encode_from(start, commands, for_2x, dual, engine_rate)->Ok_0;
    let image = finish(done);
    assert(image.banks.drop_last() =~= done.banks);
    assert(image.banks.last().drop_last() =~= done.current);
    assert(bodies(start.banks) =~= Seq::<u8>::empty());
    assert(written_bytes(start) =~= Seq::<u8>::empty());
    assert(bodies(image.banks) =~= all_bytes(commands, for_2x, engine_rate));
}

} // verus!
