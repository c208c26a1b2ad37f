pub mod audio;
pub mod frame_times;
pub mod gbs;
pub mod lsdj;
pub mod m3u_searcher;
pub mod render_options;
pub mod vgm;

use crate::gameboy::link::LinkSide;
use crate::text::decimal_string;
use crate::text::decimal_text;
use audio::fade;
use audio::faded;
use audio::mix;
use audio::mixed;
use frame_times::average_rate;
use frame_times::instantaneous_rate;
use frame_times::pushed;
use frame_times::window_capacity;
use frame_times::FrameTimes;
use lsdj::SyncRole;
use render_options::RenderInput;
use render_options::RendererOptions;
use render_options::StopCondition;
use vstd::prelude::*;
use vstd::string::StringExecFns;

verus! {

/// Number of frame times that the frame rate is averaged over.
pub const FRAME_WINDOW: usize = 600;

/// Nanoseconds from the start of a render during which the start button
/// of a tracker is held down.
pub const START_HOLD_NANOS: u64 = 500_000_000;

/// Where a song stands: the row that is played, and whether the song has
/// ended.
#[derive(Copy, Clone, Debug, PartialEq, Eq, Structural)]
pub struct SongPosition {
    pub row: u8,
    pub end: bool,
}

impl Default for SongPosition {
    fn default() -> (position: Self)
        ensures
            position == (SongPosition { row: 0, end: false }),
    {
        SongPosition { row: 0, end: false }
    }
}

impl SongPosition {
    /// The position as text: the row in decimal digits, or `end`.
    pub open spec fn text(self) -> Seq<char> {
        if self.end {
            seq!['e', 'n', 'd']
        } else {
            decimal_text(self.row as nat)
        }
    }

    /// Writes the position out.
    pub fn to_string(&self) -> (text: String)
        ensures
            text@ == self.text(),
    {
        if self.end {
            proof {
                reveal_strlit("end");
            }
            let text = String::from_str("end");
            assert(text@ =~= seq!['e', 'n', 'd']);
            text
        } else {
            decimal_string(self.row as u64)
        }
    }
}

/// One thing that is done to a machine before a render begins.
#[derive(Copy, Clone, Debug, PartialEq, Eq, Structural)]
pub enum SetupStep {
    /// The machine is given the sample rate, its joypad is freed of
    /// bouncing and of the ban on opposite directions, and it is told not to
    /// draw its screen.
    Configure(LinkSide),
    /// The song file is read and loaded, and the track is chosen.
    LoadSongFile(LinkSide),
    /// The tracker and its save file are read and loaded.
    LoadCartridge(LinkSide),
    /// The machine runs until its boot ROM has finished.
    Boot(LinkSide),
    /// The machine is left alone for five seconds, then the macro that
    /// loads the track with this index is played, with this part in keeping
    /// time.
    SelectTrack(LinkSide, u8, SyncRole),
    /// The writes of the machine are watched for the end of the song.
    WatchForEnd(LinkSide),
    /// The log is turned into a song file for this machine, which is
    /// loaded.
    LoadLog(LinkSide),
    /// All buttons are let go, the machine is joined to the picture, and
    /// the sound that it has made so far is thrown away.
    Settle(LinkSide),
    /// The machine runs for one frame.
    RunFrame(LinkSide),
    /// The two machines are joined by a link cable.
    Link,
}

/// The numbers of the tracks of the two machines and the parts that they
/// take in keeping time, for a plan.
pub struct Tracks {
    pub first: u8,
    pub second: u8,
    pub first_role: SyncRole,
    pub second_role: SyncRole,
}

/// The steps that make the machines ready for a song file.
pub open spec fn song_file_plan() -> Seq<SetupStep> {
    seq![
        SetupStep::Configure(LinkSide::First),
        SetupStep::LoadSongFile(LinkSide::First),
        SetupStep::Settle(LinkSide::First),
    ]
}

/// The steps that make the machine ready for one tracker.
pub open spec fn tracker_plan(tracks: Tracks) -> Seq<SetupStep> {
    seq![
        SetupStep::Configure(LinkSide::First),
        SetupStep::LoadCartridge(LinkSide::First),
        SetupStep::Boot(LinkSide::First),
        SetupStep::SelectTrack(LinkSide::First, tracks.first, tracks.first_role),
        SetupStep::WatchForEnd(LinkSide::First),
        SetupStep::Settle(LinkSide::First),
    ]
}

/// The steps that make the machines ready for two linked trackers: both
/// are loaded, booted and brought to their tracks, each runs a frame by
/// itself, and only then are they linked, so that neither sees the other
/// while it starts up.
pub open spec fn linked_plan(tracks: Tracks) -> Seq<SetupStep> {
    seq![
        SetupStep::Configure(LinkSide::First),
        SetupStep::Configure(LinkSide::Second),
        SetupStep::LoadCartridge(LinkSide::First),
        SetupStep::LoadCartridge(LinkSide::Second),
        SetupStep::Boot(LinkSide::First),
        SetupStep::Boot(LinkSide::Second),
        SetupStep::SelectTrack(LinkSide::First, tracks.first, tracks.first_role),
        SetupStep::SelectTrack(LinkSide::Second, tracks.second, tracks.second_role),
        SetupStep::WatchForEnd(LinkSide::First),
        SetupStep::Settle(LinkSide::First),
        SetupStep::Settle(LinkSide::Second),
        SetupStep::RunFrame(LinkSide::First),
        SetupStep::RunFrame(LinkSide::Second),
        SetupStep::Link,
    ]
}

/// The steps that make the machines ready for a log: one machine for each
/// chip that the log drives.
pub open spec fn log_plan(dual: bool) -> Seq<SetupStep> {
    if dual {
        seq![
            SetupStep::Configure(LinkSide::First),
            SetupStep::LoadLog(LinkSide::First),
            SetupStep::Configure(LinkSide::Second),
            SetupStep::LoadLog(LinkSide::Second),
            SetupStep::Settle(LinkSide::First),
            SetupStep::Settle(LinkSide::Second),
        ]
    } else {
        seq![
            SetupStep::Configure(LinkSide::First),
            SetupStep::LoadLog(LinkSide::First),
            SetupStep::Settle(LinkSide::First),
        ]
    }
}

/// Why a render cannot begin.
#[derive(Copy, Clone, Debug, PartialEq, Eq, Structural)]
pub enum SetupError {
    /// Nothing to render was named.
    NoInput,
    /// The render is to stop after a number of loops, but the position in
    /// the song cannot be watched for this kind of input.
    LoopsUnsupported,
    /// No channel would be drawn.
    AllChannelsHidden,
}

/// What a render is doing.
#[derive(Copy, Clone, Debug, PartialEq, Eq, Structural)]
pub enum Phase {
    /// The machines are being set up.
    Priming,
    /// Frames are made at full volume.
    Playing,
    /// Frames are made while the volume goes down.
    Fading,
    /// No frame is made any more.
    Stopped,
}

/// The state of a render.
pub struct Session {
    pub stop_condition: StopCondition,
    /// Length of the fadeout in frames.
    pub fadeout_length: u64,
    /// Whether the position in the song is watched.
    pub tracks_position: bool,
    /// Whether the render has begun.
    pub started: bool,
    /// Number of frames made.
    pub cur_frame: nat,
    /// Number of times the song has begun anew.
    pub loop_count: nat,
    /// Index of the frame at which the song first began anew, counted from
    /// 0.
    pub loop_duration: Option<nat>,
    /// Frames of the fadeout that are left, once it has begun.
    pub fadeout_timer: Option<u64>,
    /// Number of frames that the whole render is expected to have.
    pub expected_duration: Option<usize>,
    /// The position seen last.
    pub last_position: SongPosition,
    /// Nanoseconds from the start of the render to the end of the last
    /// frame.
    pub frame_timestamp: u64,
}

/// `value` where it fits a `usize`.
pub open spec fn fitting(value: int) -> Option<usize> {
    if 0 <= value <= usize::MAX {
        Some(value as usize)
    } else {
        None
    }
}

/// Whether the stop condition is met.
pub open spec fn stop_reached(s: Session) -> bool {
    match s.stop_condition {
        StopCondition::Loops(loops) => s.loop_count >= loops,
        StopCondition::Frames(frames) => s.cur_frame >= frames,
    }
}

/// The expected length after a step: once known it stays; else it is the
/// frames to render and the fadeout, or, for loops, the fadeout and as many
/// times the index of the frame at which the first loop was seen, once one
/// was seen. A length that does not fit stays unknown.
pub open spec fn next_expected(s: Session) -> Option<usize> {
    if s.expected_duration is Some {
        s.expected_duration
    } else {
        match s.stop_condition {
            StopCondition::Frames(frames) => fitting(frames + s.fadeout_length),
            StopCondition::Loops(loops) => match s.loop_duration {
                Some(duration) => fitting(s.fadeout_length + duration * loops),
                None => None,
            },
        }
    }
}

/// The countdown after a step: once begun it goes down by one to 0 and
/// stays there; it begins, at the length of the fadeout, when the song has
/// ended or the stop condition is met.
pub open spec fn next_fadeout(s: Session) -> Option<u64> {
    match s.fadeout_timer {
        Some(left) => if left == 0 {
            Some(0)
        } else {
            Some((left - 1) as u64)
        },
        None => if s.last_position.end || stop_reached(s) {
            Some(s.fadeout_length)
        } else {
            None
        },
    }
}

/// The position that counts: none where positions are not watched.
pub open spec fn observed(s: Session, position: Option<SongPosition>) -> Option<SongPosition> {
    if s.tracks_position {
        position
    } else {
        None
    }
}

/// Whether one more frame is made in state `s`.
pub open spec fn continues(s: Session) -> bool {
    next_fadeout(s) != Some(0u64)
}

/// The state after a step that ends `elapsed` nanoseconds into the render
/// and sees `position`. A position whose row is less than that of the
/// position before it is a loop.
pub open spec fn stepped(s: Session, elapsed: u64, position: Option<SongPosition>) -> Session {
    let timed = Session {
        expected_duration: next_expected(s),
        fadeout_timer: next_fadeout(s),
        frame_timestamp: elapsed,
        ..s
    };
    if !continues(s) {
        timed
    } else {
        let counted = Session { cur_frame: s.cur_frame + 1, ..timed };
        match observed(s, position) {
            None => counted,
            Some(seen) => if seen.row < s.last_position.row {
                Session {
                    loop_count: s.loop_count + 1,
                    loop_duration: if s.loop_duration is None {
                        Some(s.cur_frame)
                    } else {
                        s.loop_duration
                    },
                    last_position: seen,
                    ..counted
                }
            } else {
                Session { last_position: seen, ..counted }
            },
        }
    }
}

/// The state after one step for each of `events`, which hold the time at
/// which a step ends and the position that it sees.
pub open spec fn run(s: Session, events: Seq<(u64, Option<SongPosition>)>) -> Session
    decreases events.len(),
{
    if events.len() == 0 {
        s
    } else {
        run(stepped(s, events[0].0, events[0].1), events.drop_first())
    }
}

/// The phase that the state `s` is in.
pub open spec fn phase_of(s: Session) -> Phase {
    if !s.started {
        Phase::Priming
    } else {
        match s.fadeout_timer {
            None => Phase::Playing,
            Some(left) => if left == 0 {
                Phase::Stopped
            } else {
                Phase::Fading
            },
        }
    }
}

/// A fadeout begins with the first step at which the song has ended or the
/// stop condition is met, whichever it is, and it begins at its full length.
pub proof fn lemma_fadeout_begins(s: Session, elapsed: u64, position: Option<SongPosition>)
    requires
        s.fadeout_timer is None,
    ensures
        stepped(s, elapsed, position).fadeout_timer == if s.last_position.end || stop_reached(s) {
            Some(s.fadeout_length)
        } else {
            None
        },
{
}

/// Once a fadeout has begun, every step takes one frame off the countdown
/// until it is 0, whatever the steps see: with `left` frames on the
/// countdown it never goes up, it is 0 after `left` steps and not before.
pub proof fn lemma_fadeout_counts_down(s: Session, events: Seq<(u64, Option<SongPosition>)>)
    requires
        s.fadeout_timer is Some,
    ensures
        run(s, events).fadeout_timer == Some(
            if s.fadeout_timer->0 >= events.len() {
                (s.fadeout_timer->0 - events.len()) as u64
            } else {
                0u64
            },
        ),
        run(s, events).fadeout_timer->0 <= s.fadeout_timer->0,
        run(s, events).fadeout_length == s.fadeout_length,
    decreases events.len(),
{
    if events.len() > 0 {
        let next = stepped(s, events[0].0, events[0].1);
        lemma_fadeout_counts_down(next, events.drop_first());
    }
}

/// A render: what it was told, and how far it has come.
pub struct Renderer {
    options: RendererOptions,
    vgm_2x: bool,
    started: bool,
    cur_frame: u64,
    frame_timestamp: u64,
    frame_times: FrameTimes,
    last_position: SongPosition,
    loop_count: u64,
    loop_duration: Option<u64>,
    fadeout_timer: Option<u64>,
    expected_duration: Option<usize>,
}

impl View for Renderer {
    type V = Session;

    closed spec fn view(&self) -> Session {
        Session {
            stop_condition: self.options.stop_condition,
            fadeout_length: self.options.fadeout_length,
            tracks_position: self.options.input.has_position(),
            started: self.started,
            cur_frame: self.cur_frame as nat,
            loop_count: self.loop_count as nat,
            loop_duration: match self.loop_duration {
                Some(d) => Some(d as nat),
                None => None,
            },
            fadeout_timer: self.fadeout_timer,
            expected_duration: self.expected_duration,
            last_position: self.last_position,
            frame_timestamp: self.frame_timestamp,
        }
    }
}

impl Renderer {
    /// What holds of every render that `new` has made, whatever was done
    /// with it: no more loops than frames are counted, and the window of
    /// frame times has its size.
    pub closed spec fn wf(&self) -> bool {
        &&& self.loop_count <= self.cur_frame
        &&& window_capacity(self.frame_times) == FRAME_WINDOW
    }

    /// What the render was told.
    pub closed spec fn options(&self) -> RendererOptions {
        self.options
    }

    /// The times of the latest frames, oldest first.
    pub closed spec fn frame_times(&self) -> Seq<u64> {
        self.frame_times@
    }

    /// Whether the log that is rendered drives two chips.
    pub closed spec fn dual_log(&self) -> bool {
        self.vgm_2x
    }

    /// A render that has not begun.
    pub fn new(options: RendererOptions) -> (renderer: Self)
        ensures
            renderer.wf(),
            renderer.options() == options,
            !renderer.dual_log(),
            renderer.frame_times() == Seq::<u64>::empty(),
            renderer@ == (Session {
                stop_condition: options.stop_condition,
                fadeout_length: options.fadeout_length,
                tracks_position: options.input.has_position(),
                started: false,
                cur_frame: 0,
                loop_count: 0,
                loop_duration: None,
                fadeout_timer: None,
                expected_duration: None,
                last_position: SongPosition { row: 0, end: false },
                frame_timestamp: 0,
            }),
    {
        Renderer {
            options,
            vgm_2x: false,
            started: false,
            cur_frame: 0,
            frame_timestamp: 0,
            frame_times: FrameTimes::new(FRAME_WINDOW),
            last_position: SongPosition { row: 0, end: false },
            loop_count: 0,
            loop_duration: None,
            fadeout_timer: None,
            expected_duration: None,
        }
    }

    /// Tells the render whether the log that it renders drives two chips.
    pub fn set_vgm_2x(&mut self, dual: bool)
        ensures
            final(self).wf() == old(self).wf(),
            final(self).dual_log() == dual,
            final(self).options() == old(self).options(),
            final(self).frame_times() == old(self).frame_times(),
            final(self)@ == old(self)@,
    {
        self.vgm_2x = dual;
    }

    /// Whether two machines run: for two linked trackers, and for a log
    /// that drives two chips.
    pub open spec fn two_machines(&self) -> bool {
        self.options().input is LSDj2x || (self.options().input is VGM && self.dual_log())
    }

    /// Whether two machines run.
    pub fn is_2x(&self) -> (dual: bool)
        ensures
            dual == self.two_machines(),
    {
        match &self.options.input {
            RenderInput::LSDj2x(_, _, _, _) => true,
            RenderInput::VGM(_, _, _) => self.vgm_2x,
            _ => false,
        }
    }

    /// Whether the two machines are joined by a link cable. Each is run for
    /// one frame before they are joined, so that neither sees the other while
    /// it starts up.
    pub fn links_machines(&self) -> (linked: bool)
        ensures
            linked == (self.options().input is LSDj2x),
    {
        match &self.options.input {
            RenderInput::LSDj2x(_, _, _, _) => true,
            _ => false,
        }
    }

    /// The parts that the trackers take in keeping time with each other:
    /// that of the first machine, then that of the second.
    pub fn sync_roles(&self) -> (roles: (SyncRole, SyncRole))
        ensures
            roles == if !self.options().auto_lsdj_sync {
                (SyncRole::Ignore, SyncRole::Ignore)
            } else if self.options().input is LSDj2x {
                (SyncRole::Primary, SyncRole::Secondary)
            } else {
                (SyncRole::NoSync, SyncRole::Ignore)
            },
    {
        if !self.options.auto_lsdj_sync {
            (SyncRole::Ignore, SyncRole::Ignore)
        } else {
            match &self.options.input {
                RenderInput::LSDj2x(_, _, _, _) => (SyncRole::Primary, SyncRole::Secondary),
                _ => (SyncRole::NoSync, SyncRole::Ignore),
            }
        }
    }

    /// The numbers of the tracks and the parts in keeping time.
    pub open spec fn tracks(&self) -> Tracks {
        let roles = if !self.options().auto_lsdj_sync {
            (SyncRole::Ignore, SyncRole::Ignore)
        } else if self.options().input is LSDj2x {
            (SyncRole::Primary, SyncRole::Secondary)
        } else {
            (SyncRole::NoSync, SyncRole::Ignore)
        };
        Tracks {
            first: self.options().track_index,
            second: self.options().track_index_2x,
            first_role: roles.0,
            second_role: roles.1,
        }
    }

    /// What is done to the machines before the render begins, in order.
    pub open spec fn plan(&self) -> Seq<SetupStep> {
        match self.options().input {
            RenderInput::Unset => Seq::empty(),
            RenderInput::GBS(_) => song_file_plan(),
            RenderInput::LSDj(_, _) => tracker_plan(self.tracks()),
            RenderInput::LSDj2x(_, _, _, _) => linked_plan(self.tracks()),
            RenderInput::VGM(_, _, _) => log_plan(self.dual_log()),
        }
    }

    /// The steps that make the machines ready. For a log, `set_vgm_2x` has
    /// to have told before whether it drives two chips.
    pub fn setup_plan(&self) -> (steps: Vec<SetupStep>)
        ensures
            steps@ == self.plan(),
    {
        let (first_role, second_role) = self.sync_roles();
        let first = self.options.track_index;
        let second = self.options.track_index_2x;
        let steps = match &self.options.input {
            RenderInput::Unset => Vec::new(),
            RenderInput::GBS(_) => vec![
                SetupStep::Configure(LinkSide::First),
                SetupStep::LoadSongFile(LinkSide::First),
                SetupStep::Settle(LinkSide::First),
            ],
            RenderInput::LSDj(_, _) => vec![
                SetupStep::Configure(LinkSide::First),
                SetupStep::LoadCartridge(LinkSide::First),
                SetupStep::Boot(LinkSide::First),
                SetupStep::SelectTrack(LinkSide::First, first, first_role),
                SetupStep::WatchForEnd(LinkSide::First),
                SetupStep::Settle(LinkSide::First),
            ],
            RenderInput::LSDj2x(_, _, _, _) => vec![
                SetupStep::Configure(LinkSide::First),
                SetupStep::Configure(LinkSide::Second),
                SetupStep::LoadCartridge(LinkSide::First),
                SetupStep::LoadCartridge(LinkSide::Second),
                SetupStep::Boot(LinkSide::First),
                SetupStep::Boot(LinkSide::Second),
                SetupStep::SelectTrack(LinkSide::First, first, first_role),
                SetupStep::SelectTrack(LinkSide::Second, second, second_role),
                SetupStep::WatchForEnd(LinkSide::First),
                SetupStep::Settle(LinkSide::First),
                SetupStep::Settle(LinkSide::Second),
                SetupStep::RunFrame(LinkSide::First),
                SetupStep::RunFrame(LinkSide::Second),
                SetupStep::Link,
            ],
            RenderInput::VGM(_, _, _) => {
                if self.vgm_2x {
                    vec![
                        SetupStep::Configure(LinkSide::First),
                        SetupStep::LoadLog(LinkSide::First),
                        SetupStep::Configure(LinkSide::Second),
                        SetupStep::LoadLog(LinkSide::Second),
                        SetupStep::Settle(LinkSide::First),
                        SetupStep::Settle(LinkSide::Second),
                    ]
                } else {
                    vec![
                        SetupStep::Configure(LinkSide::First),
                        SetupStep::LoadLog(LinkSide::First),
                        SetupStep::Settle(LinkSide::First),
                    ]
                }
            },
        };
        assert(steps@ =~= self.plan());
        steps
    }

    /// Whether the channels of the second chip are left out of the
    /// picture: they are where only one machine runs.
    pub fn hides_second_chip(&self) -> (hidden: bool)
        ensures
            hidden == !self.two_machines(),
    {
        !self.is_2x()
    }

    /// Why the render cannot begin, if it cannot. `channels_hidden` tells
    /// of each channel whether it is left out of the picture.
    pub open spec fn setup_error(&self, channels_hidden: Seq<bool>) -> Option<SetupError> {
        if self.options().input is Unset {
            Some(SetupError::NoInput)
        } else if self.options().stop_condition is Loops && !self.options().input.has_position() {
            Some(SetupError::LoopsUnsupported)
        } else if forall|i: int| 0 <= i < channels_hidden.len() ==> channels_hidden[i] {
            Some(SetupError::AllChannelsHidden)
        } else {
            None
        }
    }

    /// Begins the render: the state is as new, but for what the render was
    /// told. Where the render cannot begin nothing changes.
    pub fn start_encoding(&mut self, channels_hidden: &[bool]) -> (res: Result<(), SetupError>)
        requires
            old(self).wf(),
        ensures
            final(self).wf(),
            final(self).options() == old(self).options(),
            final(self).dual_log() == old(self).dual_log(),
            match res {
                Ok(()) => {
                    &&& old(self).setup_error(channels_hidden@) is None
                    &&& final(self).frame_times() == Seq::<u64>::empty()
                    &&& final(self)@ == (Session {
                        started: true,
                        cur_frame: 0,
                        loop_count: 0,
                        loop_duration: None,
                        fadeout_timer: None,
                        expected_duration: None,
                        last_position: SongPosition { row: 0, end: false },
                        frame_timestamp: 0,
                        ..old(self)@
                    })
                },
                Err(e) => {
                    &&& old(self).setup_error(channels_hidden@) == Some(e)
                    &&& final(self)@ == old(self)@
                    &&& final(self).frame_times() == old(self).frame_times()
                },
            },
    {
        match &self.options.input {
            RenderInput::Unset => {
                return Err(SetupError::NoInput);
            },
            _ => {},
        }
        match self.options.stop_condition {
            StopCondition::Loops(_) => {
                if !self.options.input.tracks_position() {
                    return Err(SetupError::LoopsUnsupported);
                }
            },
            StopCondition::Frames(_) => {},
        }
        let mut i: usize = 0;
        while i < channels_hidden.len() && channels_hidden[i]
            invariant
                i <= channels_hidden@.len(),
                forall|j: int| 0 <= j < i ==> channels_hidden@[j],
            decreases channels_hidden@.len() - i,
        {
            i = i + 1;
        }
        if i == channels_hidden.len() {
            return Err(SetupError::AllChannelsHidden);
        }
        assert(!channels_hidden@[i as int]);
        self.loop_count = 0;
        self.cur_frame = 0;
        self.frame_timestamp = 0;
        self.frame_times.clear();
        self.last_position = SongPosition { row: 0, end: false };
        self.loop_duration = None;
        self.fadeout_timer = None;
        self.expected_duration = None;
        self.started = true;
        Ok(())
    }

    /// Whether the start button of the first machine is held down during
    /// the next frame: for a tracker, in the first half second of the
    /// render.
    pub fn holds_start(&self) -> (held: bool)
        ensures
            held == (self@.frame_timestamp < START_HOLD_NANOS && self@.tracks_position),
    {
        self.frame_timestamp < START_HOLD_NANOS && self.options.input.tracks_position()
    }

    /// The samples of the one machine as they go into the file.
    pub fn adjust_audio(&self, audio: Vec<i16>) -> (out: Vec<i16>)
        ensures
            out@ == faded(audio@, self@.fadeout_length, self@.fadeout_timer),
    {
        fade(audio, self.options.fadeout_length, self.fadeout_timer)
    }

    /// The samples of the two machines as they go into the file.
    pub fn mix_audio(&self, audio: &[i16], audio_2x: &[i16]) -> (out: Vec<i16>)
        ensures
            out@ == mixed(audio@, audio_2x@, self@.fadeout_length, self@.fadeout_timer),
    {
        mix(audio, audio_2x, self.options.fadeout_length, self.fadeout_timer)
    }

    fn next_expected_duration(&self) -> (expected: Option<usize>)
        ensures
            expected == next_expected(self@),
    {
        if self.expected_duration.is_some() {
            return self.expected_duration;
        }
        match self.options.stop_condition {
            StopCondition::Frames(stop_frames) => {
                let sum: u128 = stop_frames as u128 + self.options.fadeout_length as u128;
                if sum <= usize::MAX as u128 {
                    Some(sum as usize)
                } else {
                    None
                }
            },
            StopCondition::Loops(stop_loop_count) => {
                match self.loop_duration {
                    Some(d) => {
                        assert(d * stop_loop_count <= 0xFFFF_FFFF_FFFF_FFFF * 0xFFFF_FFFF_FFFF_FFFF)
                            by (nonlinear_arith)
                            requires
                                0 <= d <= 0xFFFF_FFFF_FFFF_FFFF,
                                0 <= stop_loop_count <= 0xFFFF_FFFF_FFFF_FFFF,
                        ;
                        let sum: u128 = self.options.fadeout_length as u128 + (d as u128) * (
                        stop_loop_count as u128);
                        if sum <= usize::MAX as u128 {
                            Some(sum as usize)
                        } else {
                            None
                        }
                    },
                    None => None,
                }
            },
        }
    }

    fn next_fadeout_timer(&self) -> (timer: Option<u64>)
        ensures
            timer == next_fadeout(self@),
    {
        match self.fadeout_timer {
            Some(t) => {
                if t == 0 {
                    Some(0)
                } else {
                    Some(t - 1)
                }
            },
            None => {
                if self.last_position.end {
                    return Some(self.options.fadeout_length);
                }
                match self.options.stop_condition {
                    StopCondition::Loops(stop_loop_count) => {
                        if self.loop_count as u128 >= stop_loop_count as u128 {
                            Some(self.options.fadeout_length)
                        } else {
                            None
                        }
                    },
                    StopCondition::Frames(stop_frames) => {
                        if self.cur_frame >= stop_frames {
                            Some(self.options.fadeout_length)
                        } else {
                            None
                        }
                    },
                }
            },
        }
    }

    /// Ends a frame that has been made and handed to the encoder:
    /// `elapsed_nanos` is the time from the start of the render, `position`
    /// the place in the song that the machine is at. Returns whether one more
    /// frame is to be made. The number of frames has to stay below the end of
    /// its range.
    pub fn step(&mut self, elapsed_nanos: u64, position: Option<SongPosition>) -> (more: bool)
        requires
            old(self).wf(),
            old(self)@.cur_frame < u64::MAX,
        ensures
            final(self).wf(),
            more == continues(old(self)@),
            final(self)@ == stepped(old(self)@, elapsed_nanos, position),
            final(self).frame_times() == pushed(
                old(self).frame_times(),
                FRAME_WINDOW as nat,
                if elapsed_nanos >= old(self)@.frame_timestamp {
                    (elapsed_nanos - old(self)@.frame_timestamp) as u64
                } else {
                    0u64
                },
            ),
            final(self).options() == old(self).options(),
            final(self).dual_log() == old(self).dual_log(),
    {
        let frame_time = if elapsed_nanos >= self.frame_timestamp {
            elapsed_nanos - self.frame_timestamp
        } else {
            0
        };
        self.frame_timestamp = elapsed_nanos;
        self.frame_times.push(frame_time);
        let expected = self.next_expected_duration();
        let timer = self.next_fadeout_timer();
        self.expected_duration = expected;
        self.fadeout_timer = timer;
        match timer {
            Some(t) => {
                if t == 0 {
                    return false;
                }
            },
            None => {},
        }
        let frame = self.cur_frame;
        self.cur_frame = frame + 1;
        if self.options.input.tracks_position() {
            match position {
                Some(current_position) => {
                    if current_position.row < self.last_position.row {
                        self.loop_count = self.loop_count + 1;
                        if self.loop_duration.is_none() {
                            self.loop_duration = Some(frame);
                        }
                    }
                    self.last_position = current_position;
                },
                None => {},
            }
        }
        true
    }

    /// What the render is doing.
    pub fn phase(&self) -> (phase: Phase)
        ensures
            phase == phase_of(self@),
    {
        if !self.started {
            Phase::Priming
        } else {
            match self.fadeout_timer {
                None => Phase::Playing,
                Some(left) => if left == 0 {
                    Phase::Stopped
                } else {
                    Phase::Fading
                },
            }
        }
    }

    /// Frames of the fadeout that are left, once it has begun.
    pub fn fadeout_countdown(&self) -> (left: Option<u64>)
        ensures
            left == self@.fadeout_timer,
    {
        self.fadeout_timer
    }

    /// Number of frames made.
    pub fn current_frame(&self) -> (frame: u64)
        ensures
            frame == self@.cur_frame,
    {
        self.cur_frame
    }

    /// Number of times the song has begun anew.
    pub fn loop_count(&self) -> (count: u64)
        ensures
            count == self@.loop_count,
    {
        self.loop_count
    }

    /// Index of the frame at which the song first began anew.
    pub fn loop_duration(&self) -> (duration: Option<u64>)
        ensures
            match duration {
                Some(d) => self@.loop_duration == Some(d as nat),
                None => self@.loop_duration is None,
            },
    {
        self.loop_duration
    }

    /// The position seen last.
    pub fn last_position(&self) -> (position: SongPosition)
        ensures
            position == self@.last_position,
    {
        self.last_position
    }

    /// Frames per second at which the newest frame was made.
    pub fn instantaneous_fps(&self) -> (fps: u32)
        ensures
            fps == instantaneous_rate(self.frame_times()),
    {
        self.frame_times.instantaneous_fps()
    }

    /// Frames per second at which the latest frames were made.
    pub fn average_fps(&self) -> (fps: u32)
        ensures
            fps == average_rate(self.frame_times()),
    {
        self.frame_times.average_fps()
    }

    /// How fast the render goes against the machine, in hundredths: 100
    /// where a second of the song takes a second to render.
    pub fn encode_rate(&self) -> (hundredths: u64)
        ensures
            hundredths == average_rate(self.frame_times()) * 100 / 60,
    {
        self.frame_times.average_fps() as u64 * 100 / 60
    }

    /// Number of frames that the whole render is expected to have.
    pub fn expected_duration_frames(&self) -> (frames: Option<usize>)
        ensures
            frames == self@.expected_duration,
    {
        self.expected_duration
    }

    /// The expected length of the video in nanoseconds, at 60 frames a
    /// second.
    pub fn expected_duration(&self) -> (nanos: Option<u128>)
        ensures
            match self@.expected_duration {
                Some(frames) => nanos == Some((frames * 1_000_000_000 / 60) as u128),
                None => nanos is None,
            },
    {
        match self.expected_duration {
            Some(d) => Some(d as u128 * 1_000_000_000 / 60),
            None => None,
        }
    }

    /// The expected length of the whole render in nanoseconds, `elapsed_nanos`
    /// nanoseconds into it: the time so far and the time that the frames to
    /// come take at the average frame rate, which is taken to be at least one
    /// frame a second.
    pub fn eta_duration(&self, elapsed_nanos: u64) -> (nanos: Option<u128>)
        ensures
            match self@.expected_duration {
                Some(frames) => nanos == Some(
                    (elapsed_nanos + (if frames >= self@.cur_frame {
                        frames - self@.cur_frame
                    } else {
                        0
                    }) * 1_000_000_000 / (if average_rate(self.frame_times()) >= 1 {
                        average_rate(self.frame_times())
                    } else {
                        1
                    })) as u128,
                ),
                None => nanos is None,
            },
    {
        match self.expected_duration {
            Some(expected) => {
                let remaining: u128 = if expected as u128 >= self.cur_frame as u128 {
                    expected as u128 - self.cur_frame as u128
                } else {
                    0
                };
                let fps = self.frame_times.average_fps();
                let rate: u128 = if fps >= 1 {
                    fps as u128
                } else {
                    1
                };
                Some(elapsed_nanos as u128 + remaining * 1_000_000_000 / rate)
            },
            None => None,
        }
    }
}

} // verus!
