use vstd::prelude::*;
use vstd::string::StringExecFns;
use vstd::string::StringSliceAdditionalSpecFns;

verus! {

/// The name that asks for the test background.
pub open spec fn debug_name() -> Seq<char> {
    "__debug__"@
}

/// A plain background for trying things out: every pixel is half
/// transparent blue.
#[derive(Copy, Clone, Debug, PartialEq, Eq, Structural)]
pub struct DebugBackground(pub u32, pub u32);

/// The bytes of one pixel of the test background: red, green, blue and
/// opacity.
pub open spec fn debug_pixel() -> Seq<u8> {
    seq![0u8, 0u8, 255u8, 128u8]
}

/// A frame of the test background for a picture of `width` by `height`.
pub open spec fn debug_frame(width: u32, height: u32) -> Seq<u8> {
    Seq::new((4 * (width * height)) as nat, |i: int| debug_pixel()[i % 4])
}

impl DebugBackground {
    /// The test background where `path` is its name, `__debug__`.
    pub fn open(path: &str, width: u32, height: u32) -> (background: Option<Self>)
        ensures
            background == if path@ == debug_name() {
                Some(DebugBackground(width, height))
            } else {
                None
            },
    {
        let name = String::from_str(path);
        let debug = String::from_str("__debug__");
        if name.eq(&debug) {
            Some(DebugBackground(width, height))
        } else {
            None
        }
    }

    /// The next frame of the background. `None` where it would be larger
    /// than memory can hold.
    pub fn next_frame(&mut self) -> (frame: Option<Vec<u8>>)
        ensures
            *final(self) == *old(self),
            match frame {
                Some(pixels) => pixels@ == debug_frame(old(self).0, old(self).1),
                None => 4 * (old(self).0 * old(self).1) > usize::MAX,
            },
    {
        assert(self.0 * self.1 <= 0xFFFF_FFFF * 0xFFFF_FFFF) by (nonlinear_arith)
            requires
                self.0 <= 0xFFFF_FFFF,
                self.1 <= 0xFFFF_FFFF,
        ;
        let len: u128 = 4 * (self.0 as u128 * self.1 as u128);
        if len > usize::MAX as u128 {
            return None;
        }
        let len: usize = len as usize;
        let mut pixels: Vec<u8> = Vec::new();
        let mut i: usize = 0;
        while i < len
            invariant
                len == 4 * (self.0 * self.1),
                i <= len,
                i % 4 == 0,
                pixels@.len() == i,
                forall|j: int| 0 <= j < i ==> pixels@[j] == debug_pixel()[j % 4],
            decreases len - i,
        {
            pixels.push(0);
            pixels.push(0);
            pixels.push(255);
            pixels.push(128);
            i = i + 4;
        }
        assert(pixels@ =~= debug_frame(self.0, self.1));
        Some(pixels)
    }
}

/// Where a background comes from.
#[derive(Copy, Clone, Debug, PartialEq, Eq, Structural)]
pub enum BackgroundKind {
    /// The test background.
    Debug,
    /// A still picture.
    Image,
    /// A video or an animated picture.
    Video,
}

/// Whether `name` ends in `.gif`.
pub open spec fn is_gif(name: Seq<u8>) -> bool {
    name.len() >= 4 && name.subrange(name.len() - 4, name.len() as int) == seq![
        0x2Eu8,
        0x67u8,
        0x69u8,
        0x66u8,
    ]
}

/// The kinds of background that are tried for a path, in their order: the
/// test background for its name, a video for an animated picture, and else
/// a still picture and then a video.
pub open spec fn kinds_for(path: &str) -> Seq<BackgroundKind> {
    if path@ == debug_name() {
        seq![BackgroundKind::Debug]
    } else if is_gif(path.spec_bytes()) {
        seq![BackgroundKind::Video]
    } else {
        seq![BackgroundKind::Image, BackgroundKind::Video]
    }
}

/// The kinds of background to try for `path`, in their order.
pub fn background_kinds(path: &str) -> (kinds: Vec<BackgroundKind>)
    ensures
        kinds@ == kinds_for(path),
{
    let name = String::from_str(path);
    let debug = String::from_str("__debug__");
    if name.eq(&debug) {
        let kinds = vec![BackgroundKind::Debug];
        assert(kinds@ =~= seq![BackgroundKind::Debug]);
        return kinds;
    }
    let bytes = path.as_bytes();
    let n = bytes.len();
    if n >= 4 && bytes[n - 4] == 0x2E && bytes[n - 3] == 0x67 && bytes[n - 2] == 0x69 && bytes[n
        - 1] == 0x66 {
        assert(bytes@.subrange(n - 4, n as int) =~= seq![0x2Eu8, 0x67u8, 0x69u8, 0x66u8]);
        let kinds = vec![BackgroundKind::Video];
        assert(kinds@ =~= seq![BackgroundKind::Video]);
        kinds
    } else {
        proof {
            if n >= 4 {
                let tail = bytes@.subrange(n - 4, n as int);
                assert(tail[0] == bytes@[n - 4]);
                assert(tail[1] == bytes@[n - 3]);
                assert(tail[2] == bytes@[n - 2]);
                assert(tail[3] == bytes@[n - 1]);
                let gif = seq![0x2Eu8, 0x67u8, 0x69u8, 0x66u8];
                assert(gif[0] == 0x2E && gif[1] == 0x67 && gif[2] == 0x69 && gif[3] == 0x66);
            }
        }
        let kinds = vec![BackgroundKind::Image, BackgroundKind::Video];
        assert(kinds@ =~= seq![BackgroundKind::Image, BackgroundKind::Video]);
        kinds
    }
}

/// Most frames that the decoder of a video background puts by before it
/// rests.
pub const HIGH_WATER: usize = 30;

/// Number of frames put by at which a resting decoder goes on.
pub const LOW_WATER: usize = 10;

/// Whether the decoder of a video background rests once `queued` frames
/// are put by, given whether it rested before: it begins to rest above the
/// high-water mark and goes on at the low-water mark.
pub open spec fn rests(resting: bool, queued: usize) -> bool {
    if resting {
        queued > LOW_WATER
    } else {
        queued > HIGH_WATER
    }
}

/// Whether the decoder rests with `queued` frames put by.
pub fn decoder_rests(resting: bool, queued: usize) -> (rest: bool)
    ensures
        rest == rests(resting, queued),
{
    if resting {
        queued > LOW_WATER
    } else {
        queued > HIGH_WATER
    }
}

/// What the renderer does for a frame of a video background.
#[derive(Copy, Clone, Debug, PartialEq, Eq, Structural)]
pub enum FrameSource {
    /// It takes the oldest frame that is put by.
    Queued,
    /// It takes an empty frame: the video is over.
    Blank,
    /// It waits a little and looks again.
    Retry,
}

/// Where the next frame of a video background comes from: the queue
/// where it holds a frame, an empty frame once the decoder has finished, and
/// else another look after a while.
pub fn frame_source(queued: usize, decoder_finished: bool) -> (source: FrameSource)
    ensures
        source == if queued > 0 {
            FrameSource::Queued
        } else if decoder_finished {
            FrameSource::Blank
        } else {
            FrameSource::Retry
        },
{
    if queued > 0 {
        FrameSource::Queued
    } else if decoder_finished {
        FrameSource::Blank
    } else {
        FrameSource::Retry
    }
}

} // verus!
