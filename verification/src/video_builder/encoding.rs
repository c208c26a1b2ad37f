use vstd::prelude::*;

verus! {

/// Why raw video data cannot be put into a frame.
#[derive(Copy, Clone, Debug, PartialEq, Eq, Structural)]
pub enum FrameError {
    /// The lines of the data are not shorter than the lines of the frame.
    StrideTooSmall,
    /// The data is not as many whole lines as the frame is high.
    BadSize,
}

/// Length of a line of `data` where it is `height` lines.
pub open spec fn line_len(data: Seq<u8>, height: int) -> int {
    (data.len() as int) / height
}

/// The plane `plane`, which has lines of `stride` bytes, with each of the
/// `height` lines of `data` at the start of a line and zeros in the rest of
/// that line. What the plane holds beyond its last whole line, or beyond
/// `height` lines, stays.
pub open spec fn padded(plane: Seq<u8>, height: int, stride: int, data: Seq<u8>) -> Seq<u8> {
    Seq::new(
        plane.len(),
        |i: int|
            if i / stride < height && (i / stride + 1) * stride <= plane.len() {
                if i % stride < line_len(data, height) {
                    data[(i / stride) * line_len(data, height) + i % stride]
                } else {
                    0u8
                }
            } else {
                plane[i]
            },
    )
}

/// A frame's plane after `data` has been put into it. The plane has lines
/// of `stride` bytes. Data of the very size of the plane takes its place.
/// Other data has to be `height` lines that are shorter than those of the
/// plane: each goes to the start of a line of the plane, and the rest of that
/// line is set to 0. What the plane holds beyond its last whole line, or
/// beyond `height` lines, stays.
pub open spec fn copy_outcome(plane: Seq<u8>, height: int, stride: int, data: Seq<u8>) -> Result<
    Seq<u8>,
    FrameError,
> {
    if data.len() == plane.len() {
        Ok(data)
    } else if height <= 0 {
        Err(FrameError::BadSize)
    } else if line_len(data, height) >= stride {
        Err(FrameError::StrideTooSmall)
    } else if line_len(data, height) == 0 || line_len(data, height) * height != data.len() {
        Err(FrameError::BadSize)
    } else {
        Ok(padded(plane, height, stride, data))
    }
}

proof fn lemma_line_fits(line: int, lines: int, stride: int, len: int)
    by (nonlinear_arith)
    requires
        0 <= line < lines,
        stride > 0,
        0 <= len,
        lines == len / stride,
    ensures
        (line + 1) * stride <= len,
        (line + 1) * stride == line * stride + stride,
        0 <= line * stride,
{
}

proof fn lemma_data_line(line: int, height: int, width: int, len: int)
    by (nonlinear_arith)
    requires
        0 <= line < height,
        width > 0,
        width * height == len,
    ensures
        (line + 1) * width <= len,
        (line + 1) * width == line * width + width,
        0 <= line * width,
{
}

proof fn lemma_cell(line: int, col: int, stride: int)
    requires
        0 <= line,
        0 <= col < stride,
    ensures
        (line * stride + col) / stride == line,
        (line * stride + col) % stride == col,
{
    vstd::arithmetic::div_mod::lemma_fundamental_div_mod_converse(
        line * stride + col,
        stride,
        line,
        col,
    );
}

proof fn lemma_behind_lines(j: int, lines: int, stride: int, len: int)
    requires
        stride > 0,
        0 <= lines,
        lines * stride <= j < len,
        lines == len / stride,
    ensures
        (j / stride + 1) * stride > len,
{
    let q = j / stride;
    let r = j % stride;
    vstd::arithmetic::div_mod::lemma_fundamental_div_mod(j, stride);
    vstd::arithmetic::div_mod::lemma_fundamental_div_mod(len, stride);
    assert(q >= lines) by (nonlinear_arith)
        requires
            j == stride * q + r,
            0 <= r < stride,
            lines * stride <= j,
            stride > 0,
    ;
    assert((q + 1) * stride > len) by (nonlinear_arith)
        requires
            q >= lines,
            len == stride * lines + len % stride,
            0 <= len % stride < stride,
            stride > 0,
    ;
}

proof fn lemma_behind_height(j: int, height: int, stride: int)
    requires
        stride > 0,
        0 <= height,
        height * stride <= j,
    ensures
        j / stride >= height,
{
    let q = j / stride;
    let r = j % stride;
    vstd::arithmetic::div_mod::lemma_fundamental_div_mod(j, stride);
    assert(q >= height) by (nonlinear_arith)
        requires
            j == stride * q + r,
            0 <= r < stride,
            height * stride <= j,
            stride > 0,
    ;
}

/// Puts raw video data into the plane of a frame that is `height` lines of
/// `stride` bytes. Where the data is refused the plane stays as it is.
pub fn copy_data_to_frame(plane: &mut Vec<u8>, height: usize, stride: usize, data: &[u8]) -> (res:
    Result<(), FrameError>)
    ensures
        match res {
            Ok(()) => copy_outcome(old(plane)@, height as int, stride as int, data@) == Ok::<
                Seq<u8>,
                FrameError,
            >(final(plane)@),
            Err(e) => copy_outcome(old(plane)@, height as int, stride as int, data@) == Err::<
                Seq<u8>,
                FrameError,
            >(e) && final(plane)@ == old(plane)@,
        },
{
    let len = plane.len();
    if data.len() == len {
        let mut i: usize = 0;
        while i < len
            invariant
                len == plane@.len(),
                len == data@.len(),
                i <= len,
                forall|j: int| 0 <= j < i ==> plane@[j] == data@[j],
            decreases len - i,
        {
            plane[i] = data[i];
            i = i + 1;
        }
        assert(plane@ =~= data@);
        return Ok(());
    }
    if height == 0 {
        return Err(FrameError::BadSize);
    }
    let in_w: usize = data.len() / height;
    if in_w >= stride {
        return Err(FrameError::StrideTooSmall);
    }
    if in_w == 0 {
        return Err(FrameError::BadSize);
    }
    proof {
        vstd::arithmetic::div_mod::lemma_fundamental_div_mod(data@.len() as int, height as int);
        assert(in_w * height == height * in_w) by (nonlinear_arith);
    }
    if in_w * height != data.len() {
        return Err(FrameError::BadSize);
    }
    let lines: usize = len / stride;
    let count: usize = if height <= lines {
        height
    } else {
        lines
    };
    let ghost goal = padded(old(plane)@, height as int, stride as int, data@);
    let mut line: usize = 0;
    let mut start: usize = 0;
    let mut from: usize = 0;
    while line < count
        invariant
            0 < in_w < stride,
            in_w == line_len(data@, height as int),
            in_w * height == data@.len(),
            data@.len() <= usize::MAX,
            lines == len / stride,
            count <= lines,
            count <= height,
            len == plane@.len(),
            len == old(plane)@.len(),
            line <= count,
            start == line * stride,
            from == line * in_w,
            start <= len,
            from <= data@.len(),
            goal == padded(old(plane)@, height as int, stride as int, data@),
            forall|j: int| 0 <= j < start ==> plane@[j] == goal[j],
            forall|j: int| start <= j < len ==> plane@[j] == old(plane)@[j],
        decreases count - line,
    {
        proof {
            lemma_line_fits(line as int, lines as int, stride as int, len as int);
            lemma_data_line(line as int, height as int, in_w as int, data@.len() as int);
        }
        let mut col: usize = 0;
        while col < stride
            invariant
                0 < in_w < stride,
                in_w == line_len(data@, height as int),
                data@.len() <= usize::MAX,
                from == line * in_w,
                from + in_w <= data@.len(),
                start == line * stride,
                start + stride <= len,
                start + stride == (line + 1) * stride,
                line < height,
                len == plane@.len(),
                len == old(plane)@.len(),
                col <= stride,
                goal == padded(old(plane)@, height as int, stride as int, data@),
                forall|j: int| 0 <= j < start + col ==> plane@[j] == goal[j],
                forall|j: int| start + col <= j < len ==> plane@[j] == old(plane)@[j],
            decreases stride - col,
        {
            let at: usize = start + col;
            proof {
                lemma_cell(line as int, col as int, stride as int);
            }
            if col < in_w {
                plane[at] = data[from + col];
            } else {
                plane[at] = 0;
            }
            assert(plane@[at as int] == goal[at as int]);
            col = col + 1;
        }
        start = start + stride;
        from = from + in_w;
        line = line + 1;
    }
    proof {
        assert forall|j: int| start <= j < len implies old(plane)@[j] == goal[j] by {
            if count == height {
                lemma_behind_height(j, height as int, stride as int);
            } else {
                lemma_behind_lines(j, lines as int, stride as int, len as int);
            }
        }
        assert(plane@ =~= goal);
    }
    Ok(())
}

/// One colour channel of a pixel laid over a background: the background
/// at half its brightness weighted with what the pixel's opacity leaves of
/// 256, joined bit by bit with the pixel's channel weighted with its opacity.
/// The pixel's channel is taken to be multiplied with its opacity already.
pub open spec fn blend_channel(alpha: u8, fg: u8, bg: u8) -> u8 {
    ((((0x100 - alpha) * (bg / 2)) / 0x100) as u8) | (((alpha * fg) / 0x100) as u8)
}

/// Number of pixels that are blended: as many as both planes hold whole.
pub open spec fn blend_count(fg: Seq<u8>, bg: Seq<u8>) -> int {
    if fg.len() / 4 <= bg.len() / 4 {
        (fg.len() / 4) as int
    } else {
        (bg.len() / 4) as int
    }
}

/// The plane `fg` of pixels of red, green, blue and opacity laid over the
/// plane `bg`: the colours of each pixel are blended, its opacity stays.
pub open spec fn blended(fg: Seq<u8>, bg: Seq<u8>) -> Seq<u8> {
    Seq::new(
        fg.len(),
        |i: int|
            if i / 4 < blend_count(fg, bg) && i % 4 != 3 {
                blend_channel(fg[i - i % 4 + 3], fg[i], bg[i])
            } else {
                fg[i]
            },
    )
}

fn blend(alpha: u8, fg: u8, bg: u8) -> (out: u8)
    ensures
        out == blend_channel(alpha, fg, bg),
{
    let rest: u32 = 0x100 - alpha as u32;
    let dimmed: u32 = (bg / 2) as u32;
    let opacity: u32 = alpha as u32;
    let colour: u32 = fg as u32;
    assert(rest * dimmed <= 0x100 * 0x7F) by (nonlinear_arith)
        requires
            0 <= rest <= 0x100,
            0 <= dimmed <= 0x7F,
    ;
    assert(opacity * colour <= 0xFF * 0xFF) by (nonlinear_arith)
        requires
            0 <= opacity <= 0xFF,
            0 <= colour <= 0xFF,
    ;
    let under: u32 = rest * dimmed / 0x100;
    let over: u32 = opacity * colour / 0x100;
    (under as u8) | (over as u8)
}

/// Lays the frame `fg` over the background `bg`, both planes of pixels of
/// red, green, blue and opacity.
pub fn fast_background_blit(fg: &mut Vec<u8>, bg: &[u8])
    ensures
        final(fg)@ == blended(old(fg)@, bg@),
{
    let count: usize = if fg.len() / 4 <= bg.len() / 4 {
        fg.len() / 4
    } else {
        bg.len() / 4
    };
    let ghost goal = blended(old(fg)@, bg@);
    let mut pixel: usize = 0;
    while pixel < count
        invariant
            count == blend_count(old(fg)@, bg@),
            4 * count <= fg@.len(),
            4 * count <= bg@.len(),
            fg@.len() <= usize::MAX,
            fg@.len() == old(fg)@.len(),
            pixel <= count,
            goal == blended(old(fg)@, bg@),
            forall|j: int| 0 <= j < 4 * pixel ==> fg@[j] == goal[j],
            forall|j: int| 4 * pixel <= j < fg@.len() ==> fg@[j] == old(fg)@[j],
        decreases count - pixel,
    {
        let base: usize = 4 * pixel;
        let alpha = fg[base + 3];
        let red = blend(alpha, fg[base], bg[base]);
        let green = blend(alpha, fg[base + 1], bg[base + 1]);
        let blue = blend(alpha, fg[base + 2], bg[base + 2]);
        fg[base] = red;
        fg[base + 1] = green;
        fg[base + 2] = blue;
        proof {
            assert(fg@[base as int] == goal[base as int]);
            assert(fg@[base + 1] == goal[base + 1]);
            assert(fg@[base + 2] == goal[base + 2]);
            assert(fg@[base + 3] == goal[base + 3]);
        }
        pixel = pixel + 1;
    }
    assert(fg@ =~= goal);
}

/// One of the two streams of a video file.
#[derive(Copy, Clone, Debug, PartialEq, Eq, Structural)]
pub enum Stream {
    Audio,
    Video,
}

/// Why the encoding of a file cannot go on.
#[derive(Copy, Clone, Debug, PartialEq, Eq, Structural)]
pub enum EncodeError {
    /// A counter has reached the end of its range.
    CounterOverflow,
}

/// The counters of the two streams of a file.
pub struct MuxCounters {
    /// Presentation time of the next video frame, in frames.
    pub video_pts: int,
    /// Number of video packets written.
    pub video_muxed: int,
    /// Presentation time of the next audio frame, in samples.
    pub audio_pts: int,
    /// Number of audio packets written.
    pub audio_muxed: int,
}

/// The stream whose frame goes to its encoder next: audio while it has not
/// more packets written than video and a frame is ready, else video where a
/// frame is ready, else none.
pub open spec fn stream_due(c: MuxCounters, audio_ready: bool, video_ready: bool) -> Option<Stream> {
    if c.audio_muxed <= c.video_muxed && audio_ready {
        Some(Stream::Audio)
    } else if video_ready {
        Some(Stream::Video)
    } else {
        None
    }
}

/// The counters after a frame of `stream` got its presentation time: a
/// video frame takes one unit of time, an audio frame `frame_size`.
pub open spec fn stamped(c: MuxCounters, stream: Stream, frame_size: u32) -> MuxCounters {
    match stream {
        Stream::Audio => MuxCounters { audio_pts: c.audio_pts + frame_size, ..c },
        Stream::Video => MuxCounters { video_pts: c.video_pts + 1, ..c },
    }
}

/// The counters after a packet of `stream` was written.
pub open spec fn written(c: MuxCounters, stream: Stream) -> MuxCounters {
    match stream {
        Stream::Audio => MuxCounters { audio_muxed: c.audio_muxed + 1, ..c },
        Stream::Video => MuxCounters { video_muxed: c.video_muxed + 1, ..c },
    }
}

/// While frames of both streams are ready and every frame gives a packet,
/// the streams take turns: audio is never more than one packet ahead of
/// video, and never behind.
pub proof fn lemma_streams_take_turns(c: MuxCounters)
    requires
        0 <= c.audio_muxed - c.video_muxed <= 1,
    ensures
        stream_due(c, true, true) is Some,
        0 <= written(c, stream_due(c, true, true)->0).audio_muxed - written(
            c,
            stream_due(c, true, true)->0,
        ).video_muxed <= 1,
{
}

/// Presentation times never go back, and the number of packets written
/// never goes down.
pub proof fn lemma_counters_grow(c: MuxCounters, stream: Stream, frame_size: u32)
    ensures
        stamped(c, stream, frame_size).video_pts >= c.video_pts,
        stamped(c, stream, frame_size).audio_pts >= c.audio_pts,
        written(c, stream).video_muxed >= c.video_muxed,
        written(c, stream).audio_muxed >= c.audio_muxed,
{
}

/// Decides which stream is fed to its encoder next, and counts
/// presentation times and packets.
pub struct MuxSchedule {
    v_pts: i64,
    v_pts_muxed: i64,
    a_pts: i64,
    a_pts_muxed: i64,
}

impl View for MuxSchedule {
    type V = MuxCounters;

    closed spec fn view(&self) -> MuxCounters {
        MuxCounters {
            video_pts: self.v_pts as int,
            video_muxed: self.v_pts_muxed as int,
            audio_pts: self.a_pts as int,
            audio_muxed: self.a_pts_muxed as int,
        }
    }
}

/// Nanoseconds that `pts` units of a time base of `numerator` over
/// `denominator` seconds last. `None` where the time base is not positive.
pub open spec fn duration_nanos(pts: int, numerator: i32, denominator: i32) -> Option<int> {
    if numerator < 0 || denominator <= 0 {
        None
    } else {
        Some(pts * numerator * 1_000_000_000 / (denominator as int))
    }
}

impl MuxSchedule {
    #[verifier::type_invariant]
    spec fn well_formed(self) -> bool {
        &&& 0 <= self.v_pts
        &&& 0 <= self.v_pts_muxed
        &&& 0 <= self.a_pts
        &&& 0 <= self.a_pts_muxed
    }

    /// The counters of a new file: all 0.
    pub fn new() -> (schedule: Self)
        ensures
            schedule@ == (MuxCounters {
                video_pts: 0,
                video_muxed: 0,
                audio_pts: 0,
                audio_muxed: 0,
            }),
    {
        MuxSchedule { v_pts: 0, v_pts_muxed: 0, a_pts: 0, a_pts_muxed: 0 }
    }

    /// The stream to feed next, given which streams have a frame ready.
    pub fn next_stream(&self, audio_ready: bool, video_ready: bool) -> (stream: Option<Stream>)
        ensures
            stream == stream_due(self@, audio_ready, video_ready),
    {
        if self.a_pts_muxed <= self.v_pts_muxed && audio_ready {
            Some(Stream::Audio)
        } else if video_ready {
            Some(Stream::Video)
        } else {
            None
        }
    }

    /// The presentation time for the next frame of `stream`, which is then
    /// counted. `frame_size` is the number of samples that the audio encoder
    /// takes at once.
    pub fn stamp(&mut self, stream: Stream, frame_size: u32) -> (res: Result<i64, EncodeError>)
        ensures
            match res {
                Ok(pts) => {
                    &&& final(self)@ == stamped(old(self)@, stream, frame_size)
                    &&& pts == match stream {
                        Stream::Audio => old(self)@.audio_pts,
                        Stream::Video => old(self)@.video_pts,
                    }
                },
                Err(_) => {
                    &&& final(self)@ == old(self)@
                    &&& match stream {
                        Stream::Audio => old(self)@.audio_pts + frame_size > i64::MAX,
                        Stream::Video => old(self)@.video_pts + 1 > i64::MAX,
                    }
                },
            },
    {
        proof {
            use_type_invariant(&*self);
        }
        match stream {
            Stream::Audio => {
                let pts = self.a_pts;
                if pts > i64::MAX - frame_size as i64 {
                    return Err(EncodeError::CounterOverflow);
                }
                self.a_pts = pts + frame_size as i64;
                Ok(pts)
            },
            Stream::Video => {
                let pts = self.v_pts;
                if pts == i64::MAX {
                    return Err(EncodeError::CounterOverflow);
                }
                self.v_pts = pts + 1;
                Ok(pts)
            },
        }
    }

    /// Counts a packet of `stream` that was written to the file.
    pub fn packet_written(&mut self, stream: Stream) -> (res: Result<(), EncodeError>)
        ensures
            match res {
                Ok(()) => final(self)@ == written(old(self)@, stream),
                Err(_) => {
                    &&& final(self)@ == old(self)@
                    &&& match stream {
                        Stream::Audio => old(self)@.audio_muxed + 1 > i64::MAX,
                        Stream::Video => old(self)@.video_muxed + 1 > i64::MAX,
                    }
                },
            },
    {
        proof {
            use_type_invariant(&*self);
        }
        match stream {
            Stream::Audio => {
                if self.a_pts_muxed == i64::MAX {
                    return Err(EncodeError::CounterOverflow);
                }
                self.a_pts_muxed = self.a_pts_muxed + 1;
            },
            Stream::Video => {
                if self.v_pts_muxed == i64::MAX {
                    return Err(EncodeError::CounterOverflow);
                }
                self.v_pts_muxed = self.v_pts_muxed + 1;
            },
        }
        Ok(())
    }

    /// Whether the encoders, once told that no frame follows, have given
    /// their last packet: neither gave one in the last round.
    pub fn drained(audio_packet: bool, video_packet: bool) -> (done: bool)
        ensures
            done == (!audio_packet && !video_packet),
    {
        !audio_packet && !video_packet
    }

    /// Length of the video that has gone to the encoder, in nanoseconds.
    pub fn encoded_video_duration(&self, time_base: (i32, i32)) -> (nanos: Option<u128>)
        ensures
            match nanos {
                Some(n) => duration_nanos(self@.video_pts, time_base.0, time_base.1) == Some(
                    n as int,
                ),
                None => duration_nanos(self@.video_pts, time_base.0, time_base.1) is None,
            },
    {
        proof {
            use_type_invariant(self);
        }
        let (numerator, denominator) = time_base;
        if numerator < 0 || denominator <= 0 {
            return None;
        }
        assert(self.v_pts * numerator <= 0x7FFF_FFFF_FFFF_FFFF * 0x7FFF_FFFF && self.v_pts
            * numerator >= 0) by (nonlinear_arith)
            requires
                0 <= self.v_pts <= 0x7FFF_FFFF_FFFF_FFFF,
                0 <= numerator <= 0x7FFF_FFFF,
        ;
        let scaled: u128 = (self.v_pts as u128) * (numerator as u128) * 1_000_000_000;
        Some(scaled / (denominator as u128))
    }
}

/// Number of samples that go to the audio encoder at once: the number
/// that the codec fixes, or `variable_frame_size` where it takes any number
/// or names none.
pub fn audio_frame_size(codec_frame_size: usize, variable: bool, variable_frame_size: usize) -> (size:
    usize)
    ensures
        size == if variable || codec_frame_size == 0 {
            variable_frame_size
        } else {
            codec_frame_size
        },
{
    if variable || codec_frame_size == 0 {
        variable_frame_size
    } else {
        codec_frame_size
    }
}

} // verus!
