use crate::renderer::render_options::RendererOptions;
use crate::renderer::SongPosition;
use vstd::prelude::*;

verus! {

/// Nanoseconds between two reports of progress.
pub const PROGRESS_INTERVAL_NANOS: u64 = 500_000_000;

/// What the thread is asked to do.
#[derive(Clone)]
pub enum RenderThreadRequest {
    /// To render with these options.
    StartRender(RendererOptions),
    /// To give the render up after the frame that is being made.
    CancelRender,
    /// To end.
    Terminate,
}

/// How far a render has come. Times are in nanoseconds.
#[derive(Clone, Debug)]
pub struct RenderProgressInfo {
    pub frame: u64,
    pub average_fps: u32,
    pub encoded_size: usize,
    pub expected_duration_frames: Option<usize>,
    pub expected_duration: Option<u128>,
    pub eta_duration: Option<u128>,
    pub elapsed_duration: u128,
    pub encoded_duration: u128,
    pub song_position: Option<SongPosition>,
    pub loop_count: u64,
}

/// What the thread tells.
#[derive(Clone, Debug)]
pub enum RenderThreadMessage {
    /// Something went wrong, or was asked for at the wrong time.
    Error(String),
    RenderStarting,
    RenderProgress(RenderProgressInfo),
    RenderComplete,
    RenderCancelled,
}

/// What the thread does with a request while it renders nothing.
pub enum IdleAction {
    /// It begins to render.
    Start(RendererOptions),
    /// It tells that there is no render to give up, and waits on.
    Refuse,
    /// It ends.
    Quit,
}

/// What the thread does between two frames of a render.
#[derive(Copy, Clone, Debug, PartialEq, Eq, Structural)]
pub enum RenderAction {
    /// It makes the next frame.
    Step,
    /// It tells that a render is running already, and makes the next
    /// frame.
    RefuseAndStep,
    /// It tells that the render was given up, makes no more frames and
    /// closes the file with what it has.
    Cancel,
    /// It ends at once and leaves the file as it is.
    Quit,
}

/// The answer to a request that comes while nothing is rendered.
pub fn idle_action(request: RenderThreadRequest) -> (action: IdleAction)
    ensures
        match request {
            RenderThreadRequest::StartRender(options) => action matches IdleAction::Start(o) && o
                == options,
            RenderThreadRequest::CancelRender => action is Refuse,
            RenderThreadRequest::Terminate => action is Quit,
        },
{
    match request {
        RenderThreadRequest::StartRender(options) => IdleAction::Start(options),
        RenderThreadRequest::CancelRender => IdleAction::Refuse,
        RenderThreadRequest::Terminate => IdleAction::Quit,
    }
}

/// The answer to what was asked since the last frame, if anything was: a
/// render is given up or ended only between two frames.
pub fn render_action(request: Option<&RenderThreadRequest>) -> (action: RenderAction)
    ensures
        action == match request {
            None => RenderAction::Step,
            Some(RenderThreadRequest::StartRender(_)) => RenderAction::RefuseAndStep,
            Some(RenderThreadRequest::CancelRender) => RenderAction::Cancel,
            Some(RenderThreadRequest::Terminate) => RenderAction::Quit,
        },
{
    match request {
        None => RenderAction::Step,
        Some(RenderThreadRequest::StartRender(_)) => RenderAction::RefuseAndStep,
        Some(RenderThreadRequest::CancelRender) => RenderAction::Cancel,
        Some(RenderThreadRequest::Terminate) => RenderAction::Quit,
    }
}

/// Whether progress is told again, `since_last` nanoseconds after it was
/// told last.
pub fn progress_due(since_last: u128) -> (due: bool)
    ensures
        due == (since_last >= PROGRESS_INTERVAL_NANOS),
{
    since_last >= PROGRESS_INTERVAL_NANOS as u128
}

} // verus!
