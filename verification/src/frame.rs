//! The per-frame presentation cycle and the window session state.
//!
//! One frame presents the previously drawn image, polls events, clears the
//! color buffer, uploads the pixel surface to the texture only when it is
//! dirty, and redraws the full-viewport quad. The steps of that cycle are
//! planned here, in order, so the caller that owns the graphics context
//! can carry each one out.

use vstd::prelude::*;

use crate::surface::PixelSurface;

verus! {

/// The quad that presents the surface is two triangles, six vertices,
/// drawn in a single non-indexed call.
pub const QUAD_VERTEX_COUNT: u32 = 6;

/// One externally performed action of a frame, in the order the plan
/// lists them.
#[derive(Clone, Copy, Debug, PartialEq, Eq, Structural)]
pub enum FrameStep {
    /// Swap front and back buffers, presenting the previously drawn frame.
    SwapBuffers,
    /// Poll the windowing system's event queue.
    PollEvents,
    /// Clear the color buffer.
    ClearColor,
    /// Upload the full pixel surface to the texture at offset (0, 0).
    UploadSurface,
    /// Draw the given number of vertices of the full-viewport quad,
    /// sampling the texture.
    DrawQuad(u32),
}

/// The steps of one frame. The upload appears exactly when the surface
/// was dirty, and always before the draw, so the draw samples the newly
/// flushed contents within the same frame.
pub open spec fn frame_plan(dirty: bool) -> Seq<FrameStep> {
    if dirty {
        seq![
            FrameStep::SwapBuffers,
            FrameStep::PollEvents,
            FrameStep::ClearColor,
            FrameStep::UploadSurface,
            FrameStep::DrawQuad(QUAD_VERTEX_COUNT),
        ]
    } else {
        seq![
            FrameStep::SwapBuffers,
            FrameStep::PollEvents,
            FrameStep::ClearColor,
            FrameStep::DrawQuad(QUAD_VERTEX_COUNT),
        ]
    }
}

/// Plans one frame for the given surface and consumes its dirty flag: the
/// returned steps are exactly `frame_plan` of the surface's dirty state at
/// the call, the surface is left clean, and no cell changes. A flush with
/// no intervening write thus yields a plan with no upload step.
pub fn update_plan(surface: &mut PixelSurface) -> (steps: Vec<FrameStep>)
    ensures
        steps@ == frame_plan(old(surface).dirty()),
        !final(surface).dirty(),
        final(surface)@ == old(surface)@,
        final(surface).width() == old(surface).width(),
        final(surface).height() == old(surface).height(),
        final(surface).wf() == old(surface).wf(),
{
    let mut steps: Vec<FrameStep> = Vec::new();
    steps.push(FrameStep::SwapBuffers);
    steps.push(FrameStep::PollEvents);
    steps.push(FrameStep::ClearColor);
    if surface.flush_if_dirty() {
        steps.push(FrameStep::UploadSurface);
    }
    steps.push(FrameStep::DrawQuad(QUAD_VERTEX_COUNT));
    proof {
        assert(steps@ =~= frame_plan(old(surface).dirty()));
    }
    steps
}

/// A clean surface's frame performs no texture upload: no step of
/// `frame_plan(false)` is the upload step.
pub proof fn lemma_clean_frame_has_no_upload()
    ensures
        forall|i: int|
            0 <= i < frame_plan(false).len() ==> frame_plan(false)[i] != FrameStep::UploadSurface,
{
}

/// A dirty surface's frame uploads exactly once, and does so before the
/// draw, so the draw samples the freshly flushed contents.
pub proof fn lemma_dirty_frame_uploads_once_before_draw()
    ensures
        frame_plan(true)[3] == FrameStep::UploadSurface,
        frame_plan(true)[4] == FrameStep::DrawQuad(QUAD_VERTEX_COUNT),
        forall|i: int|
            0 <= i < frame_plan(true).len() && i != 3 ==> frame_plan(true)[i]
                != FrameStep::UploadSurface,
{
}

/// The window session: open until the user requests closure, closed for
/// good after that — there is no transition back.
#[derive(Clone, Copy, Debug, PartialEq, Eq, Structural)]
pub enum SessionState {
    Open,
    Closed,
}

impl SessionState {
    /// A session starts open.
    pub fn new() -> (s: SessionState)
        ensures
            s == SessionState::Open,
    {
        SessionState::Open
    }

    /// Records an externally observed close request. Closing is the only
    /// transition, so a closed session stays closed.
    pub fn request_close(&mut self)
        ensures
            *final(self) == SessionState::Closed,
    {
        *self = SessionState::Closed;
    }

    /// Whether closure has been requested.
    pub fn is_closed(&self) -> (r: bool)
        ensures
            r == (*self == SessionState::Closed),
    {
        match self {
            SessionState::Open => false,
            SessionState::Closed => true,
        }
    }
}

} // verus!
