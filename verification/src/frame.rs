//! Recovery policy of the frame loop: when the swapchain must be rebuilt,
//! and what becomes of a frame whose image acquisition or presentation
//! reports that the swapchain is out of date.
use vstd::prelude::*;

verus! {

/// How acquiring the next swapchain image went (an acquisition that fails
/// in any other way aborts the viewer before this point).
#[derive(PartialEq, Eq, Structural, Clone, Copy, Debug)]
pub enum AcquireOutcome {
    Acquired { suboptimal: bool },
    OutOfDate,
}

/// What to do with a frame after the acquisition.
#[derive(PartialEq, Eq, Structural, Clone, Copy, Debug)]
pub enum AcquireAction {
    /// Record and submit the frame.
    Render,
    /// Drop the frame, with a fresh "now" future as the previous frame.
    Abandon,
}

/// How submitting and presenting the frame went.
#[derive(PartialEq, Eq, Structural, Clone, Copy, Debug)]
pub enum PresentOutcome {
    Presented,
    OutOfDate,
    Failed,
}

/// What becomes the previous-frame future after presentation.
#[derive(PartialEq, Eq, Structural, Clone, Copy, Debug)]
pub enum PresentAction {
    /// The frame's own fence future.
    KeepFuture,
    /// A fresh "now" future.
    RestartFuture,
    /// Report the failure, then a fresh "now" future.
    ReportAndRestart,
}

/// Whether the swapchain must be rebuilt before the next frame.
#[derive(PartialEq, Eq, Structural, Clone, Copy, Debug)]
pub struct FrameState {
    pub stale: bool,
}

/// The state after an acquisition, and what to do with the frame.
pub open spec fn acquire_step(s: FrameState, outcome: AcquireOutcome) -> (FrameState, AcquireAction) {
    match outcome {
        AcquireOutcome::Acquired { suboptimal } => (
            FrameState { stale: s.stale || suboptimal },
            AcquireAction::Render,
        ),
        AcquireOutcome::OutOfDate => (FrameState { stale: true }, AcquireAction::Abandon),
    }
}

/// The state after presentation, and the previous-frame future to keep.
pub open spec fn present_step(s: FrameState, outcome: PresentOutcome) -> (FrameState, PresentAction) {
    match outcome {
        PresentOutcome::Presented => (s, PresentAction::KeepFuture),
        PresentOutcome::OutOfDate => (FrameState { stale: true }, PresentAction::RestartFuture),
        PresentOutcome::Failed => (s, PresentAction::ReportAndRestart),
    }
}

/// Once stale, the swapchain stays stale through acquisitions and
/// presentations until it is rebuilt.
pub proof fn lemma_stale_until_rebuilt(
    s: FrameState,
    acquired: AcquireOutcome,
    presented: PresentOutcome,
)
    requires
        s.stale,
    ensures
        acquire_step(s, acquired).0.stale,
        present_step(s, presented).0.stale,
{
}

/// A frame is rendered exactly when an image was acquired, and an
/// out-of-date swapchain, at acquisition or at presentation, is always
/// marked for rebuilding.
pub proof fn lemma_out_of_date_forces_rebuild(s: FrameState, outcome: AcquireOutcome)
    ensures
        (acquire_step(s, outcome).1 == AcquireAction::Render) <==> (outcome is Acquired),
        outcome == AcquireOutcome::OutOfDate ==> acquire_step(s, outcome).0.stale,
        present_step(s, PresentOutcome::OutOfDate).0.stale,
{
}

/// A clean acquisition and presentation of a fresh swapchain keep it fresh.
pub proof fn lemma_clean_frame_keeps_fresh(s: FrameState)
    requires
        !s.stale,
    ensures
        !acquire_step(s, AcquireOutcome::Acquired { suboptimal: false }).0.stale,
        !present_step(s, PresentOutcome::Presented).0.stale,
        !present_step(s, PresentOutcome::Failed).0.stale,
{
}

/// What each outcome does: an acquired image is rendered and leaves the
/// swapchain stale exactly when it was stale or the image is suboptimal;
/// an out-of-date swapchain abandons the frame (at acquisition) or restarts
/// the future (at presentation) and marks it stale; a presented frame keeps
/// its future; a failed presentation is reported and restarts the future;
/// neither of the last two changes the state.
pub proof fn lemma_outcome_effects(s: FrameState, suboptimal: bool)
    ensures
        acquire_step(s, AcquireOutcome::Acquired { suboptimal }) == (
            FrameState { stale: s.stale || suboptimal },
            AcquireAction::Render,
        ),
        acquire_step(s, AcquireOutcome::OutOfDate) == (
            FrameState { stale: true },
            AcquireAction::Abandon,
        ),
        present_step(s, PresentOutcome::Presented) == (s, PresentAction::KeepFuture),
        present_step(s, PresentOutcome::OutOfDate) == (
            FrameState { stale: true },
            PresentAction::RestartFuture,
        ),
        present_step(s, PresentOutcome::Failed) == (s, PresentAction::ReportAndRestart),
{
}

impl FrameState {
    /// A freshly built swapchain.
    pub fn new() -> (s: Self)
        ensures
            !s.stale,
    {
        FrameState { stale: false }
    }

    /// The window was resized: rebuild before the next frame.
    pub fn invalidate(&mut self)
        ensures
            final(self).stale,
    {
        self.stale = true;
    }

    /// Whether the swapchain must be rebuilt before this frame.
    pub fn needs_rebuild(&self) -> (b: bool)
        ensures
            b == self.stale,
    {
        self.stale
    }

    /// The swapchain was rebuilt.
    pub fn rebuilt(&mut self)
        ensures
            !final(self).stale,
    {
        self.stale = false;
    }

    /// Takes the outcome of acquiring the next image.
    pub fn on_acquire(&mut self, outcome: AcquireOutcome) -> (action: AcquireAction)
        ensures
            (*final(self), action) == acquire_step(*old(self), outcome),
    {
        match outcome {
            AcquireOutcome::Acquired { suboptimal } => {
                if suboptimal {
                    self.stale = true;
                }
                AcquireAction::Render
            },
            AcquireOutcome::OutOfDate => {
                self.stale = true;
                AcquireAction::Abandon
            },
        }
    }

    /// Takes the outcome of submitting and presenting the frame.
    pub fn on_present(&mut self, outcome: PresentOutcome) -> (action: PresentAction)
        ensures
            (*final(self), action) == present_step(*old(self), outcome),
    {
        match outcome {
            PresentOutcome::Presented => PresentAction::KeepFuture,
            PresentOutcome::OutOfDate => {
                self.stale = true;
                PresentAction::RestartFuture
            },
            PresentOutcome::Failed => PresentAction::ReportAndRestart,
        }
    }
}

} // verus!
