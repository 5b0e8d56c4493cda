//! The render thread's main surface: the drawable that each frame is rendered into, and the
//! decisions taken when the engine acquires it and presents it.
use vstd::prelude::*;
use crate::resize::{
    on_acquire_drawable, on_present, present_action, resize_on_acquire, state_after_acquire,
    state_after_present, PresentAction, ResizeState,
};

verus! {

/// The drawable of the frame being rendered, if one is open.
pub struct FrameSurface<D> {
    drawable: Option<D>,
}

/// What to do before a new drawable is created for the next frame.
pub struct AcquirePlan<D> {
    /// The resize state to store.
    pub next_state: ResizeState,
    /// The size to give the compositor surface and visual first, when a resize is pending.
    pub resize_to: Option<(u32, u32)>,
    /// A drawable left open by a refused frame: end its draw and destroy it first.
    pub stale: Option<D>,
}

/// What to do when the engine presents the frame.
pub struct PresentPlan<D> {
    /// The resize state to store.
    pub next_state: ResizeState,
    pub action: PresentAction,
    /// The drawable to flush and destroy before the compositor draw is ended and committed.
    pub drawable: Option<D>,
}

/// The open drawable after a present request in resize state `s`: a refused frame keeps it.
pub open spec fn view_after_present<D>(v: Option<D>, s: ResizeState) -> Option<D> {
    if present_action(s) == PresentAction::NotReady {
        v
    } else {
        None
    }
}

/// Whether a present request in resize state `s` may be made with `v` open: every present that
/// is not refused needs a drawable.
pub open spec fn present_allowed<D>(v: Option<D>, s: ResizeState) -> bool {
    present_action(s) != PresentAction::NotReady ==> v is Some
}

impl<D> FrameSurface<D> {
    /// The drawable open, if any.
    pub closed spec fn view(&self) -> Option<D> {
        self.drawable
    }

    /// A surface with no drawable open.
    pub fn new() -> (r: Self)
        ensures
            r.view() is None,
    {
        FrameSurface { drawable: None }
    }

    /// Whether a drawable is open.
    pub fn is_open(&self) -> (r: bool)
        ensures
            r == (self.view() is Some),
    {
        self.drawable.is_some()
    }

    /// Begins the acquisition of a drawable in resize state `state`: decides the resize to
    /// carry out and hands back a drawable still open, so that it is destroyed before the
    /// next one is created.
    pub fn begin_frame(&mut self, state: ResizeState) -> (r: AcquirePlan<D>)
        ensures
            final(self).view() is None,
            r.stale == old(self).view(),
            r.next_state == state_after_acquire(state),
            r.resize_to == resize_on_acquire(state),
    {
        let (next_state, resize_to) = on_acquire_drawable(state);
        let stale = self.drawable.take();
        AcquirePlan { next_state, resize_to, stale }
    }

    /// Records `drawable` as the frame's open drawable.
    pub fn open(&mut self, drawable: D)
        requires
            old(self).view() is None,
        ensures
            final(self).view() == Some(drawable),
    {
        self.drawable = Some(drawable);
    }

    /// Decides a present request in resize state `state`. A refused frame keeps its drawable;
    /// otherwise the drawable is handed back to be destroyed.
    pub fn present(&mut self, state: ResizeState) -> (r: PresentPlan<D>)
        requires
            present_allowed(old(self).view(), state),
        ensures
            r.next_state == state_after_present(state),
            r.action == present_action(state),
            final(self).view() == view_after_present(old(self).view(), state),
            r.action == PresentAction::NotReady ==> r.drawable is None,
            r.action != PresentAction::NotReady ==> r.drawable == old(self).view()
                && r.drawable is Some,
    {
        let (next_state, action) = on_present(state);
        match action {
            PresentAction::NotReady => PresentPlan { next_state, action, drawable: None },
            _ => {
                let drawable = self.drawable.take();
                PresentPlan { next_state, action, drawable }
            },
        }
    }
}

} // verus!
