//! The hand-over between the UI thread, which blocks while the window is being resized, and
//! the render thread, which must finish exactly one frame at the new size before the UI thread
//! may go on.
use vstd::prelude::*;

verus! {

/// Where a live resize stands.
#[derive(Clone, Copy, Debug, PartialEq, Eq, Structural)]
pub enum ResizeState {
    /// A resize to `(width, height)` was announced; no frame of that size exists yet.
    Started(u32, u32),
    /// The surfaces were given the new size and a frame at that size is being drawn.
    FrameGenerated,
    /// No resize is pending: the initial state, and the one a waiting UI thread waits for.
    Done,
}

/// What the render thread does when the engine asks it to present the current frame.
#[derive(Clone, Copy, Debug, PartialEq, Eq, Structural)]
pub enum PresentAction {
    /// A resize was announced after the frame was begun: the frame has the old size, so it is
    /// refused and the engine tries again.
    NotReady,
    /// An ordinary frame: present it.
    Present,
    /// The first frame at a new size: present it, wait for the display compositor to take it,
    /// then wake the waiting UI thread.
    PresentSyncedAndRelease,
}

/// The state after a resize notification of `width` × `height`: a later resize replaces one
/// still in flight.
pub open spec fn state_after_notification(width: u32, height: u32) -> ResizeState {
    ResizeState::Started(width, height)
}

/// The state after the render thread acquired a drawable for the next frame.
pub open spec fn state_after_acquire(s: ResizeState) -> ResizeState {
    match s {
        ResizeState::Started(_, _) => ResizeState::FrameGenerated,
        _ => s,
    }
}

/// The size that the surfaces are given when a drawable is acquired in state `s`.
pub open spec fn resize_on_acquire(s: ResizeState) -> Option<(u32, u32)> {
    match s {
        ResizeState::Started(w, h) => Some((w, h)),
        _ => None,
    }
}

/// What a present request does in state `s`.
pub open spec fn present_action(s: ResizeState) -> PresentAction {
    match s {
        ResizeState::Started(_, _) => PresentAction::NotReady,
        ResizeState::FrameGenerated => PresentAction::PresentSyncedAndRelease,
        ResizeState::Done => PresentAction::Present,
    }
}

/// The state after a present request in state `s`.
pub open spec fn state_after_present(s: ResizeState) -> ResizeState {
    match s {
        ResizeState::FrameGenerated => ResizeState::Done,
        _ => s,
    }
}

/// The transitions that the state machine may take; staying put is always allowed.
pub open spec fn allowed_transition(pre: ResizeState, post: ResizeState) -> bool {
    ||| post == pre
    ||| (pre is Done && post is Started)
    ||| (pre is Started && post is FrameGenerated)
    ||| (pre is FrameGenerated && post is Done)
    // a newer resize replaces one in flight
    ||| (!(pre is Done) && post is Started)
}

/// The size of a window rectangle, when it is not empty.
pub open spec fn rect_size(left: i32, top: i32, right: i32, bottom: i32) -> Option<(u32, u32)> {
    if right > left && bottom > top {
        Some(((right - left) as u32, (bottom - top) as u32))
    } else {
        None
    }
}

/// The size a resize notification announces for the window rectangle `left, top, right,
/// bottom`; an empty rectangle (a minimised window) announces none.
pub fn resize_for_rect(left: i32, top: i32, right: i32, bottom: i32) -> (r: Option<(u32, u32)>)
    ensures
        r == rect_size(left, top, right, bottom),
        r matches Some((w, h)) ==> w == right - left && h == bottom - top,
{
    if right > left && bottom > top {
        let w = (right as i64 - left as i64) as u32;
        let h = (bottom as i64 - top as i64) as u32;
        Some((w, h))
    } else {
        None
    }
}

/// The state after the UI thread received a resize notification of `width` × `height`.
pub fn on_resize_notification(state: ResizeState, width: u32, height: u32) -> (r: ResizeState)
    ensures
        r == state_after_notification(width, height),
{
    ResizeState::Started(width, height)
}

/// Called when the render thread acquires a drawable for a frame. Returns the next state, and
/// the size that the compositor surfaces must be given first, if a resize is pending.
pub fn on_acquire_drawable(state: ResizeState) -> (r: (ResizeState, Option<(u32, u32)>))
    ensures
        r.0 == state_after_acquire(state),
        r.1 == resize_on_acquire(state),
{
    match state {
        ResizeState::Started(w, h) => (ResizeState::FrameGenerated, Some((w, h))),
        _ => (state, None),
    }
}

/// Called when the engine asks to present the frame. Returns the next state and what to do.
pub fn on_present(state: ResizeState) -> (r: (ResizeState, PresentAction))
    ensures
        r.0 == state_after_present(state),
        r.1 == present_action(state),
{
    match state {
        ResizeState::Started(_, _) => (state, PresentAction::NotReady),
        ResizeState::FrameGenerated => (ResizeState::Done, PresentAction::PresentSyncedAndRelease),
        ResizeState::Done => (state, PresentAction::Present),
    }
}

/// Whether a UI thread that waits on the resize may go on.
pub fn waiter_released(state: ResizeState) -> (r: bool)
    ensures
        r == (state is Done),
{
    match state {
        ResizeState::Done => true,
        _ => false,
    }
}

/// Every event moves the state only along an allowed transition, and a waiter is woken only
/// by a present that enters `Done` from `FrameGenerated`.
pub proof fn lemma_transitions_allowed(s: ResizeState, width: u32, height: u32)
    ensures
        allowed_transition(s, state_after_notification(width, height)),
        allowed_transition(s, state_after_acquire(s)),
        allowed_transition(s, state_after_present(s)),
        present_action(s) == PresentAction::PresentSyncedAndRelease <==> (s is FrameGenerated
            && state_after_present(s) is Done),
        state_after_present(s) is Done && !(s is Done) ==> s is FrameGenerated,
{
}

/// One resize notification followed by one frame cycle (acquire, then present) goes
/// `Started → FrameGenerated → Done` from any state, sizes the surfaces to the announced size,
/// and wakes the waiter exactly once: the waiter is held until `Done`, and a further present
/// wakes nobody.
pub proof fn lemma_resize_then_frame(s: ResizeState, width: u32, height: u32)
    ensures
        ({
            let s1 = state_after_notification(width, height);
            let s2 = state_after_acquire(s1);
            let s3 = state_after_present(s2);
            &&& s1 == ResizeState::Started(width, height)
            &&& resize_on_acquire(s1) == Some((width, height))
            &&& s2 == ResizeState::FrameGenerated
            &&& s3 == ResizeState::Done
            &&& !(s1 is Done) && !(s2 is Done)
            &&& present_action(s2) == PresentAction::PresentSyncedAndRelease
            &&& present_action(s3) == PresentAction::Present
            &&& state_after_present(s3) == ResizeState::Done
        }),
{
}

/// A resize announced after the frame's drawable was acquired (between acquire and present):
/// the frame is refused without losing the resize, and the next frame cycle completes it and
/// wakes the waiter exactly once.
pub proof fn lemma_resize_during_frame(width: u32, height: u32)
    ensures
        ({
            let s1 = state_after_notification(width, height);
            &&& present_action(s1) == PresentAction::NotReady
            &&& state_after_present(s1) == s1
            &&& resize_on_acquire(state_after_present(s1)) == Some((width, height))
            &&& state_after_acquire(state_after_present(s1)) == ResizeState::FrameGenerated
            &&& present_action(state_after_acquire(s1)) == PresentAction::PresentSyncedAndRelease
            &&& state_after_present(state_after_acquire(s1)) == ResizeState::Done
        }),
{
}

} // verus!
