use flion::resize::{
    on_acquire_drawable, on_present, on_resize_notification, resize_for_rect, waiter_released,
    PresentAction, ResizeState,
};
use flion::surface::FrameSurface;

#[test]
fn resize_mid_frame_unblocks_after_one_frame() {
    // idle at 800x600
    let state = ResizeState::Done;
    assert!(waiter_released(state));
    let state = on_resize_notification(state, 1024, 768);
    assert_eq!(state, ResizeState::Started(1024, 768));
    assert!(!waiter_released(state));
    let (state, resize_to) = on_acquire_drawable(state);
    assert_eq!(resize_to, Some((1024, 768)));
    assert_eq!(state, ResizeState::FrameGenerated);
    assert!(!waiter_released(state));
    let (state, action) = on_present(state);
    assert_eq!(action, PresentAction::PresentSyncedAndRelease);
    assert_eq!(state, ResizeState::Done);
    assert!(waiter_released(state));
    // the next frame is an ordinary one and wakes nobody
    let (state, resize_to) = on_acquire_drawable(state);
    assert_eq!(resize_to, None);
    let (state, action) = on_present(state);
    assert_eq!(action, PresentAction::Present);
    assert_eq!(state, ResizeState::Done);
}

#[test]
fn present_refused_while_resize_started() {
    let state = on_resize_notification(ResizeState::FrameGenerated, 300, 200);
    let (next, action) = on_present(state);
    assert_eq!(action, PresentAction::NotReady);
    assert_eq!(next, ResizeState::Started(300, 200));
}

#[test]
fn later_resize_replaces_one_in_flight() {
    let state = on_resize_notification(ResizeState::Done, 640, 480);
    let state = on_resize_notification(state, 1280, 720);
    let (state, resize_to) = on_acquire_drawable(state);
    assert_eq!(resize_to, Some((1280, 720)));
    assert_eq!(state, ResizeState::FrameGenerated);
}

#[test]
fn frame_surface_cycle_keeps_one_drawable() {
    let mut surface: FrameSurface<u32> = FrameSurface::new();
    assert!(!surface.is_open());
    let plan = surface.begin_frame(ResizeState::Started(1024, 768));
    assert_eq!(plan.stale, None);
    assert_eq!(plan.resize_to, Some((1024, 768)));
    assert_eq!(plan.next_state, ResizeState::FrameGenerated);
    surface.open(1);
    assert!(surface.is_open());
    let plan = surface.present(ResizeState::FrameGenerated);
    assert_eq!(plan.action, PresentAction::PresentSyncedAndRelease);
    assert_eq!(plan.drawable, Some(1));
    assert_eq!(plan.next_state, ResizeState::Done);
    assert!(!surface.is_open());
}

#[test]
fn refused_frame_keeps_drawable_until_next_acquire() {
    let mut surface: FrameSurface<u32> = FrameSurface::new();
    let _ = surface.begin_frame(ResizeState::Done);
    surface.open(7);
    let plan = surface.present(ResizeState::Started(10, 10));
    assert_eq!(plan.action, PresentAction::NotReady);
    assert_eq!(plan.drawable, None);
    assert!(surface.is_open());
    let plan = surface.begin_frame(ResizeState::Started(10, 10));
    assert_eq!(plan.stale, Some(7));
    assert!(!surface.is_open());
    surface.open(8);
    let plan = surface.present(plan.next_state);
    assert_eq!(plan.drawable, Some(8));
    assert_eq!(plan.next_state, ResizeState::Done);
}

#[test]
fn window_rect_gives_resize_size() {
    assert_eq!(resize_for_rect(10, 20, 1034, 788), Some((1024, 768)));
    assert_eq!(resize_for_rect(0, 0, 0, 600), None);
    assert_eq!(resize_for_rect(0, 10, 800, 5), None);
    assert_eq!(resize_for_rect(i32::MIN, i32::MIN, i32::MAX, i32::MAX), Some((u32::MAX, u32::MAX)));
}

#[test]
fn largest_resize_is_carried_to_acquire() {
    let state = on_resize_notification(ResizeState::Done, u32::MAX, u32::MAX);
    let (_, resize_to) = on_acquire_drawable(state);
    assert_eq!(resize_to, Some((u32::MAX, u32::MAX)));
}
