use particle_advection::field_texture::FieldRefresh;
use particle_advection::input::{plan_redraw, RedrawPlan};
use particle_advection::input::{
    frame_decision, FrameDecision, InputAction, InputEvent, InputState, Key, SurfaceStatus,
};

#[test]
fn drag_orbits_between_positions() {
    let mut s: InputState<(f32, f32)> = InputState::new(true);
    assert_eq!(s.handle(InputEvent::CursorMoved((1.0, 1.0))), InputAction::Nothing);
    assert_eq!(s.handle(InputEvent::LeftButton { pressed: true }), InputAction::Nothing);
    assert_eq!(s.handle(InputEvent::CursorMoved((2.0, 3.0))), InputAction::Orbit { from: (1.0, 1.0), to: (2.0, 3.0) });
    assert_eq!(s.handle(InputEvent::CursorMoved((5.0, 3.0))), InputAction::Orbit { from: (2.0, 3.0), to: (5.0, 3.0) });
    assert_eq!(s.last_mouse, Some((5.0, 3.0)));
}

#[test]
fn release_clears_last_position() {
    let mut s: InputState<(f32, f32)> = InputState::new(true);
    s.handle(InputEvent::LeftButton { pressed: true });
    s.handle(InputEvent::CursorMoved((1.0, 1.0)));
    assert_eq!(s.handle(InputEvent::LeftButton { pressed: false }), InputAction::Nothing);
    assert!(!s.mouse_pressed);
    assert_eq!(s.last_mouse, None);
    assert_eq!(s.handle(InputEvent::CursorMoved((4.0, 4.0))), InputAction::Nothing);
    // pressing again: the first move only records the position
    s.handle(InputEvent::LeftButton { pressed: true });
    assert_eq!(s.last_mouse, Some((4.0, 4.0)));
    assert_eq!(s.handle(InputEvent::CursorMoved((6.0, 4.0))), InputAction::Orbit { from: (4.0, 4.0), to: (6.0, 4.0) });
}

#[test]
fn s_toggles_streamlines() {
    let mut s: InputState<(f32, f32)> = InputState::new(true);
    assert_eq!(s.handle(InputEvent::KeyPressed(Key::S)), InputAction::SetStreamlines { visible: false });
    assert!(!s.streamlines_visible);
    assert_eq!(s.handle(InputEvent::KeyPressed(Key::S)), InputAction::SetStreamlines { visible: true });
    assert!(s.streamlines_visible);
}

#[test]
fn t_toggles_field_source() {
    let mut s: InputState<(f32, f32)> = InputState::new(true);
    assert!(!s.field_from_texture);
    assert_eq!(s.handle(InputEvent::KeyPressed(Key::T)), InputAction::SetFieldSource { texture: true });
    assert!(s.field_from_texture);
    assert!(s.streamlines_visible);
    assert_eq!(s.handle(InputEvent::KeyPressed(Key::T)), InputAction::SetFieldSource { texture: false });
    assert!(!s.field_from_texture);
}

#[test]
fn exit_and_other_events() {
    let mut s: InputState<(f32, f32)> = InputState::new(false);
    assert_eq!(s.handle(InputEvent::CloseRequested), InputAction::Exit);
    assert_eq!(s.handle(InputEvent::KeyPressed(Key::Escape)), InputAction::Exit);
    assert_eq!(s.handle(InputEvent::KeyPressed(Key::Other)), InputAction::Nothing);
    assert_eq!(s.handle(InputEvent::Resized { width: 800, height: 600 }), InputAction::Resize { width: 800, height: 600 });
    assert_eq!(s.handle(InputEvent::Wheel), InputAction::Zoom);
    assert_eq!(s.handle(InputEvent::RedrawRequested), InputAction::Redraw);
    assert_eq!(s.handle(InputEvent::Other), InputAction::Nothing);
    assert!(!s.streamlines_visible);
    assert!(!s.mouse_pressed);
}

#[test]
fn surface_status_decisions() {
    assert_eq!(frame_decision(SurfaceStatus::Success), FrameDecision::Render);
    assert_eq!(frame_decision(SurfaceStatus::Occluded), FrameDecision::Skip);
    assert_eq!(frame_decision(SurfaceStatus::Timeout), FrameDecision::Skip);
    assert_eq!(frame_decision(SurfaceStatus::Suboptimal), FrameDecision::Reconfigure);
    assert_eq!(frame_decision(SurfaceStatus::Outdated), FrameDecision::Reconfigure);
    assert_eq!(frame_decision(SurfaceStatus::Lost), FrameDecision::Recreate);
}

#[test]
fn redraw_plan_draws_streamlines_and_refreshes() {
    let mut s: InputState<(f32, f32)> = InputState::new(true);
    let mut r = FieldRefresh::new(0);
    let plan = plan_redraw(&s, &mut r, SurfaceStatus::Success, 600);
    assert_eq!(plan, RedrawPlan { frame: FrameDecision::Render, refresh_field: false, draw_streamlines: true });
    s.handle(InputEvent::KeyPressed(Key::T));
    s.handle(InputEvent::KeyPressed(Key::S));
    let plan = plan_redraw(&s, &mut r, SurfaceStatus::Success, 700);
    assert_eq!(plan, RedrawPlan { frame: FrameDecision::Render, refresh_field: true, draw_streamlines: false });
    assert_eq!(r.last_upload_ms, 700);
    // a skipped frame neither refreshes nor draws
    let plan = plan_redraw(&s, &mut r, SurfaceStatus::Occluded, 1500);
    assert_eq!(plan, RedrawPlan { frame: FrameDecision::Skip, refresh_field: false, draw_streamlines: false });
    assert_eq!(r.last_upload_ms, 700);
    let plan = plan_redraw(&s, &mut r, SurfaceStatus::Lost, 1500);
    assert_eq!(plan.frame, FrameDecision::Recreate);
    let plan = plan_redraw(&s, &mut r, SurfaceStatus::Success, 1500);
    assert!(plan.refresh_field);
    assert_eq!(r.last_upload_ms, 1500);
}
