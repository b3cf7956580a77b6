use vstd::prelude::*;
use crate::field_texture::{FieldRefresh, FIELD_REFRESH_MS};

verus! {

/// The keys the viewer reacts to.
#[derive(Clone, Copy, Debug, PartialEq, Eq)]
pub enum Key {
    Escape,
    S,
    T,
    Other,
}

/// A window event, reduced to what the viewer decides on. `P` is a cursor
/// position; the viewer only stores and hands back positions.
#[derive(Clone, Copy, Debug, PartialEq)]
pub enum InputEvent<P> {
    CloseRequested,
    Resized { width: u32, height: u32 },
    /// A key went down (key releases are not events of the viewer).
    KeyPressed(Key),
    /// The left mouse button went down or up.
    LeftButton { pressed: bool },
    CursorMoved(P),
    /// The mouse wheel turned.
    Wheel,
    RedrawRequested,
    Other,
}

/// What the window loop does in answer to an event.
#[derive(Clone, Copy, Debug, PartialEq)]
pub enum InputAction<P> {
    Nothing,
    Exit,
    /// Resize the surface and the camera's aspect, then redraw.
    Resize { width: u32, height: u32 },
    /// Show or hide the streamlines.
    SetStreamlines { visible: bool },
    /// Sample the vector field from the 3D texture (`true`) or evaluate it
    /// analytically (`false`).
    SetFieldSource { texture: bool },
    /// Orbit the camera by the cursor's move from `from` to `to`.
    Orbit { from: P, to: P },
    /// Zoom the camera by the wheel's turn.
    Zoom,
    /// Advance the simulation and draw a frame.
    Redraw,
}

/// What the viewer remembers between events.
#[derive(Clone, Copy, Debug)]
pub struct InputState<P> {
    /// The left button is held.
    pub mouse_pressed: bool,
    /// Where the cursor was last seen, if it was seen since the button was
    /// last released.
    pub last_mouse: Option<P>,
    /// The streamlines are drawn.
    pub streamlines_visible: bool,
    /// The field is looked up in the 3D texture rather than evaluated.
    pub field_from_texture: bool,
}

impl<P: Copy> InputState<P> {
    /// The state after `event`, and the action it asks for.
    pub open spec fn step(self, event: InputEvent<P>) -> (InputState<P>, InputAction<P>) {
        match event {
            InputEvent::CloseRequested => (self, InputAction::Exit),
            InputEvent::Resized { width, height } => (
                self,
                InputAction::Resize { width, height },
            ),
            InputEvent::KeyPressed(Key::Escape) => (self, InputAction::Exit),
            InputEvent::KeyPressed(Key::S) => (
                InputState { streamlines_visible: !self.streamlines_visible, ..self },
                InputAction::SetStreamlines { visible: !self.streamlines_visible },
            ),
            InputEvent::KeyPressed(Key::T) => (
                InputState { field_from_texture: !self.field_from_texture, ..self },
                InputAction::SetFieldSource { texture: !self.field_from_texture },
            ),
            InputEvent::KeyPressed(Key::Other) => (self, InputAction::Nothing),
            InputEvent::LeftButton { pressed } => (
                InputState {
                    mouse_pressed: pressed,
                    last_mouse: if pressed {
                        self.last_mouse
                    } else {
                        None
                    },
                    ..self
                },
                InputAction::Nothing,
            ),
            InputEvent::CursorMoved(pos) => (
                InputState { last_mouse: Some(pos), ..self },
                match self.last_mouse {
                    Some(from) if self.mouse_pressed => InputAction::Orbit { from, to: pos },
                    _ => InputAction::Nothing,
                },
            ),
            InputEvent::Wheel => (self, InputAction::Zoom),
            InputEvent::RedrawRequested => (self, InputAction::Redraw),
            InputEvent::Other => (self, InputAction::Nothing),
        }
    }

    /// The state when the window opens: no button held, no cursor position
    /// known, the field evaluated analytically.
    pub fn new(streamlines_visible: bool) -> (state: Self)
        ensures
            state.mouse_pressed == false,
            state.last_mouse == None::<P>,
            state.streamlines_visible == streamlines_visible,
            state.field_from_texture == false,
    {
        InputState {
            mouse_pressed: false,
            last_mouse: None,
            streamlines_visible,
            field_from_texture: false,
        }
    }

    /// Takes in one window event: updates the state and says what to do.
    pub fn handle(&mut self, event: InputEvent<P>) -> (action: InputAction<P>)
        ensures
            (*final(self), action) == old(self).step(event),
    {
        match event {
            InputEvent::CloseRequested => InputAction::Exit,
            InputEvent::Resized { width, height } => InputAction::Resize { width, height },
            InputEvent::KeyPressed(key) => match key {
                Key::Escape => InputAction::Exit,
                Key::S => {
                    self.streamlines_visible = !self.streamlines_visible;
                    InputAction::SetStreamlines { visible: self.streamlines_visible }
                },
                Key::T => {
                    self.field_from_texture = !self.field_from_texture;
                    InputAction::SetFieldSource { texture: self.field_from_texture }
                },
                Key::Other => InputAction::Nothing,
            },
            InputEvent::LeftButton { pressed } => {
                self.mouse_pressed = pressed;
                if !self.mouse_pressed {
                    self.last_mouse = None;
                }
                InputAction::Nothing
            },
            InputEvent::CursorMoved(pos) => {
                let mut action = InputAction::Nothing;
                if self.mouse_pressed {
                    if let Some(last) = self.last_mouse {
                        action = InputAction::Orbit { from: last, to: pos };
                    }
                }
                self.last_mouse = Some(pos);
                action
            },
            InputEvent::Wheel => InputAction::Zoom,
            InputEvent::RedrawRequested => InputAction::Redraw,
            InputEvent::Other => InputAction::Nothing,
        }
    }
}

/// The camera orbits only while the left button is held, by the move from
/// the last position seen to the new one.
pub proof fn lemma_orbit_only_while_dragging<P: Copy>(
    s: InputState<P>,
    event: InputEvent<P>,
    from: P,
    to: P,
)
    requires
        s.step(event).1 == (InputAction::Orbit { from, to }),
    ensures
        s.mouse_pressed,
        s.last_mouse == Some(from),
        event == InputEvent::CursorMoved(to),
{
}

/// Once the button is released, moving the cursor does not orbit.
pub proof fn lemma_release_stops_orbit<P: Copy>(s: InputState<P>, pos: P)
    ensures
        ({
            let released = s.step(InputEvent::LeftButton { pressed: false }).0;
            &&& !released.mouse_pressed
            &&& released.last_mouse == None::<P>
            &&& released.step(InputEvent::CursorMoved(pos)).1 == InputAction::<P>::Nothing
        }),
{
}

/// Two moves in a row with the button held orbit the camera from the first
/// position to the second.
pub proof fn lemma_drag_orbits_between_moves<P: Copy>(s: InputState<P>, a: P, b: P)
    requires
        s.mouse_pressed,
    ensures
        ({
            let after_a = s.step(InputEvent::CursorMoved(a)).0;
            after_a.step(InputEvent::CursorMoved(b)).1 == (InputAction::Orbit { from: a, to: b })
        }),
{
}

/// Pressing S twice leaves the streamlines as they were, pressing T twice
/// leaves the field source as it was, and each press reports the setting it
/// makes.
pub proof fn lemma_toggle_twice<P: Copy>(s: InputState<P>)
    ensures
        ({
            let (once, first) = s.step(InputEvent::KeyPressed(Key::S));
            let (twice, second) = once.step(InputEvent::KeyPressed(Key::S));
            &&& twice == s
            &&& first == InputAction::<P>::SetStreamlines { visible: !s.streamlines_visible }
            &&& second == InputAction::<P>::SetStreamlines { visible: s.streamlines_visible }
        }),
        ({
            let (once, first) = s.step(InputEvent::KeyPressed(Key::T));
            let (twice, second) = once.step(InputEvent::KeyPressed(Key::T));
            &&& twice == s
            &&& first == InputAction::<P>::SetFieldSource { texture: !s.field_from_texture }
            &&& second == InputAction::<P>::SetFieldSource { texture: s.field_from_texture }
        }),
{
}

/// The viewer exits only on a close request or on Escape, no event but S
/// changes whether the streamlines are shown, and no event but T changes
/// where the field comes from.
pub proof fn lemma_exit_and_settings<P: Copy>(s: InputState<P>, event: InputEvent<P>)
    ensures
        s.step(event).1 == InputAction::<P>::Exit <==> (event == InputEvent::<P>::CloseRequested
            || event == InputEvent::<P>::KeyPressed(Key::Escape)),
        event != InputEvent::<P>::KeyPressed(Key::S) ==> s.step(event).0.streamlines_visible
            == s.streamlines_visible,
        event != InputEvent::<P>::KeyPressed(Key::T) ==> s.step(event).0.field_from_texture
            == s.field_from_texture,
{
}

/// Events that only ask for an action leave the state as it was: a wheel
/// turn always zooms, a redraw request always advances and draws a frame, a
/// resize always resizes to the new size, a close request always exits, and
/// other events do nothing, whatever the button, streamline and field
/// settings are.
pub proof fn lemma_stateless_events<P: Copy>(s: InputState<P>, width: u32, height: u32)
    ensures
        s.step(InputEvent::Wheel) == (s, InputAction::<P>::Zoom),
        s.step(InputEvent::RedrawRequested) == (s, InputAction::<P>::Redraw),
        s.step(InputEvent::Resized { width, height }) == (s, InputAction::<P>::Resize {
            width,
            height,
        }),
        s.step(InputEvent::CloseRequested) == (s, InputAction::<P>::Exit),
        s.step(InputEvent::KeyPressed(Key::Escape)) == (s, InputAction::<P>::Exit),
        s.step(InputEvent::KeyPressed(Key::Other)) == (s, InputAction::<P>::Nothing),
        s.step(InputEvent::Other) == (s, InputAction::<P>::Nothing),
{
}

/// The left button sets whether it is held; pressing keeps the last cursor
/// position, releasing forgets it. A cursor move records the new position
/// and leaves the button as it was. Neither touches the streamline or field
/// settings.
pub proof fn lemma_button_and_cursor<P: Copy>(s: InputState<P>, pressed: bool, pos: P)
    ensures
        ({
            let (b, act) = s.step(InputEvent::LeftButton { pressed });
            &&& act == InputAction::<P>::Nothing
            &&& b.mouse_pressed == pressed
            &&& b.last_mouse == (if pressed {
                s.last_mouse
            } else {
                None
            })
            &&& b.streamlines_visible == s.streamlines_visible
            &&& b.field_from_texture == s.field_from_texture
        }),
        ({
            let (m, act) = s.step(InputEvent::CursorMoved(pos));
            &&& m.last_mouse == Some(pos)
            &&& m.mouse_pressed == s.mouse_pressed
            &&& m.streamlines_visible == s.streamlines_visible
            &&& m.field_from_texture == s.field_from_texture
            &&& (act == InputAction::<P>::Nothing || act is Orbit)
            &&& (s.mouse_pressed && s.last_mouse is Some) ==> act == (InputAction::Orbit {
                from: s.last_mouse->0,
                to: pos,
            })
            &&& !(s.mouse_pressed && s.last_mouse is Some) ==> act == InputAction::<P>::Nothing
        }),
{
}

/// What the surface reported when a frame was asked of it.
#[derive(Clone, Copy, Debug, PartialEq, Eq)]
pub enum SurfaceStatus {
    Success,
    Suboptimal,
    Occluded,
    Timeout,
    Outdated,
    Lost,
    Validation,
}

/// What the redraw does with the surface's answer.
#[derive(Clone, Copy, Debug, PartialEq, Eq)]
pub enum FrameDecision {
    /// Render into the frame and present it.
    Render,
    /// Draw nothing this time.
    Skip,
    /// Configure the surface again and draw nothing this time.
    Reconfigure,
    /// Create the surface anew, configure it, and draw nothing this time.
    Recreate,
}

/// The decision on each status that can be reported.
pub open spec fn decision_for(status: SurfaceStatus) -> FrameDecision {
    match status {
        SurfaceStatus::Success => FrameDecision::Render,
        SurfaceStatus::Occluded | SurfaceStatus::Timeout => FrameDecision::Skip,
        SurfaceStatus::Suboptimal | SurfaceStatus::Outdated => FrameDecision::Reconfigure,
        _ => FrameDecision::Recreate,
    }
}

/// How a redraw reacts to the surface's status. A validation failure cannot
/// be reported, since no error scope is registered: such a status is
/// outside the inputs.
pub fn frame_decision(status: SurfaceStatus) -> (decision: FrameDecision)
    requires
        status != SurfaceStatus::Validation,
    ensures
        decision == decision_for(status),
        decision == FrameDecision::Render <==> status == SurfaceStatus::Success,
        decision == FrameDecision::Skip <==> (status == SurfaceStatus::Occluded || status
            == SurfaceStatus::Timeout),
        decision == FrameDecision::Reconfigure <==> (status == SurfaceStatus::Suboptimal || status
            == SurfaceStatus::Outdated),
        decision == FrameDecision::Recreate <==> status == SurfaceStatus::Lost,
{
    match status {
        SurfaceStatus::Success => FrameDecision::Render,
        SurfaceStatus::Occluded | SurfaceStatus::Timeout => FrameDecision::Skip,
        SurfaceStatus::Suboptimal | SurfaceStatus::Outdated => FrameDecision::Reconfigure,
        SurfaceStatus::Lost => FrameDecision::Recreate,
        SurfaceStatus::Validation => vstd::pervasive::unreached(),
    }
}

/// What a redraw does: what becomes of the surface's frame, whether the
/// field texture is sampled and uploaded again first, and whether the
/// streamlines are drawn over the particles.
#[derive(Clone, Copy, Debug, PartialEq, Eq)]
pub struct RedrawPlan {
    pub frame: FrameDecision,
    pub refresh_field: bool,
    pub draw_streamlines: bool,
}

/// The plan of a redraw at `now_ms`, and the refresh tracker after it: only
/// a frame that is rendered refreshes the texture or draws streamlines.
pub open spec fn redraw_step<P>(
    state: InputState<P>,
    refresh: FieldRefresh,
    status: SurfaceStatus,
    now_ms: u64,
) -> (RedrawPlan, FieldRefresh) {
    let frame = decision_for(status);
    if frame == FrameDecision::Render {
        (
            RedrawPlan {
                frame,
                refresh_field: refresh.due(state.field_from_texture, now_ms),
                draw_streamlines: state.streamlines_visible,
            },
            refresh.after(state.field_from_texture, now_ms),
        )
    } else {
        (RedrawPlan { frame, refresh_field: false, draw_streamlines: false }, refresh)
    }
}

/// Plans a redraw at simulation time `now_ms` from the viewer's settings
/// and the surface's status, and records a texture upload if it plans one.
pub fn plan_redraw<P: Copy>(
    state: &InputState<P>,
    refresh: &mut FieldRefresh,
    status: SurfaceStatus,
    now_ms: u64,
) -> (plan: RedrawPlan)
    requires
        status != SurfaceStatus::Validation,
    ensures
        (plan, *final(refresh)) == redraw_step(*state, *old(refresh), status, now_ms),
{
    let frame = frame_decision(status);
    match frame {
        FrameDecision::Render => {
            let refresh_field = refresh.check(state.field_from_texture, now_ms);
            RedrawPlan { frame, refresh_field, draw_streamlines: state.streamlines_visible }
        },
        _ => RedrawPlan { frame, refresh_field: false, draw_streamlines: false },
    }
}

/// Whatever the viewer's settings and the refresh tracker, a redraw renders
/// exactly when the surface gave a frame, skips when it is occluded or timed
/// out, configures the surface again when it is suboptimal or outdated, and
/// creates it anew when it is lost. Only a rendered redraw refreshes the
/// texture or draws streamlines, and the tracker records an upload at
/// `now_ms` exactly when the plan refreshes the texture; otherwise it is
/// left as it was.
pub proof fn lemma_redraw_follows_surface<P>(
    state: InputState<P>,
    refresh: FieldRefresh,
    status: SurfaceStatus,
    now_ms: u64,
)
    requires
        status != SurfaceStatus::Validation,
    ensures
        ({
            let (plan, after) = redraw_step(state, refresh, status, now_ms);
            &&& plan.frame == FrameDecision::Render <==> status == SurfaceStatus::Success
            &&& plan.frame == FrameDecision::Skip <==> (status == SurfaceStatus::Occluded
                || status == SurfaceStatus::Timeout)
            &&& plan.frame == FrameDecision::Reconfigure <==> (status == SurfaceStatus::Suboptimal
                || status == SurfaceStatus::Outdated)
            &&& plan.frame == FrameDecision::Recreate <==> status == SurfaceStatus::Lost
            &&& status != SurfaceStatus::Success ==> !plan.refresh_field && !plan.draw_streamlines
            &&& status == SurfaceStatus::Success ==> plan.draw_streamlines
                == state.streamlines_visible
            &&& status == SurfaceStatus::Success ==> plan.refresh_field == (state.field_from_texture
                && now_ms >= refresh.last_upload_ms + FIELD_REFRESH_MS)
            &&& after == (if plan.refresh_field {
                FieldRefresh { last_upload_ms: now_ms }
            } else {
                refresh
            })
            &&& plan.refresh_field ==> state.field_from_texture && now_ms
                >= refresh.last_upload_ms + FIELD_REFRESH_MS
        }),
{
}

/// Every rendered frame draws the streamlines exactly when they are shown,
/// and, while the field comes from the texture, samples a texture less than
/// `FIELD_REFRESH_MS` old (as long as time does not run backwards). In that
/// mode a rendered redraw advances the refresh tracker by one step of
/// `refresh_run`, so the laws on runs of uploads hold of rendered redraws.
pub proof fn lemma_rendered_frames<P>(
    state: InputState<P>,
    refresh: FieldRefresh,
    status: SurfaceStatus,
    now_ms: u64,
)
    requires
        decision_for(status) == FrameDecision::Render,
        refresh.last_upload_ms <= now_ms,
    ensures
        ({
            let (plan, after) = redraw_step(state, refresh, status, now_ms);
            &&& plan.frame == FrameDecision::Render
            &&& plan.draw_streamlines == state.streamlines_visible
            &&& state.field_from_texture ==> now_ms - after.last_upload_ms < FIELD_REFRESH_MS
            &&& state.field_from_texture ==> after == refresh.after(true, now_ms)
            &&& state.field_from_texture ==> plan.refresh_field == refresh.due(true, now_ms)
            &&& after.last_upload_ms <= now_ms
        }),
{
}

} // verus!
