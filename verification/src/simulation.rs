//! The running simulation: what the user's input asks of it.
use crate::physics::universe::{Phase, Speed, Universe, ACCELERATIONS, DEFAULT_PRESET};
use crate::render::camera::{Camera, TrackingMode, ZoomState, ZOOM_STEPS};
use crate::render::renderer::{RenderPhase, Renderer};
use crate::render::trace::SPAWN_INTERVAL;
use crate::scalar::{Real, Vector2};
use vstd::prelude::*;

verus! {

/// A key of the keyboard, as far as the simulation tells them apart.
#[derive(Clone, Copy, PartialEq, Eq, Structural, Debug)]
pub enum Key {
    Comma,
    Period,
    P,
    Other,
}

/// Whether a key went down or came up.
#[derive(Clone, Copy, PartialEq, Eq, Structural, Debug)]
pub enum ButtonState {
    Press,
    Release,
}

/// The direction in which the mouse wheel was turned.
#[derive(Clone, Copy, PartialEq, Eq, Structural, Debug)]
pub enum Scroll {
    Up,
    Down,
    Still,
}

/// What the user did.
#[derive(Clone, Copy, PartialEq, Eq, Structural, Debug)]
pub enum Input {
    MouseScroll(Scroll),
    Keyboard(Key, ButtonState),
}

/// What the simulation can be asked to do.
#[derive(Clone, Copy, PartialEq, Eq, Structural, Debug)]
pub enum Command {
    ZoomIn,
    ZoomOut,
    SpeedUp,
    SlowDown,
    TogglePause,
}

/// What `input` asks for. The wheel zooms: in when turned up, out when
/// turned down. Comma makes time slower and period faster, when the key
/// goes down and again when it comes up. P pauses and resumes when it goes
/// down.
pub open spec fn spec_command_for(input: Input) -> Option<Command> {
    match input {
        Input::MouseScroll(Scroll::Up) => Some(Command::ZoomIn),
        Input::MouseScroll(Scroll::Down) => Some(Command::ZoomOut),
        Input::MouseScroll(Scroll::Still) => None,
        Input::Keyboard(Key::Comma, _) => Some(Command::SlowDown),
        Input::Keyboard(Key::Period, _) => Some(Command::SpeedUp),
        Input::Keyboard(Key::P, ButtonState::Press) => Some(Command::TogglePause),
        Input::Keyboard(Key::P, ButtonState::Release) => None,
        Input::Keyboard(Key::Other, _) => None,
    }
}

/// What `input` asks for.
#[verifier::when_used_as_spec(spec_command_for)]
pub fn command_for(input: Input) -> (command: Option<Command>)
    ensures
        command == spec_command_for(input),
{
    match input {
        Input::MouseScroll(scroll) => match scroll {
            Scroll::Up => Some(Command::ZoomIn),
            Scroll::Down => Some(Command::ZoomOut),
            Scroll::Still => None,
        },
        Input::Keyboard(key, state) => match key {
            Key::Comma => Some(Command::SlowDown),
            Key::Period => Some(Command::SpeedUp),
            Key::P => match state {
                ButtonState::Press => Some(Command::TogglePause),
                ButtonState::Release => None,
            },
            Key::Other => None,
        },
    }
}

/// The stage on which the simulation runs: what renders it and what keeps
/// its time.
pub struct SimulationStage {
    pub renderer: Renderer,
    pub universe: Universe,
}

impl SimulationStage {
    /// A stage with a camera at zoom `zoom` that follows nothing and
    /// changes its zoom by `zoom_step`, and with time at the default
    /// preset.
    pub fn new(zoom: Real, zoom_step: Real) -> (s: Self)
        ensures
            s.renderer.camera_system.camera.zoom@ == ZoomState::resting(zoom),
            s.renderer.camera_system.camera.zoom_step == zoom_step,
            s.renderer.camera_system.camera.focus == Vector2::spec_zero(),
            s.renderer.camera_system.camera.tracking == TrackingMode::Fixed,
            s.renderer.trace_spawn_system@ == SPAWN_INTERVAL,
            s.renderer.due == RenderPhase::Zoom,
            s.universe.due() == Phase::Reset,
            s.universe@ == (Speed {
                scale: Real { bits: ACCELERATIONS[DEFAULT_PRESET as int] },
                selected: DEFAULT_PRESET as nat,
            }),
    {
        let camera = Camera::fixed(zoom, zoom_step);
        let renderer = Renderer::camera(camera);
        let universe = Universe::new();
        SimulationStage { renderer, universe }
    }

    /// Does what `command` asks. A command to zoom makes the camera change
    /// its zoom to `zoom_target`, which the host has computed: the zoom now
    /// plus the camera's zoom step to zoom in, minus it to zoom out. The
    /// other commands change the speed of time and do not use
    /// `zoom_target`.
    pub fn execute(&mut self, command: Command, zoom_target: Real)
        ensures
            final(self).renderer.trace_spawn_system@ == old(self).renderer.trace_spawn_system@,
            final(self).renderer.due == old(self).renderer.due,
            final(self).renderer.camera_system.camera.zoom_step == old(
                self,
            ).renderer.camera_system.camera.zoom_step,
            final(self).renderer.camera_system.camera.focus == old(
                self,
            ).renderer.camera_system.camera.focus,
            final(self).renderer.camera_system.camera.tracking == old(
                self,
            ).renderer.camera_system.camera.tracking,
            final(self).renderer.camera_system.camera.zoom@ == (match command {
                Command::ZoomIn | Command::ZoomOut => old(
                    self,
                ).renderer.camera_system.camera.zoom@.changing(zoom_target, ZOOM_STEPS as nat),
                _ => old(self).renderer.camera_system.camera.zoom@,
            }),
            final(self).universe.due() == old(self).universe.due(),
            final(self).universe@ == (match command {
                Command::SpeedUp => old(self).universe@.speed_up(),
                Command::SlowDown => old(self).universe@.slow_down(),
                Command::TogglePause => old(self).universe@.toggle_pause(),
                _ => old(self).universe@,
            }),
    {
        match command {
            Command::ZoomIn => {
                self.renderer.camera_system.camera.zoom_in(zoom_target);
            },
            Command::ZoomOut => {
                self.renderer.camera_system.camera.zoom_out(zoom_target);
            },
            Command::SpeedUp => {
                self.universe.speed_up();
            },
            Command::SlowDown => {
                self.universe.slow_down();
            },
            Command::TogglePause => {
                self.universe.toggle_pause();
            },
        }
    }
}

} // verus!
