//! One render tick: what the systems find to draw, back to front.
use crate::physics::motion::Position;
use crate::render::background::{BackgroundComponent, BackgroundSystem};
use crate::render::camera::{
    focus_of, retargeted, with_projections, Camera, CameraError, CameraSystem, Focus,
};
use crate::render::name::{NameComponent, NameSystem};
use crate::render::render_box::{RenderBoxComponent, RenderingPosition};
use crate::render::sprite::{Sprite, SpriteSystem};
use crate::render::trace::{
    aged_traces_in, counted_down, decayed, oldest_first, traces_spawned, RenderTraceSystem,
    TraceComponent, TraceSpawnSystem, SPAWN_INTERVAL,
};
use crate::runtime::queries::{backgrounds_in, name_views, names_in, sprites_in, trace_views};
use crate::runtime::rows::lists;
use crate::runtime::world::{entries, EntityId, Entry};
use crate::scalar::Real;
use vstd::prelude::*;

verus! {

/// What is to be drawn in one render tick, in the order in which it is
/// drawn: the backgrounds, the traces, the bodies, and the names. All but
/// the backgrounds are shifted by `offset`, which brings the camera's focus
/// to the middle of the window.
pub struct Frame {
    pub backgrounds: Vec<(EntityId, BackgroundComponent)>,
    pub offset: Position,
    pub traces: Vec<(EntityId, (TraceComponent, RenderBoxComponent))>,
    pub bodies: Vec<(EntityId, (Sprite, RenderBoxComponent))>,
    pub labels: Vec<(EntityId, (NameComponent, RenderBoxComponent))>,
}

/// The steps of a render tick for which the host computes numbers, in
/// their order: the zoom is stepped, then the bodies are projected with the
/// zoom as it is then, then the focus is set. With the focus set, the
/// traces are spawned, the traces decay, and the frame is put together.
#[derive(Clone, Copy, PartialEq, Eq, Structural, Debug)]
pub enum RenderPhase {
    Zoom,
    Project,
    Focus,
}

/// What the host has computed for one step of a render tick.
pub enum RenderNumbers {
    /// For the zoom: the point between start and target for the step that
    /// `Camera::pending_zoom` names.
    Zoom(Real),
    /// For the projection: for each entity that has a place on the screen,
    /// its position at the camera's zoom.
    Positions(Vec<(EntityId, RenderingPosition)>),
    /// For the focus: the offset that brings what the camera looks at to
    /// the middle of the window.
    Offset(Position),
}

/// What a step of a render tick has come to.
pub enum Rendered {
    /// The zoom is stepped; the bodies are to be projected with it.
    Zoomed,
    /// The bodies are projected and the camera looks at this; the offset is
    /// to be computed from it.
    Focused(Focus),
    /// The tick is over, and this is to be drawn.
    Drawn(Frame),
}

/// Why a step of a render tick was not done.
#[derive(Clone, Copy, PartialEq, Eq, Structural, Debug)]
pub enum RenderError {
    /// The numbers are not those of the step that is due, which is this
    /// one.
    WrongNumbers(RenderPhase),
    /// The camera cannot look where it is told to.
    Camera(CameraError),
}

/// `numbers` are of the kind that the step `due` takes.
pub open spec fn fits(due: RenderPhase, numbers: RenderNumbers) -> bool {
    match due {
        RenderPhase::Zoom => numbers is Zoom,
        RenderPhase::Project => numbers is Positions,
        RenderPhase::Focus => numbers is Offset,
    }
}

/// The entities after the traces of one render tick are spawned: as
/// before in a tick in which `ticks`, the count of the spawning, is above
/// one, and with the new traces in the tick in which it is one.
pub open spec fn after_spawning(ticks: nat, before: Map<u64, Entry>, after: Map<u64, Entry>)
    -> bool {
    if ticks > 1 {
        after == before
    } else {
        traces_spawned(before, after)
    }
}

/// `frame` and `after` are what the end of a render tick makes of `before`,
/// with `ticks` as the count of the spawning: the traces are spawned, then
/// the traces age and those whose time is over are gone; the frame holds
/// the backgrounds, every trace as it was after aging, the oldest first,
/// and the bodies and names that are there in the end.
pub open spec fn renders(
    frame: Frame,
    before: Map<u64, Entry>,
    after: Map<u64, Entry>,
    ticks: nat,
) -> bool {
    &&& lists(frame.backgrounds@, backgrounds_in(before))
    &&& exists|with_traces: Map<u64, Entry>|
        {
            &&& #[trigger] after_spawning(ticks, before, with_traces)
            &&& after == decayed(with_traces)
            &&& lists(trace_views(frame.traces@), aged_traces_in(with_traces))
            &&& oldest_first(trace_views(frame.traces@))
        }
    &&& lists(frame.bodies@, sprites_in(after))
    &&& lists(name_views(frame.labels@), names_in(after))
}

/// The systems of the render tick, and the step of the tick that is due.
pub struct Renderer {
    pub camera_system: CameraSystem,
    pub circle_system: SpriteSystem,
    pub name_system: NameSystem,
    pub trace_system: RenderTraceSystem,
    pub trace_spawn_system: TraceSpawnSystem,
    pub background: BackgroundSystem,
    pub due: RenderPhase,
}

impl Renderer {
    /// A renderer that looks through `camera`, at the start of a tick.
    pub fn camera(camera: Camera) -> (r: Self)
        ensures
            r.camera_system.camera == camera,
            r.trace_spawn_system@ == SPAWN_INTERVAL,
            r.due == RenderPhase::Zoom,
    {
        Renderer {
            camera_system: CameraSystem::new(camera),
            circle_system: SpriteSystem::default(),
            name_system: NameSystem::default(),
            trace_system: RenderTraceSystem::default(),
            trace_spawn_system: TraceSpawnSystem::default(),
            background: BackgroundSystem::default(),
            due: RenderPhase::Zoom,
        }
    }

    /// The camera, to be changed.
    pub fn camera_as_mut(&mut self) -> (camera: &mut Camera)
        ensures
            *camera == old(self).camera_system.camera,
            final(self).camera_system.camera == *final(camera),
            final(self).trace_spawn_system@ == old(self).trace_spawn_system@,
            final(self).due == old(self).due,
    {
        &mut self.camera_system.camera
    }

    /// One step of a render tick: the step that is due is done with the
    /// numbers that the host has computed for it.
    ///
    /// - The zoom is stepped with the interpolated point; the projection is
    ///   due then.
    /// - The render boxes are moved to the projected positions, and the
    ///   camera turns to the entity that is marked as followed and looks at
    ///   it; the focus is due then. If the camera follows an entity that
    ///   has no place on the screen, the tick is given up with the boxes
    ///   moved, and the next begins.
    /// - The offset of the focus is stored, the traces are spawned and
    ///   decay, and the frame is put together; the next tick begins.
    ///
    /// Numbers that are not those of the step that is due are refused, and
    /// nothing changes.
    pub fn render(&mut self, world: &mut hecs::World, numbers: RenderNumbers) -> (r: Result<
        Rendered,
        RenderError,
    >)
        ensures
            final(self).camera_system.camera.zoom_step == old(self).camera_system.camera.zoom_step,
            !fits(old(self).due, numbers) ==> {
                &&& r == Err::<Rendered, RenderError>(RenderError::WrongNumbers(old(self).due))
                &&& final(self).due == old(self).due
                &&& final(self).camera_system.camera == old(self).camera_system.camera
                &&& final(self).trace_spawn_system@ == old(self).trace_spawn_system@
                &&& entries(*final(world)) == entries(*old(world))
            },
            fits(old(self).due, numbers) && old(self).due == RenderPhase::Zoom ==> {
                &&& r == Ok::<Rendered, RenderError>(Rendered::Zoomed)
                &&& final(self).due == RenderPhase::Project
                &&& final(self).camera_system.camera.zoom@ == old(
                    self,
                ).camera_system.camera.zoom@.updated(numbers->Zoom_0)
                &&& final(self).camera_system.camera.focus == old(self).camera_system.camera.focus
                &&& final(self).camera_system.camera.tracking == old(
                    self,
                ).camera_system.camera.tracking
                &&& final(self).trace_spawn_system@ == old(self).trace_spawn_system@
                &&& entries(*final(world)) == entries(*old(world))
            },
            fits(old(self).due, numbers) && old(self).due == RenderPhase::Project ==> {
                &&& entries(*final(world)) == with_projections(
                    entries(*old(world)),
                    numbers->Positions_0@,
                    numbers->Positions_0@.len() as int,
                )
                &&& retargeted(
                    old(self).camera_system.camera.tracking,
                    final(self).camera_system.camera.tracking,
                    entries(*final(world)),
                )
                &&& match focus_of(
                    final(self).camera_system.camera.tracking,
                    entries(*final(world)),
                ) {
                    Ok(focus) => r == Ok::<Rendered, RenderError>(Rendered::Focused(focus))
                        && final(self).due == RenderPhase::Focus,
                    Err(error) => r == Err::<Rendered, RenderError>(RenderError::Camera(error))
                        && final(self).due == RenderPhase::Zoom,
                }
                &&& final(self).camera_system.camera.zoom@ == old(self).camera_system.camera.zoom@
                &&& final(self).camera_system.camera.focus == old(self).camera_system.camera.focus
                &&& final(self).trace_spawn_system@ == old(self).trace_spawn_system@
            },
            fits(old(self).due, numbers) && old(self).due == RenderPhase::Focus ==> {
                &&& r is Ok
                &&& r->Ok_0 is Drawn
                &&& (r->Ok_0)->Drawn_0.offset == numbers->Offset_0
                &&& renders(
                    (r->Ok_0)->Drawn_0,
                    entries(*old(world)),
                    entries(*final(world)),
                    old(self).trace_spawn_system@,
                )
                &&& final(self).due == RenderPhase::Zoom
                &&& final(self).camera_system.camera.focus == numbers->Offset_0
                &&& final(self).camera_system.camera.zoom@ == old(self).camera_system.camera.zoom@
                &&& final(self).camera_system.camera.tracking == old(
                    self,
                ).camera_system.camera.tracking
                &&& final(self).trace_spawn_system@ == counted_down(old(self).trace_spawn_system@)
            },
    {
        let due = self.due;
        match numbers {
            RenderNumbers::Zoom(interpolated) => {
                if due != RenderPhase::Zoom {
                    return Err(RenderError::WrongNumbers(due));
                }
                self.camera_system.camera.update_zoom(interpolated);
                self.due = RenderPhase::Project;
                Ok(Rendered::Zoomed)
            },
            RenderNumbers::Positions(positions) => {
                if due != RenderPhase::Project {
                    return Err(RenderError::WrongNumbers(due));
                }
                self.camera_system.project(world, &positions);
                match self.camera_system.update(world) {
                    Ok(focus) => {
                        self.due = RenderPhase::Focus;
                        Ok(Rendered::Focused(focus))
                    },
                    Err(error) => {
                        self.due = RenderPhase::Zoom;
                        Err(RenderError::Camera(error))
                    },
                }
            },
            RenderNumbers::Offset(offset) => {
                if due != RenderPhase::Focus {
                    return Err(RenderError::WrongNumbers(due));
                }
                self.camera_system.camera.focus = offset;
                let backgrounds = self.background.update(world);
                let ghost before = entries(*world);
                self.trace_spawn_system.update(world);
                let ghost with_traces = entries(*world);
                let traces = self.trace_system.update(world);
                let bodies = self.circle_system.update(world);
                let labels = self.name_system.update(world);
                let frame = Frame { backgrounds, offset, traces, bodies, labels };
                proof {
                    assert(after_spawning(old(self).trace_spawn_system@, before, with_traces));
                }
                self.due = RenderPhase::Zoom;
                Ok(Rendered::Drawn(frame))
            },
        }
    }
}

/// The steps of a render tick come round: after the zoom the projection is
/// due, after it the focus, and with the focus set the tick is over and the
/// zoom of the next is due. No step is due twice in a tick.
pub open spec fn following(done: RenderPhase) -> RenderPhase {
    match done {
        RenderPhase::Zoom => RenderPhase::Project,
        RenderPhase::Project => RenderPhase::Focus,
        RenderPhase::Focus => RenderPhase::Zoom,
    }
}

/// The zoom is stepped before the bodies are projected, and the bodies are
/// projected before the focus is set: from the start of a tick, positions
/// are taken only after a zoom, and an offset only after positions.
pub proof fn lemma_zoom_then_projection_then_focus(numbers: RenderNumbers)
    ensures
        fits(RenderPhase::Zoom, numbers) <==> numbers is Zoom,
        fits(following(RenderPhase::Zoom), numbers) <==> numbers is Positions,
        fits(following(following(RenderPhase::Zoom)), numbers) <==> numbers is Offset,
        following(following(following(RenderPhase::Zoom))) == RenderPhase::Zoom,
{
}

} // verus!
