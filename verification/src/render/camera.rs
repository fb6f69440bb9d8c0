//! The camera: how far it is zoomed in, and what it follows.
use crate::loader::model_loader::{follows_heaviest, lemma_one_body_is_followed};
use crate::physics::motion::{Motion, Position};
use crate::render::render_box::{RenderBoxComponent, RenderingPosition};
use crate::runtime::queries::{
    followed_in, followed_rows, masses_in, projected_box, projection_rows, projections_in,
};
use crate::runtime::rows::{applied, lists, Joined};
use crate::runtime::world::{entries, read_tracking, set_render_box, EntityId, Entry, Stored};
use crate::scalar::{Real, Vector2};
use vstd::prelude::*;

verus! {

/// The number of render ticks over which the camera changes its zoom.
pub const ZOOM_STEPS: u32 = 16;

/// What the camera follows.
#[derive(Clone, Copy, PartialEq, Eq, Structural, Debug)]
pub enum TrackingMode {
    Fixed,
    Tracking(EntityId),
}

/// Marks the entity that the camera follows.
#[derive(Clone, Copy, PartialEq, Eq, Structural, Debug)]
pub struct TrackingComponent {}

impl Stored for TrackingComponent {
    type Model = TrackingComponent;

    open spec fn model(&self) -> TrackingComponent {
        *self
    }

    open spec fn of(entry: Entry) -> Option<TrackingComponent> {
        if entry.followed {
            Some(TrackingComponent {  })
        } else {
            None
        }
    }

    fn component(world: &mut hecs::World, id: EntityId) -> (found: Option<Self>) {
        read_tracking(world, id)
    }
}

impl Default for TrackingComponent {
    fn default() -> (t: Self) {
        TrackingComponent::new()
    }
}

impl TrackingComponent {
    pub fn new() -> (t: Self) {
        TrackingComponent {  }
    }
}

/// What a zoom is: the factor now, and the change under way from
/// `start_zoom` to `target_zoom` in `steps` steps, of which `steps_left`
/// are still to come.
pub struct ZoomState {
    pub zoom: Real,
    pub start_zoom: Real,
    pub target_zoom: Real,
    pub steps: nat,
    pub steps_left: nat,
}

impl ZoomState {
    pub open spec fn wf(self) -> bool {
        self.steps_left <= self.steps
    }

    /// No change is under way.
    pub open spec fn is_idle(self) -> bool {
        self.steps_left == 0
    }

    /// A zoom at rest at `zoom`.
    pub open spec fn resting(zoom: Real) -> ZoomState {
        ZoomState { zoom, start_zoom: zoom, target_zoom: zoom, steps: 0, steps_left: 0 }
    }

    /// The zoom once a change to `new_zoom` in `steps` steps is asked for.
    pub open spec fn changing(self, new_zoom: Real, steps: nat) -> ZoomState {
        ZoomState {
            zoom: self.zoom,
            start_zoom: self.zoom,
            target_zoom: new_zoom,
            steps,
            steps_left: steps,
        }
    }

    /// The number of the step that the next update takes, from 1 to `steps`.
    pub open spec fn next_step(self) -> nat {
        (self.steps - self.steps_left + 1) as nat
    }

    /// The zoom after one update. At rest nothing changes. The last step
    /// of a change lands on the target itself; every step before it takes
    /// `interpolated`, the point between start and target that the host
    /// has computed for the step.
    pub open spec fn updated(self, interpolated: Real) -> ZoomState {
        if self.steps_left == 0 {
            self
        } else if self.steps_left == 1 {
            ZoomState { zoom: self.target_zoom, steps_left: 0, ..self }
        } else {
            ZoomState { zoom: interpolated, steps_left: (self.steps_left - 1) as nat, ..self }
        }
    }

    /// The zoom after one update for each of `values`, in their order.
    pub open spec fn updated_with(self, values: Seq<Real>) -> ZoomState
        decreases values.len(),
    {
        if values.len() == 0 {
            self
        } else {
            self.updated(values[0]).updated_with(values.drop_first())
        }
    }
}

/// The zoom factor of a camera, which changes in steps.
pub struct Zoom {
    zoom: Real,
    start_zoom: Real,
    target_zoom: Real,
    steps: u32,
    steps_left: u32,
}

impl View for Zoom {
    type V = ZoomState;

    closed spec fn view(&self) -> ZoomState {
        ZoomState {
            zoom: self.zoom,
            start_zoom: self.start_zoom,
            target_zoom: self.target_zoom,
            steps: self.steps as nat,
            steps_left: self.steps_left as nat,
        }
    }
}

impl Zoom {
    #[verifier::type_invariant]
    spec fn steps_in_range(self) -> bool {
        self.steps_left <= self.steps
    }

    /// A zoom at rest at `initial_zoom`.
    pub fn new(initial_zoom: Real) -> (z: Self)
        ensures
            z@ == ZoomState::resting(initial_zoom),
    {
        Zoom {
            start_zoom: initial_zoom,
            zoom: initial_zoom,
            target_zoom: initial_zoom,
            steps: 0,
            steps_left: 0,
        }
    }

    /// The factor now.
    pub fn zoom(&self) -> (z: Real)
        ensures
            z == self@.zoom,
    {
        self.zoom
    }

    /// The factor at which the change under way began.
    pub fn start_zoom(&self) -> (z: Real)
        ensures
            z == self@.start_zoom,
    {
        self.start_zoom
    }

    /// The factor at which the change under way ends.
    pub fn target_zoom(&self) -> (z: Real)
        ensures
            z == self@.target_zoom,
    {
        self.target_zoom
    }

    /// Asks for a change to `new_zoom` in `steps` steps, starting from the
    /// factor now.
    pub fn change_zoom(&mut self, new_zoom: Real, steps: u32)
        requires
            steps != 0,
        ensures
            final(self)@ == old(self)@.changing(new_zoom, steps as nat),
            final(self)@.wf(),
    {
        *self = Zoom {
            zoom: self.zoom,
            start_zoom: self.zoom,
            target_zoom: new_zoom,
            steps,
            steps_left: steps,
        };
    }

    /// The step that the next update takes, as its number and the number of
    /// all steps: the update expects the point that lies this fraction of
    /// the way from start to target. `None` at rest, when an update changes
    /// nothing.
    pub fn pending(&self) -> (step: Option<(u32, u32)>)
        ensures
            self@.wf(),
            step is None <==> self@.is_idle(),
            step is Some ==> step->0 == (self@.next_step() as u32, self@.steps as u32) && 1
                <= self@.next_step() <= self@.steps,
    {
        proof {
            use_type_invariant(self);
        }
        if self.steps_left == 0 {
            None
        } else {
            Some((self.steps - self.steps_left + 1, self.steps))
        }
    }

    /// One update. `interpolated` is the point between start and target for
    /// the step that `pending` names; it is taken in every step but the
    /// last, which lands on the target itself.
    pub fn update(&mut self, interpolated: Real)
        ensures
            final(self)@ == old(self)@.updated(interpolated),
            final(self)@.wf(),
    {
        proof {
            use_type_invariant(&*self);
        }
        if self.steps_left == 0 {
            return ;
        }
        self.steps_left -= 1;
        if self.steps_left == 0 {
            self.zoom = self.target_zoom;
        } else {
            self.zoom = interpolated;
        }
    }
}

/// A change of zoom ends on its target, whatever the points between were:
/// after as many updates as steps were left, and after any number more, the
/// factor is the target and the zoom is at rest.
pub proof fn lemma_zoom_reaches_target(state: ZoomState, values: Seq<Real>)
    requires
        state.wf(),
        state.steps_left > 0,
        values.len() >= state.steps_left,
    ensures
        state.updated_with(values).zoom == state.target_zoom,
        state.updated_with(values).is_idle(),
    decreases values.len(),
{
    let next = state.updated(values[0]);
    if next.steps_left > 0 {
        lemma_zoom_reaches_target(next, values.drop_first());
    } else {
        lemma_zoom_rests(next, values.drop_first());
    }
}

/// A zoom at rest stays as it is under any number of updates.
pub proof fn lemma_zoom_rests(state: ZoomState, values: Seq<Real>)
    requires
        state.is_idle(),
    ensures
        state.updated_with(values) == state,
    decreases values.len(),
{
    if values.len() > 0 {
        lemma_zoom_rests(state, values.drop_first());
    }
}

/// While a change is under way the steps are counted off one by one, and
/// start and target stay.
pub proof fn lemma_zoom_counts_down(state: ZoomState, values: Seq<Real>)
    requires
        state.wf(),
        values.len() <= state.steps_left,
    ensures
        state.updated_with(values).steps_left == state.steps_left - values.len(),
        state.updated_with(values).steps == state.steps,
        state.updated_with(values).start_zoom == state.start_zoom,
        state.updated_with(values).target_zoom == state.target_zoom,
        0 < values.len() < state.steps_left ==> state.updated_with(values).zoom == values.last(),
    decreases values.len(),
{
    if values.len() > 0 {
        let next = state.updated(values[0]);
        let rest = values.drop_first();
        lemma_zoom_counts_down(next, rest);
        if rest.len() > 0 {
            assert(rest.last() == values.last());
        }
    }
}

/// The camera: its zoom, the screen offset that brings its focus to the
/// middle of the screen, and what it follows.
pub struct Camera {
    pub zoom: Zoom,
    /// The amount by which one request changes the zoom.
    pub zoom_step: Real,
    pub focus: Position,
    pub tracking: TrackingMode,
}

impl Camera {
    /// A camera at zoom `zoom` that follows `entity`. One request changes
    /// the zoom by `zoom_step`.
    pub fn tracking(zoom: Real, zoom_step: Real, entity: EntityId) -> (c: Self)
        ensures
            c.zoom@ == ZoomState::resting(zoom),
            c.zoom_step == zoom_step,
            c.focus == Vector2::spec_zero(),
            c.tracking == TrackingMode::Tracking(entity),
    {
        Camera {
            zoom: Zoom::new(zoom),
            zoom_step,
            focus: Vector2::zero(),
            tracking: TrackingMode::Tracking(entity),
        }
    }

    /// A camera at zoom `zoom` that follows nothing. One request changes the
    /// zoom by `zoom_step`.
    pub fn fixed(zoom: Real, zoom_step: Real) -> (c: Self)
        ensures
            c.zoom@ == ZoomState::resting(zoom),
            c.zoom_step == zoom_step,
            c.focus == Vector2::spec_zero(),
            c.tracking == TrackingMode::Fixed,
    {
        Camera {
            zoom: Zoom::new(zoom),
            zoom_step,
            focus: Vector2::zero(),
            tracking: TrackingMode::Fixed,
        }
    }

    /// The zoom factor now.
    pub fn current_zoom(&self) -> (z: Real)
        ensures
            z == self.zoom@.zoom,
    {
        self.zoom.zoom()
    }

    /// The zoom factors between which the camera is changing.
    pub fn zoom_range(&self) -> (range: (Real, Real))
        ensures
            range == (self.zoom@.start_zoom, self.zoom@.target_zoom),
    {
        (self.zoom.start_zoom(), self.zoom.target_zoom())
    }

    /// The step that the next update of the zoom takes; see `Zoom::pending`.
    pub fn pending_zoom(&self) -> (step: Option<(u32, u32)>)
        ensures
            self.zoom@.wf(),
            step is None <==> self.zoom@.is_idle(),
            step is Some ==> step->0 == (
                self.zoom@.next_step() as u32,
                self.zoom@.steps as u32,
            ) && 1 <= self.zoom@.next_step() <= self.zoom@.steps,
    {
        self.zoom.pending()
    }

    /// Zooms in: asks for a change of the zoom to `target` over
    /// `ZOOM_STEPS` render ticks. The host computes `target` as the zoom
    /// now plus the zoom step.
    pub fn zoom_in(&mut self, target: Real)
        ensures
            final(self).zoom@ == old(self).zoom@.changing(target, ZOOM_STEPS as nat),
            final(self).zoom_step == old(self).zoom_step,
            final(self).focus == old(self).focus,
            final(self).tracking == old(self).tracking,
    {
        self.zoom.change_zoom(target, ZOOM_STEPS);
    }

    /// Zooms out: asks for a change of the zoom to `target` over
    /// `ZOOM_STEPS` render ticks. The host computes `target` as the zoom
    /// now minus the zoom step.
    pub fn zoom_out(&mut self, target: Real)
        ensures
            final(self).zoom@ == old(self).zoom@.changing(target, ZOOM_STEPS as nat),
            final(self).zoom_step == old(self).zoom_step,
            final(self).focus == old(self).focus,
            final(self).tracking == old(self).tracking,
    {
        self.zoom.change_zoom(target, ZOOM_STEPS);
    }

    /// One update of the zoom; see `Zoom::update`.
    pub fn update_zoom(&mut self, interpolated: Real)
        ensures
            final(self).zoom@ == old(self).zoom@.updated(interpolated),
            final(self).zoom_step == old(self).zoom_step,
            final(self).focus == old(self).focus,
            final(self).tracking == old(self).tracking,
    {
        self.zoom.update(interpolated);
    }

    /// Lets the camera follow `entity`.
    pub fn track(&mut self, entity: EntityId)
        ensures
            final(self).tracking == TrackingMode::Tracking(entity),
            final(self).zoom@ == old(self).zoom@,
            final(self).zoom_step == old(self).zoom_step,
            final(self).focus == old(self).focus,
    {
        self.tracking = TrackingMode::Tracking(entity);
    }
}

/// Where the camera looks.
#[derive(Clone, Copy, PartialEq, Eq, Structural, Debug)]
pub enum Focus {
    /// At the origin: the offset of the focus is the middle of the screen.
    Center,
    /// At an entity that stands at this screen position: the offset of the
    /// focus is the middle of the screen minus this position.
    Entity(Position),
}

/// Why the camera cannot look where it is told to.
#[derive(Clone, Copy, PartialEq, Eq, Structural, Debug)]
pub enum CameraError {
    /// The entity that the camera follows is gone, or has no place on the
    /// screen.
    TargetMissing(EntityId),
}

/// What the camera looks at in `entries` when it is in the mode `tracking`.
pub open spec fn focus_of(tracking: TrackingMode, entries: Map<u64, Entry>) -> Result<
    Focus,
    CameraError,
> {
    match tracking {
        TrackingMode::Fixed => Ok(Focus::Center),
        TrackingMode::Tracking(entity) => if entries.dom().contains(entity.bits)
            && entries[entity.bits].is_projected() {
            Ok(Focus::Entity(entries[entity.bits].render_box->0.position))
        } else {
            Err(CameraError::TargetMissing(entity))
        },
    }
}

/// `entry` with its render box moved to `position`, if it has a place on
/// the screen: a motion and a render box. The radius of the box stays.
pub open spec fn projected(entry: Entry, position: RenderingPosition) -> Option<Entry> {
    if entry.is_projected() {
        Some(
            Entry {
                render_box: Some(RenderBoxComponent { position, ..entry.render_box->0 }),
                ..entry
            },
        )
    } else {
        None
    }
}

/// `entries` after the positions of the first `n` of `rows` are stored, in
/// the order of the rows. A row whose entity is not there, or has no place
/// on the screen, is passed over.
pub open spec fn with_projections(
    entries: Map<u64, Entry>,
    rows: Seq<(EntityId, RenderingPosition)>,
    n: int,
) -> Map<u64, Entry> {
    applied(entries, rows, n, |entry: Entry, value: RenderingPosition| projected(entry, value))
}

/// A camera that followed `before` follows `after` once it has looked for
/// the entity that is marked as followed in `entries`: what it followed
/// before if none is marked, a marked one if some are, and the marked one
/// if one is.
pub open spec fn retargeted(
    before: TrackingMode,
    after: TrackingMode,
    entries: Map<u64, Entry>,
) -> bool {
    &&& (forall|key: u64| !followed_in(entries).dom().contains(key)) ==> after == before
    &&& (exists|key: u64| followed_in(entries).dom().contains(key)) ==> (exists|id: EntityId|
        #[trigger] followed_in(entries).dom().contains(id.bits) && after == TrackingMode::Tracking(
            id,
        ))
    &&& forall|id: EntityId| #[trigger]
        only_followed(entries, id) ==> after == TrackingMode::Tracking(id)
}

/// `id` is marked as followed in `entries`, and nothing else is.
pub open spec fn only_followed(entries: Map<u64, Entry>, id: EntityId) -> bool {
    forall|key: u64| followed_in(entries).dom().contains(key) <==> key == id.bits
}

/// Once the loading has marked the heaviest body, the camera follows that
/// body and looks at the place on the screen where it stands: where no
/// entity was followed before the loading was finished, the body `id` that
/// is followed after it is the only one, none is heavier, and a camera that
/// follows it looks at its render box.
pub proof fn lemma_camera_looks_at_the_heaviest(
    before: Map<u64, Entry>,
    after: Map<u64, Entry>,
    id: EntityId,
)
    requires
        forall|key: u64| before.dom().contains(key) ==> !(#[trigger] before[key]).followed,
        follows_heaviest(before, after),
        after.dom().contains(id.bits),
        after[id.bits].followed,
    ensures
        only_followed(after, id),
        masses_in(before).dom().contains(id.bits),
        forall|key: u64| #[trigger]
            masses_in(before).dom().contains(key) ==> !masses_in(before)[id.bits].mass.less_than(
                masses_in(before)[key].mass,
            ),
        after[id.bits].is_projected() ==> focus_of(TrackingMode::Tracking(id), after) == Ok::<
            Focus,
            CameraError,
        >(Focus::Entity(after[id.bits].render_box->0.position)),
        !after[id.bits].is_projected() ==> focus_of(TrackingMode::Tracking(id), after) == Err::<
            Focus,
            CameraError,
        >(CameraError::TargetMissing(id)),
{
    lemma_one_body_is_followed(before, after);
    let chosen = choose|chosen: EntityId|
        {
            &&& #[trigger] masses_in(before).dom().contains(chosen.bits)
            &&& forall|key: u64|
                after.dom().contains(key) ==> ((#[trigger] after[key]).followed <==> key
                    == chosen.bits)
            &&& forall|key: u64| #[trigger]
                masses_in(before).dom().contains(key) ==> !masses_in(
                    before,
                )[chosen.bits].mass.less_than(masses_in(before)[key].mass)
        };
    assert(chosen == id);
    assert forall|key: u64| followed_in(after).dom().contains(key) <==> key == id.bits by {
        if key == id.bits {
            assert(followed_in(after).dom().contains(key));
        }
    }
}

/// Points the camera at what it follows.
pub struct CameraSystem {
    pub camera: Camera,
}

impl CameraSystem {
    pub fn new(camera: Camera) -> (s: CameraSystem)
        ensures
            s.camera == camera,
    {
        CameraSystem { camera }
    }

    /// What has a place on the screen: every entity that has a motion and a
    /// render box, once, with both.
    pub fn positions(&self, world: &mut hecs::World) -> (rows: Vec<
        (EntityId, (Motion, RenderBoxComponent)),
    >)
        ensures
            entries(*final(world)) == entries(*old(world)),
            lists(rows@, projections_in(entries(*old(world)))),
    {
        projection_rows(world)
    }

    /// Moves the render boxes to the positions that the host has computed:
    /// for each entity the place to which the camera's zoom projects its
    /// position. A position for an entity that has no motion or no render
    /// box is dropped.
    pub fn project(&self, world: &mut hecs::World, positions: &Vec<(EntityId, RenderingPosition)>)
        ensures
            entries(*final(world)) == with_projections(
                entries(*old(world)),
                positions@,
                positions.len() as int,
            ),
    {
        let ghost before = entries(*world);
        let mut i: usize = 0;
        while i < positions.len()
            invariant
                i <= positions.len(),
                entries(*world) == with_projections(before, positions@, i as int),
            decreases positions.len() - i,
        {
            let (id, position) = positions[i];
            match <(Motion, RenderBoxComponent)>::fetch(world, id) {
                Some(placed) => {
                    let mut render_box = placed.1;
                    render_box.move_to(position);
                    set_render_box(world, id, render_box);
                },
                None => {},
            }
            i = i + 1;
        }
    }

    /// Lets the camera follow the entity that is marked as followed: the
    /// only one if one is marked, one of them if several are, and what it
    /// followed before if none is. Then says where the camera looks. The
    /// positions on the screen are those that the host has projected for
    /// this tick.
    pub fn update(&mut self, world: &mut hecs::World) -> (focus: Result<Focus, CameraError>)
        ensures
            entries(*final(world)) == entries(*old(world)),
            final(self).camera.zoom@ == old(self).camera.zoom@,
            final(self).camera.zoom_step == old(self).camera.zoom_step,
            final(self).camera.focus == old(self).camera.focus,
            (forall|key: u64| !followed_in(entries(*old(world))).dom().contains(key))
                ==> final(self).camera.tracking == old(self).camera.tracking,
            (exists|key: u64| followed_in(entries(*old(world))).dom().contains(key)) ==> (exists|
                id: EntityId,
            |
                #[trigger] followed_in(entries(*old(world))).dom().contains(id.bits)
                    && final(self).camera.tracking == TrackingMode::Tracking(id)),
            forall|id: EntityId| #[trigger]
                only_followed(entries(*old(world)), id) ==> final(self).camera.tracking
                    == TrackingMode::Tracking(id),
            retargeted(
                old(self).camera.tracking,
                final(self).camera.tracking,
                entries(*old(world)),
            ),
            focus == focus_of(final(self).camera.tracking, entries(*old(world))),
    {
        let rows = followed_rows(world);
        let mut i: usize = 0;
        while i < rows.len()
            invariant
                i <= rows.len(),
                lists(rows@, followed_in(entries(*world))),
                entries(*world) == entries(*old(world)),
                self.camera.zoom@ == old(self).camera.zoom@,
                self.camera.zoom_step == old(self).camera.zoom_step,
                self.camera.focus == old(self).camera.focus,
                i == 0 ==> self.camera.tracking == old(self).camera.tracking,
                i > 0 ==> self.camera.tracking == TrackingMode::Tracking(rows@[i - 1].0),
            decreases rows.len() - i,
        {
            self.camera.track(rows[i].0);
            i = i + 1;
        }
        proof {
            let followed = followed_in(entries(*world));
            if rows.len() > 0 {
                let last = rows@[rows.len() - 1];
                assert(followed.contains_pair(last.0.bits, last.1));
            }
            assert forall|id: EntityId| #[trigger]
                only_followed(entries(*world), id) implies self.camera.tracking
                == TrackingMode::Tracking(id) by {
                assert(followed.dom().contains(id.bits));
                let i = choose|i: int|
                    0 <= i < rows@.len() && (#[trigger] rows@[i]).0.bits == id.bits;
                let last = rows@[rows.len() - 1];
                assert(followed.dom().contains(last.0.bits));
                assert(last.0 == id);
            }
        }
        match self.camera.tracking {
            TrackingMode::Fixed => Ok(Focus::Center),
            TrackingMode::Tracking(entity) => match projected_box(world, entity) {
                Some(render_box) => Ok(Focus::Entity(render_box.position)),
                None => Err(CameraError::TargetMissing(entity)),
            },
        }
    }
}

} // verus!
