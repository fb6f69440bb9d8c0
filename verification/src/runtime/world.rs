//! The entity store.
//!
//! Entities live in a `hecs::World`. The library reads and changes the
//! world through the functions of this module only. They call into hecs,
//! each for one kind of component, and what they promise of the world is
//! taken on trust; it is stated over `entries`, the entities of a world by
//! their identifiers, each with the components that the library knows. All
//! else that the library does with the world is proved from these
//! promises.
use crate::physics::force::ForceComponent;
use crate::physics::gravity::MassComponent;
use crate::physics::motion::Motion;
use crate::physics::propulsion::PropulsionComponent;
use crate::render::background::BackgroundComponent;
use crate::render::camera::TrackingComponent;
use crate::render::circle::CircleComponent;
use crate::render::name::NameComponent;
use crate::render::render_box::RenderBoxComponent;
use crate::render::sprite::Sprite;
use crate::render::trace::{SpawnTraceSystem, TraceComponent, TraceState};
use vstd::prelude::*;

verus! {

/// Declares `hecs::World`, the store of entities and their components.
/// Nothing is known of a world but what the functions of this module
/// promise of its `entries`.
#[verifier::external_type_specification]
#[verifier::external_body]
pub struct ExWorld(hecs::World);

/// Identifies an entity of a world.
#[derive(Clone, Copy, PartialEq, Eq, Structural, Debug)]
pub struct EntityId {
    pub bits: u64,
}

/// One entity as the library sees it: for each kind of component, whether
/// the entity has it and what it holds.
pub struct Entry {
    pub name: Option<Seq<char>>,
    pub mass: Option<MassComponent>,
    pub motion: Option<Motion>,
    pub force: Option<ForceComponent>,
    pub propulsion: Option<PropulsionComponent>,
    pub render_box: Option<RenderBoxComponent>,
    pub sprite: Option<Sprite>,
    pub circle: Option<CircleComponent>,
    pub trace: Option<TraceState>,
    pub background: Option<BackgroundComponent>,
    pub followed: bool,
    pub leaves_traces: bool,
}

impl Entry {
    /// An entity without any component that the library knows.
    pub open spec fn bare() -> Entry {
        Entry {
            name: None,
            mass: None,
            motion: None,
            force: None,
            propulsion: None,
            render_box: None,
            sprite: None,
            circle: None,
            trace: None,
            background: None,
            followed: false,
            leaves_traces: false,
        }
    }

    /// The entity is drawn as a trace: it has a trace and a render box.
    pub open spec fn is_trace(self) -> bool {
        self.trace is Some && self.render_box is Some
    }

    /// The entity leaves traces of itself: it is marked so and has a render
    /// box, a sprite and a motion.
    pub open spec fn is_spawner(self) -> bool {
        self.leaves_traces && self.render_box is Some && self.sprite is Some && self.motion is Some
    }

    /// The entity has a place on the screen: a motion and a render box.
    pub open spec fn is_projected(self) -> bool {
        self.motion is Some && self.render_box is Some
    }
}

/// What `world` holds: every entity of which `hecs::World::contains` holds,
/// each under the bits that `hecs::Entity::to_bits` gives for it, with those
/// of its components that are of the kinds in `Entry`. An identifier that
/// is reserved and has no components yet counts as an entity without
/// components.
pub uninterp spec fn entries(world: hecs::World) -> Map<u64, Entry>;

/// `key` is among the first `n` of `ids`.
pub open spec fn named_before(ids: Seq<EntityId>, n: int, key: u64) -> bool {
    exists|j: int| 0 <= j < n && (#[trigger] ids[j]).bits == key
}

/// A kind of component that the library keeps in the world.
pub trait Stored: Sized {
    /// What a component of this kind is in contracts.
    type Model;

    /// The component as it stands in contracts.
    spec fn model(&self) -> Self::Model;

    /// The component of this kind that `entry` has, if it has one.
    spec fn of(entry: Entry) -> Option<Self::Model>;

    /// A copy of the component of this kind of the entity `id`: `None` if
    /// `id` is no entity of the world or has no such component. The world
    /// stays as it is.
    fn component(world: &mut hecs::World, id: EntityId) -> (found: Option<Self>)
        ensures
            entries(*final(world)) == entries(*old(world)),
            found is Some <==> entries(*old(world)).dom().contains(id.bits) && Self::of(
                entries(*old(world))[id.bits],
            ) is Some,
            found is Some ==> Self::of(entries(*old(world))[id.bits]) == Some(found->0.model()),
    ;
}

/// `ids` lists the entities of `entries`, each once, in some order.
pub open spec fn lists_all(ids: Seq<EntityId>, entries: Map<u64, Entry>) -> bool {
    &&& forall|i: int, j: int|
        0 <= i < j < ids.len() ==> (#[trigger] ids[i]) != (#[trigger] ids[j])
    &&& forall|i: int| 0 <= i < ids.len() ==> entries.dom().contains((#[trigger] ids[i]).bits)
    &&& forall|key: u64| #[trigger]
        entries.dom().contains(key) ==> named_before(ids, ids.len() as int, key)
}

/// A body as the loader spawns it.
pub open spec fn body_entry(
    name: Seq<char>,
    mass: MassComponent,
    motion: Motion,
    force: ForceComponent,
    render_box: RenderBoxComponent,
    sprite: Sprite,
) -> Entry {
    Entry {
        name: Some(name),
        mass: Some(mass),
        motion: Some(motion),
        force: Some(force),
        render_box: Some(render_box),
        sprite: Some(sprite),
        ..Entry::bare()
    }
}

/// A trace as it is spawned.
pub open spec fn trace_entry(
    trace: TraceState,
    render_box: RenderBoxComponent,
    motion: Motion,
) -> Entry {
    Entry {
        trace: Some(trace),
        render_box: Some(render_box),
        motion: Some(motion),
        ..Entry::bare()
    }
}

/// Calls `hecs::World::new`: a world without entities.
#[verifier::external_body]
pub fn create() -> (world: hecs::World)
    ensures
        forall|key: u64| !entries(world).dom().contains(key),
{
    hecs::World::new()
}

/// Calls `hecs::World::flush`, which gives every reserved identifier its
/// place among the entities without components, and then
/// `hecs::World::query_mut` for the identifiers alone: every entity is
/// listed once. What the world holds stays as it is.
#[verifier::external_body]
pub(crate) fn entities(world: &mut hecs::World) -> (ids: Vec<EntityId>)
    ensures
        entries(*final(world)) == entries(*old(world)),
        lists_all(ids@, entries(*old(world))),
{
    world.flush();
    world.query_mut::<hecs::Entity>().into_iter().map(
        |entity| EntityId { bits: entity.to_bits().get() },
    ).collect()
}

/// Calls `hecs::World::query_one_mut` for the `NameComponent` of the entity `id`
/// and returns a copy of it: `None` if `id` is no entity of the world or
/// has no name. The world stays as it is.
#[verifier::external_body]
pub(crate) fn read_name(world: &mut hecs::World, id: EntityId) -> (found: Option<NameComponent>)
    ensures
        entries(*final(world)) == entries(*old(world)),
        found is Some <==> entries(*old(world)).dom().contains(id.bits) && entries(
            *old(world),
        )[id.bits].name is Some,
        found is Some ==> entries(*old(world))[id.bits].name == Some(found->0.name@),
{
    match hecs::Entity::from_bits(id.bits) {
        Some(entity) => world.query_one_mut::<&NameComponent>(entity).ok().cloned(),
        None => None,
    }
}

/// Calls `hecs::World::query_one_mut` for the `MassComponent` of the entity `id`
/// and returns a copy of it: `None` if `id` is no entity of the world or
/// has no mass. The world stays as it is.
#[verifier::external_body]
pub(crate) fn read_mass(world: &mut hecs::World, id: EntityId) -> (found: Option<MassComponent>)
    ensures
        entries(*final(world)) == entries(*old(world)),
        found == (if entries(*old(world)).dom().contains(id.bits) {
            entries(*old(world))[id.bits].mass
        } else {
            None
        }),
{
    match hecs::Entity::from_bits(id.bits) {
        Some(entity) => world.query_one_mut::<&MassComponent>(entity).ok().copied(),
        None => None,
    }
}

/// Calls `hecs::World::query_one_mut` for the `Motion` of the entity `id`
/// and returns a copy of it: `None` if `id` is no entity of the world or
/// has no motion. The world stays as it is.
#[verifier::external_body]
pub(crate) fn read_motion(world: &mut hecs::World, id: EntityId) -> (found: Option<Motion>)
    ensures
        entries(*final(world)) == entries(*old(world)),
        found == (if entries(*old(world)).dom().contains(id.bits) {
            entries(*old(world))[id.bits].motion
        } else {
            None
        }),
{
    match hecs::Entity::from_bits(id.bits) {
        Some(entity) => world.query_one_mut::<&Motion>(entity).ok().copied(),
        None => None,
    }
}

/// Calls `hecs::World::query_one_mut` for the `ForceComponent` of the entity `id`
/// and returns a copy of it: `None` if `id` is no entity of the world or
/// has no force. The world stays as it is.
#[verifier::external_body]
pub(crate) fn read_force(world: &mut hecs::World, id: EntityId) -> (found: Option<ForceComponent>)
    ensures
        entries(*final(world)) == entries(*old(world)),
        found == (if entries(*old(world)).dom().contains(id.bits) {
            entries(*old(world))[id.bits].force
        } else {
            None
        }),
{
    match hecs::Entity::from_bits(id.bits) {
        Some(entity) => world.query_one_mut::<&ForceComponent>(entity).ok().copied(),
        None => None,
    }
}

/// Calls `hecs::World::query_one_mut` for the `PropulsionComponent` of the entity `id`
/// and returns a copy of it: `None` if `id` is no entity of the world or
/// has no thrust. The world stays as it is.
#[verifier::external_body]
pub(crate) fn read_propulsion(world: &mut hecs::World, id: EntityId) -> (found: Option<
    PropulsionComponent,
>)
    ensures
        entries(*final(world)) == entries(*old(world)),
        found == (if entries(*old(world)).dom().contains(id.bits) {
            entries(*old(world))[id.bits].propulsion
        } else {
            None
        }),
{
    match hecs::Entity::from_bits(id.bits) {
        Some(entity) => world.query_one_mut::<&PropulsionComponent>(entity).ok().copied(),
        None => None,
    }
}

/// Calls `hecs::World::query_one_mut` for the `RenderBoxComponent` of the entity `id`
/// and returns a copy of it: `None` if `id` is no entity of the world or
/// has no render box. The world stays as it is.
#[verifier::external_body]
pub(crate) fn read_render_box(world: &mut hecs::World, id: EntityId) -> (found: Option<
    RenderBoxComponent,
>)
    ensures
        entries(*final(world)) == entries(*old(world)),
        found == (if entries(*old(world)).dom().contains(id.bits) {
            entries(*old(world))[id.bits].render_box
        } else {
            None
        }),
{
    match hecs::Entity::from_bits(id.bits) {
        Some(entity) => world.query_one_mut::<&RenderBoxComponent>(entity).ok().copied(),
        None => None,
    }
}

/// Calls `hecs::World::query_one_mut` for the `Sprite` of the entity `id`
/// and returns a copy of it: `None` if `id` is no entity of the world or
/// has no sprite. The world stays as it is.
#[verifier::external_body]
pub(crate) fn read_sprite(world: &mut hecs::World, id: EntityId) -> (found: Option<Sprite>)
    ensures
        entries(*final(world)) == entries(*old(world)),
        found == (if entries(*old(world)).dom().contains(id.bits) {
            entries(*old(world))[id.bits].sprite
        } else {
            None
        }),
{
    match hecs::Entity::from_bits(id.bits) {
        Some(entity) => world.query_one_mut::<&Sprite>(entity).ok().copied(),
        None => None,
    }
}

/// Calls `hecs::World::query_one_mut` for the `CircleComponent` of the entity `id`
/// and returns a copy of it: `None` if `id` is no entity of the world or
/// has no disc. The world stays as it is.
#[verifier::external_body]
pub(crate) fn read_circle(world: &mut hecs::World, id: EntityId) -> (found: Option<CircleComponent>)
    ensures
        entries(*final(world)) == entries(*old(world)),
        found == (if entries(*old(world)).dom().contains(id.bits) {
            entries(*old(world))[id.bits].circle
        } else {
            None
        }),
{
    match hecs::Entity::from_bits(id.bits) {
        Some(entity) => world.query_one_mut::<&CircleComponent>(entity).ok().copied(),
        None => None,
    }
}

/// Calls `hecs::World::query_one_mut` for the `TraceComponent` of the entity `id`
/// and returns a copy of it: `None` if `id` is no entity of the world or
/// has no trace. The world stays as it is.
#[verifier::external_body]
pub(crate) fn read_trace(world: &mut hecs::World, id: EntityId) -> (found: Option<TraceComponent>)
    ensures
        entries(*final(world)) == entries(*old(world)),
        found is Some <==> entries(*old(world)).dom().contains(id.bits) && entries(
            *old(world),
        )[id.bits].trace is Some,
        found is Some ==> entries(*old(world))[id.bits].trace == Some(found->0@),
{
    match hecs::Entity::from_bits(id.bits) {
        Some(entity) => world.query_one_mut::<&TraceComponent>(entity).ok().copied(),
        None => None,
    }
}

/// Calls `hecs::World::query_one_mut` for the `BackgroundComponent` of the entity `id`
/// and returns a copy of it: `None` if `id` is no entity of the world or
/// has no background. The world stays as it is.
#[verifier::external_body]
pub(crate) fn read_background(world: &mut hecs::World, id: EntityId) -> (found: Option<
    BackgroundComponent,
>)
    ensures
        entries(*final(world)) == entries(*old(world)),
        found == (if entries(*old(world)).dom().contains(id.bits) {
            entries(*old(world))[id.bits].background
        } else {
            None
        }),
{
    match hecs::Entity::from_bits(id.bits) {
        Some(entity) => world.query_one_mut::<&BackgroundComponent>(entity).ok().copied(),
        None => None,
    }
}

/// Calls `hecs::World::query_one_mut` for the `TrackingComponent` of the entity `id`:
/// `Some` if `id` is an entity of the world that is marked as followed, else `None`. The
/// world stays as it is.
#[verifier::external_body]
pub(crate) fn read_tracking(world: &mut hecs::World, id: EntityId) -> (found: Option<
    TrackingComponent,
>)
    ensures
        entries(*final(world)) == entries(*old(world)),
        found is Some <==> entries(*old(world)).dom().contains(id.bits) && entries(
            *old(world),
        )[id.bits].followed,
{
    match hecs::Entity::from_bits(id.bits) {
        Some(entity) => world.query_one_mut::<&TrackingComponent>(entity).ok().copied(),
        None => None,
    }
}

/// Calls `hecs::World::query_one_mut` for the `SpawnTraceSystem` of the entity `id`:
/// `Some` if `id` is an entity of the world that is marked as leaving traces, else `None`. The
/// world stays as it is.
#[verifier::external_body]
pub(crate) fn read_trace_mark(world: &mut hecs::World, id: EntityId) -> (found: Option<
    SpawnTraceSystem,
>)
    ensures
        entries(*final(world)) == entries(*old(world)),
        found is Some <==> entries(*old(world)).dom().contains(id.bits) && entries(
            *old(world),
        )[id.bits].leaves_traces,
{
    match hecs::Entity::from_bits(id.bits) {
        Some(entity) => world.query_one_mut::<&SpawnTraceSystem>(entity).ok().copied(),
        None => None,
    }
}

/// Calls `hecs::World::query_one_mut` for the `ForceComponent` of the entity `id`
/// and overwrites it with `force`. Returns whether `id` is an entity of
/// the world that has a force; if not, the world is unchanged.
#[verifier::external_body]
pub(crate) fn set_force(
    world: &mut hecs::World,
    id: EntityId,
    force: ForceComponent,
) -> (found: bool)
    ensures
        found == (entries(*old(world)).dom().contains(id.bits) && entries(
            *old(world),
        )[id.bits].force is Some),
        found ==> entries(*final(world)) == entries(*old(world)).insert(
            id.bits,
            Entry { force: Some(force), ..entries(*old(world))[id.bits] },
        ),
        !found ==> entries(*final(world)) == entries(*old(world)),
{
    match hecs::Entity::from_bits(id.bits) {
        Some(entity) => match world.query_one_mut::<&mut ForceComponent>(entity) {
            Ok(slot) => {
                *slot = force;
                true
            },
            Err(_) => false,
        },
        None => false,
    }
}

/// Calls `hecs::World::query_one_mut` for the `Motion` of the entity `id`
/// and overwrites it with `motion`. Returns whether `id` is an entity of
/// the world that has a motion; if not, the world is unchanged.
#[verifier::external_body]
pub(crate) fn set_motion(world: &mut hecs::World, id: EntityId, motion: Motion) -> (found: bool)
    ensures
        found == (entries(*old(world)).dom().contains(id.bits) && entries(
            *old(world),
        )[id.bits].motion is Some),
        found ==> entries(*final(world)) == entries(*old(world)).insert(
            id.bits,
            Entry { motion: Some(motion), ..entries(*old(world))[id.bits] },
        ),
        !found ==> entries(*final(world)) == entries(*old(world)),
{
    match hecs::Entity::from_bits(id.bits) {
        Some(entity) => match world.query_one_mut::<&mut Motion>(entity) {
            Ok(slot) => {
                *slot = motion;
                true
            },
            Err(_) => false,
        },
        None => false,
    }
}

/// Calls `hecs::World::query_one_mut` for the `RenderBoxComponent` of the entity `id`
/// and overwrites it with `render_box`. Returns whether `id` is an entity of
/// the world that has a render box; if not, the world is unchanged.
#[verifier::external_body]
pub(crate) fn set_render_box(
    world: &mut hecs::World,
    id: EntityId,
    render_box: RenderBoxComponent,
) -> (found: bool)
    ensures
        found == (entries(*old(world)).dom().contains(id.bits) && entries(
            *old(world),
        )[id.bits].render_box is Some),
        found ==> entries(*final(world)) == entries(*old(world)).insert(
            id.bits,
            Entry { render_box: Some(render_box), ..entries(*old(world))[id.bits] },
        ),
        !found ==> entries(*final(world)) == entries(*old(world)),
{
    match hecs::Entity::from_bits(id.bits) {
        Some(entity) => match world.query_one_mut::<&mut RenderBoxComponent>(entity) {
            Ok(slot) => {
                *slot = render_box;
                true
            },
            Err(_) => false,
        },
        None => false,
    }
}

/// Calls `hecs::World::query_one_mut` for the `TraceComponent` of the entity `id`
/// and overwrites it with `trace`. Returns whether `id` is an entity of
/// the world that has a trace; if not, the world is unchanged.
#[verifier::external_body]
pub(crate) fn set_trace(
    world: &mut hecs::World,
    id: EntityId,
    trace: TraceComponent,
) -> (found: bool)
    ensures
        found == (entries(*old(world)).dom().contains(id.bits) && entries(
            *old(world),
        )[id.bits].trace is Some),
        found ==> entries(*final(world)) == entries(*old(world)).insert(
            id.bits,
            Entry { trace: Some(trace@), ..entries(*old(world))[id.bits] },
        ),
        !found ==> entries(*final(world)) == entries(*old(world)),
{
    match hecs::Entity::from_bits(id.bits) {
        Some(entity) => match world.query_one_mut::<&mut TraceComponent>(entity) {
            Ok(slot) => {
                *slot = trace;
                true
            },
            Err(_) => false,
        },
        None => false,
    }
}

/// Calls `hecs::World::spawn` with the components of a body. The new entity
/// has an identifier that no entity of the world had, and that was not
/// reserved, and it has these components and no other; the other entities
/// are as they were.
#[verifier::external_body]
pub(crate) fn spawn_body(
    world: &mut hecs::World,
    name: NameComponent,
    mass: MassComponent,
    motion: Motion,
    force: ForceComponent,
    render_box: RenderBoxComponent,
    sprite: Sprite,
) -> (id: EntityId)
    ensures
        !entries(*old(world)).dom().contains(id.bits),
        entries(*final(world)) == entries(*old(world)).insert(
            id.bits,
            body_entry(name.name@, mass, motion, force, render_box, sprite),
        ),
{
    let entity = world.spawn((name, mass, motion, force, render_box, sprite));
    EntityId { bits: entity.to_bits().get() }
}

/// Calls `hecs::World::spawn` with a background alone. The new entity has
/// an identifier that no entity of the world had, and that was not
/// reserved; the other entities are as they were.
#[verifier::external_body]
pub(crate) fn spawn_background(world: &mut hecs::World, background: BackgroundComponent) -> (id:
    EntityId)
    ensures
        !entries(*old(world)).dom().contains(id.bits),
        entries(*final(world)) == entries(*old(world)).insert(
            id.bits,
            Entry { background: Some(background), ..Entry::bare() },
        ),
{
    let entity = world.spawn((background,));
    EntityId { bits: entity.to_bits().get() }
}

/// Calls `hecs::World::spawn` with the components of a trace. The new
/// entity has an identifier that no entity of the world had, and that was
/// not reserved, and it has these components and no other; the other
/// entities are as they were.
#[verifier::external_body]
pub(crate) fn spawn_trace(
    world: &mut hecs::World,
    trace: TraceComponent,
    render_box: RenderBoxComponent,
    motion: Motion,
) -> (id: EntityId)
    ensures
        !entries(*old(world)).dom().contains(id.bits),
        entries(*final(world)) == entries(*old(world)).insert(
            id.bits,
            trace_entry(trace@, render_box, motion),
        ),
{
    let entity = world.spawn((trace, render_box, motion));
    EntityId { bits: entity.to_bits().get() }
}

/// Calls `hecs::World::insert_one` with a `TrackingComponent`. Returns
/// whether `id` is an entity of the world, a reserved identifier too; if
/// so it is now marked as followed, and either way nothing else changes.
#[verifier::external_body]
pub(crate) fn insert_tracking(world: &mut hecs::World, id: EntityId) -> (found: bool)
    ensures
        found == entries(*old(world)).dom().contains(id.bits),
        found ==> entries(*final(world)) == entries(*old(world)).insert(
            id.bits,
            Entry { followed: true, ..entries(*old(world))[id.bits] },
        ),
        !found ==> entries(*final(world)) == entries(*old(world)),
{
    match hecs::Entity::from_bits(id.bits) {
        Some(entity) => world.insert_one(entity, TrackingComponent::new()).is_ok(),
        None => false,
    }
}

/// Calls `hecs::World::despawn`. Returns whether `id` was an entity of the
/// world, a reserved identifier too; if so it is gone with all its
/// components, and either way the other entities are as they were.
#[verifier::external_body]
pub(crate) fn despawn(world: &mut hecs::World, id: EntityId) -> (found: bool)
    ensures
        found == entries(*old(world)).dom().contains(id.bits),
        entries(*final(world)) == entries(*old(world)).remove(id.bits),
{
    match hecs::Entity::from_bits(id.bits) {
        Some(entity) => world.despawn(entity).is_ok(),
        None => false,
    }
}

} // verus!
