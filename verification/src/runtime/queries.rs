//! What the systems ask of the world and what they store in it.
//!
//! Every function here reads the world through the functions of
//! `runtime::world`; which entities it takes is proved from what those
//! promise.
use crate::physics::force::ForceComponent;
use crate::physics::gravity::MassComponent;
use crate::physics::motion::Motion;
use crate::physics::propulsion::PropulsionComponent;
use crate::render::background::BackgroundComponent;
use crate::render::camera::TrackingComponent;
use crate::render::circle::CircleComponent;
use crate::render::name::NameComponent;
use crate::render::render_box::RenderBoxComponent;
use crate::render::sprite::Sprite;
use crate::render::trace::{SpawnTraceSystem, TraceComponent, TraceState};
use crate::runtime::rows::{
    having, having_all, joined_models, lemma_relisted, lists, models, rows, select, Joined,
};
use crate::runtime::world::{entries, read_force, EntityId, Entry};
use vstd::prelude::*;

verus! {

/// The entities that have a force, each with it.
pub open spec fn forces_in(entries: Map<u64, Entry>) -> Map<u64, ForceComponent> {
    Map::new(
        |key: u64| entries.dom().contains(key) && entries[key].force is Some,
        |key: u64| entries[key].force->0,
    )
}

/// The entities that have a mass, each with it.
pub open spec fn masses_in(entries: Map<u64, Entry>) -> Map<u64, MassComponent> {
    Map::new(
        |key: u64| entries.dom().contains(key) && entries[key].mass is Some,
        |key: u64| entries[key].mass->0,
    )
}

/// The entities that take part in gravity: those that have a mass and a
/// motion, each with both and with the force on it, if it has one.
pub open spec fn bodies_in(entries: Map<u64, Entry>) -> Map<
    u64,
    (MassComponent, Motion, Option<ForceComponent>),
> {
    Map::new(
        |key: u64|
            entries.dom().contains(key) && entries[key].mass is Some && entries[key].motion is Some,
        |key: u64| (entries[key].mass->0, entries[key].motion->0, entries[key].force),
    )
}

/// The entities that have a thrust and a force, each with both.
pub open spec fn thrusts_in(entries: Map<u64, Entry>) -> Map<
    u64,
    (PropulsionComponent, ForceComponent),
> {
    Map::new(
        |key: u64|
            entries.dom().contains(key) && entries[key].propulsion is Some
                && entries[key].force is Some,
        |key: u64| (entries[key].propulsion->0, entries[key].force->0),
    )
}

/// The entities that a force accelerates: those that have a force, a mass
/// and a motion, each with all three.
pub open spec fn loads_in(entries: Map<u64, Entry>) -> Map<
    u64,
    (ForceComponent, MassComponent, Motion),
> {
    Map::new(
        |key: u64|
            entries.dom().contains(key) && entries[key].force is Some && entries[key].mass is Some
                && entries[key].motion is Some,
        |key: u64| (entries[key].force->0, entries[key].mass->0, entries[key].motion->0),
    )
}

/// The entities that have a motion, each with it.
pub open spec fn motions_in(entries: Map<u64, Entry>) -> Map<u64, Motion> {
    Map::new(
        |key: u64| entries.dom().contains(key) && entries[key].motion is Some,
        |key: u64| entries[key].motion->0,
    )
}

/// The entities that have a place on the screen, each with its motion and
/// its render box.
pub open spec fn projections_in(entries: Map<u64, Entry>) -> Map<
    u64,
    (Motion, RenderBoxComponent),
> {
    Map::new(
        |key: u64| entries.dom().contains(key) && entries[key].is_projected(),
        |key: u64| (entries[key].motion->0, entries[key].render_box->0),
    )
}

/// The traces, each with its state and its render box.
pub open spec fn traces_in(entries: Map<u64, Entry>) -> Map<u64, (TraceState, RenderBoxComponent)> {
    Map::new(
        |key: u64| entries.dom().contains(key) && entries[key].is_trace(),
        |key: u64| (entries[key].trace->0, entries[key].render_box->0),
    )
}

/// The entities that leave traces, each with its render box, its sprite and
/// its motion.
pub open spec fn spawners_in(entries: Map<u64, Entry>) -> Map<
    u64,
    (RenderBoxComponent, Sprite, Motion),
> {
    Map::new(
        |key: u64| entries.dom().contains(key) && entries[key].is_spawner(),
        |key: u64| (entries[key].render_box->0, entries[key].sprite->0, entries[key].motion->0),
    )
}

/// The entities that the camera is to follow.
pub open spec fn followed_in(entries: Map<u64, Entry>) -> Map<u64, TrackingComponent> {
    Map::new(
        |key: u64| entries.dom().contains(key) && entries[key].followed,
        |key: u64| TrackingComponent {  },
    )
}

/// The entities that have a sprite and a render box, each with both.
pub open spec fn sprites_in(entries: Map<u64, Entry>) -> Map<u64, (Sprite, RenderBoxComponent)> {
    Map::new(
        |key: u64|
            entries.dom().contains(key) && entries[key].sprite is Some
                && entries[key].render_box is Some,
        |key: u64| (entries[key].sprite->0, entries[key].render_box->0),
    )
}

/// The entities that have a disc and a render box, each with both.
pub open spec fn circles_in(entries: Map<u64, Entry>) -> Map<
    u64,
    (CircleComponent, RenderBoxComponent),
> {
    Map::new(
        |key: u64|
            entries.dom().contains(key) && entries[key].circle is Some
                && entries[key].render_box is Some,
        |key: u64| (entries[key].circle->0, entries[key].render_box->0),
    )
}

/// The entities that have a name and a render box, each with both.
pub open spec fn names_in(entries: Map<u64, Entry>) -> Map<u64, (Seq<char>, RenderBoxComponent)> {
    Map::new(
        |key: u64|
            entries.dom().contains(key) && entries[key].name is Some
                && entries[key].render_box is Some,
        |key: u64| (entries[key].name->0, entries[key].render_box->0),
    )
}

/// The backgrounds.
pub open spec fn backgrounds_in(entries: Map<u64, Entry>) -> Map<u64, BackgroundComponent> {
    Map::new(
        |key: u64| entries.dom().contains(key) && entries[key].background is Some,
        |key: u64| entries[key].background->0,
    )
}

/// The rows with each trace taken by its state.
pub open spec fn trace_views(rows: Seq<(EntityId, (TraceComponent, RenderBoxComponent))>) -> Seq<
    (EntityId, (TraceState, RenderBoxComponent)),
> {
    Seq::new(rows.len(), |i: int| (rows[i].0, ((rows[i].1).0@, (rows[i].1).1)))
}

/// The rows with each name taken by its characters.
pub open spec fn name_views(rows: Seq<(EntityId, (NameComponent, RenderBoxComponent))>) -> Seq<
    (EntityId, (Seq<char>, RenderBoxComponent)),
> {
    Seq::new(rows.len(), |i: int| (rows[i].0, ((rows[i].1).0.name@, (rows[i].1).1)))
}

/// The entities that bear a force: each is listed once, with it.
pub(crate) fn force_rows(world: &mut hecs::World) -> (rows: Vec<(EntityId, ForceComponent)>)
    ensures
        entries(*final(world)) == entries(*old(world)),
        lists(rows@, forces_in(entries(*old(world)))),
{
    let rows = rows::<ForceComponent>(world);
    proof {
        assert(models(rows@) =~= rows@);
        assert(having::<ForceComponent>(entries(*world)) =~= forces_in(entries(*world)));
    }
    rows
}

/// The entities that have a mass: each is listed once, with it.
pub(crate) fn mass_rows(world: &mut hecs::World) -> (rows: Vec<(EntityId, MassComponent)>)
    ensures
        entries(*final(world)) == entries(*old(world)),
        lists(rows@, masses_in(entries(*old(world)))),
{
    let rows = rows::<MassComponent>(world);
    proof {
        assert(models(rows@) =~= rows@);
        assert(having::<MassComponent>(entries(*world)) =~= masses_in(entries(*world)));
    }
    rows
}

/// The entities that have a motion: each is listed once, with it.
pub(crate) fn motion_rows(world: &mut hecs::World) -> (rows: Vec<(EntityId, Motion)>)
    ensures
        entries(*final(world)) == entries(*old(world)),
        lists(rows@, motions_in(entries(*old(world)))),
{
    let rows = rows::<Motion>(world);
    proof {
        assert(models(rows@) =~= rows@);
        assert(having::<Motion>(entries(*world)) =~= motions_in(entries(*world)));
    }
    rows
}

/// The entities that are marked as followed: each is listed once.
pub(crate) fn followed_rows(world: &mut hecs::World) -> (rows: Vec<(EntityId, TrackingComponent)>)
    ensures
        entries(*final(world)) == entries(*old(world)),
        lists(rows@, followed_in(entries(*old(world)))),
{
    let rows = rows::<TrackingComponent>(world);
    proof {
        assert(models(rows@) =~= rows@);
        assert(having::<TrackingComponent>(entries(*world)) =~= followed_in(entries(*world)));
    }
    rows
}

/// The backgrounds: each is listed once.
pub(crate) fn background_rows(world: &mut hecs::World) -> (rows: Vec<
    (EntityId, BackgroundComponent),
>)
    ensures
        entries(*final(world)) == entries(*old(world)),
        lists(rows@, backgrounds_in(entries(*old(world)))),
{
    let rows = rows::<BackgroundComponent>(world);
    proof {
        assert(models(rows@) =~= rows@);
        assert(having::<BackgroundComponent>(entries(*world)) =~= backgrounds_in(entries(*world)));
    }
    rows
}

/// The entities that have a thrust and bear a force: each is listed once,
/// with both.
pub(crate) fn thrust_rows(world: &mut hecs::World) -> (rows: Vec<
    (EntityId, (PropulsionComponent, ForceComponent)),
>)
    ensures
        entries(*final(world)) == entries(*old(world)),
        lists(rows@, thrusts_in(entries(*old(world)))),
{
    let rows = select::<(PropulsionComponent, ForceComponent)>(world);
    proof {
        assert(joined_models(rows@) =~= rows@);
        assert(having_all::<(PropulsionComponent, ForceComponent)>(entries(*world)) =~= thrusts_in(
            entries(*world),
        ));
    }
    rows
}

/// The entities that bear a force and have a mass and a motion: each is
/// listed once, with all three.
pub(crate) fn load_rows(world: &mut hecs::World) -> (rows: Vec<
    (EntityId, (ForceComponent, MassComponent, Motion)),
>)
    ensures
        entries(*final(world)) == entries(*old(world)),
        lists(rows@, loads_in(entries(*old(world)))),
{
    let rows = select::<(ForceComponent, MassComponent, Motion)>(world);
    proof {
        assert(joined_models(rows@) =~= rows@);
        assert(having_all::<(ForceComponent, MassComponent, Motion)>(entries(*world)) =~= loads_in(
            entries(*world),
        ));
    }
    rows
}

/// The entities that have a motion and a render box: each is listed once,
/// with both.
pub(crate) fn projection_rows(world: &mut hecs::World) -> (rows: Vec<
    (EntityId, (Motion, RenderBoxComponent)),
>)
    ensures
        entries(*final(world)) == entries(*old(world)),
        lists(rows@, projections_in(entries(*old(world)))),
{
    let rows = select::<(Motion, RenderBoxComponent)>(world);
    proof {
        assert(joined_models(rows@) =~= rows@);
        assert(having_all::<(Motion, RenderBoxComponent)>(entries(*world)) =~= projections_in(
            entries(*world),
        ));
    }
    rows
}

/// The traces that have a render box: each is listed once, with both.
pub(crate) fn trace_rows(world: &mut hecs::World) -> (rows: Vec<
    (EntityId, (TraceComponent, RenderBoxComponent)),
>)
    ensures
        entries(*final(world)) == entries(*old(world)),
        lists(trace_views(rows@), traces_in(entries(*old(world)))),
{
    let rows = select::<(TraceComponent, RenderBoxComponent)>(world);
    proof {
        assert(joined_models(rows@) =~= trace_views(rows@));
        assert(having_all::<(TraceComponent, RenderBoxComponent)>(entries(*world)) =~= traces_in(
            entries(*world),
        ));
    }
    rows
}

/// The entities that have a sprite and a render box: each is listed once,
/// with both.
pub(crate) fn sprite_rows(world: &mut hecs::World) -> (rows: Vec<
    (EntityId, (Sprite, RenderBoxComponent)),
>)
    ensures
        entries(*final(world)) == entries(*old(world)),
        lists(rows@, sprites_in(entries(*old(world)))),
{
    let rows = select::<(Sprite, RenderBoxComponent)>(world);
    proof {
        assert(joined_models(rows@) =~= rows@);
        assert(having_all::<(Sprite, RenderBoxComponent)>(entries(*world)) =~= sprites_in(
            entries(*world),
        ));
    }
    rows
}

/// The entities that have a disc and a render box: each is listed once,
/// with both.
pub(crate) fn circle_rows(world: &mut hecs::World) -> (rows: Vec<
    (EntityId, (CircleComponent, RenderBoxComponent)),
>)
    ensures
        entries(*final(world)) == entries(*old(world)),
        lists(rows@, circles_in(entries(*old(world)))),
{
    let rows = select::<(CircleComponent, RenderBoxComponent)>(world);
    proof {
        assert(joined_models(rows@) =~= rows@);
        assert(having_all::<(CircleComponent, RenderBoxComponent)>(entries(*world)) =~= circles_in(
            entries(*world),
        ));
    }
    rows
}

/// The entities that have a name and a render box: each is listed once,
/// with a copy of its name and with its render box.
pub(crate) fn name_rows(world: &mut hecs::World) -> (rows: Vec<
    (EntityId, (NameComponent, RenderBoxComponent)),
>)
    ensures
        entries(*final(world)) == entries(*old(world)),
        lists(name_views(rows@), names_in(entries(*old(world)))),
{
    let rows = select::<(NameComponent, RenderBoxComponent)>(world);
    proof {
        assert(joined_models(rows@) =~= name_views(rows@));
        assert(having_all::<(NameComponent, RenderBoxComponent)>(entries(*world)) =~= names_in(
            entries(*world),
        ));
    }
    rows
}

/// The entities that have a mass and a motion: each is listed once, with
/// both and with the force on it, if it bears one.
pub(crate) fn body_rows(world: &mut hecs::World) -> (rows: Vec<
    (EntityId, (MassComponent, Motion, Option<ForceComponent>)),
>)
    ensures
        entries(*final(world)) == entries(*old(world)),
        lists(rows@, bodies_in(entries(*old(world)))),
{
    let ghost before = entries(*world);
    let pairs = select::<(MassComponent, Motion)>(world);
    let ghost listed = joined_models(pairs@);
    let ghost expected = having_all::<(MassComponent, Motion)>(before);
    let mut rows: Vec<(EntityId, (MassComponent, Motion, Option<ForceComponent>))> = Vec::new();
    let mut i: usize = 0;
    while i < pairs.len()
        invariant
            i <= pairs.len(),
            entries(*world) == before,
            listed == joined_models(pairs@),
            lists(listed, expected),
            expected == having_all::<(MassComponent, Motion)>(before),
            rows.len() == i,
            forall|j: int|
                0 <= j < i ==> (#[trigger] rows@[j]).0 == pairs@[j].0 && bodies_in(
                    before,
                ).contains_pair(rows@[j].0.bits, rows@[j].1),
        decreases pairs.len() - i,
    {
        let (id, pair) = pairs[i];
        let (mass, motion) = pair;
        assert(expected.contains_pair(listed[i as int].0.bits, listed[i as int].1));
        let force = read_force(world, id);
        rows.push((id, (mass, motion, force)));
        i = i + 1;
    }
    proof {
        assert forall|i: int| 0 <= i < rows@.len() implies (#[trigger] rows@[i]).0 == listed[i].0
            && bodies_in(before).contains_pair(rows@[i].0.bits, rows@[i].1) by {
            assert(rows@[i].0 == pairs@[i].0);
        }
        lemma_relisted(listed, expected, rows@, bodies_in(before));
    }
    rows
}

/// The entities that are marked as leaving traces and have a render box, a
/// sprite and a motion: each is listed once, with these three.
pub(crate) fn spawner_rows(world: &mut hecs::World) -> (rows: Vec<
    (EntityId, (RenderBoxComponent, Sprite, Motion)),
>)
    ensures
        entries(*final(world)) == entries(*old(world)),
        lists(rows@, spawners_in(entries(*old(world)))),
{
    let ghost before = entries(*world);
    let marked = select::<(RenderBoxComponent, Sprite, Motion, SpawnTraceSystem)>(world);
    let ghost listed = joined_models(marked@);
    let ghost expected = having_all::<(RenderBoxComponent, Sprite, Motion, SpawnTraceSystem)>(
        before,
    );
    let mut rows: Vec<(EntityId, (RenderBoxComponent, Sprite, Motion))> = Vec::new();
    let mut i: usize = 0;
    while i < marked.len()
        invariant
            i <= marked.len(),
            listed == joined_models(marked@),
            lists(listed, expected),
            expected == having_all::<(RenderBoxComponent, Sprite, Motion, SpawnTraceSystem)>(
                before,
            ),
            rows.len() == i,
            forall|j: int|
                0 <= j < i ==> (#[trigger] rows@[j]).0 == marked@[j].0 && spawners_in(
                    before,
                ).contains_pair(rows@[j].0.bits, rows@[j].1),
        decreases marked.len() - i,
    {
        let (id, parts) = marked[i];
        assert(expected.contains_pair(listed[i as int].0.bits, listed[i as int].1));
        rows.push((id, (parts.0, parts.1, parts.2)));
        i = i + 1;
    }
    proof {
        assert forall|i: int| 0 <= i < rows@.len() implies (#[trigger] rows@[i]).0 == listed[i].0
            && spawners_in(before).contains_pair(rows@[i].0.bits, rows@[i].1) by {
            assert(rows@[i].0 == marked@[i].0);
        }
        assert forall|key: u64|
            spawners_in(before).dom().contains(key) implies expected.dom().contains(key) by {}
        lemma_relisted(listed, expected, rows@, spawners_in(before));
    }
    rows
}

/// The render box of the entity `id`, if it is a live entity that has a
/// motion and a render box.
pub(crate) fn projected_box(world: &mut hecs::World, id: EntityId) -> (found: Option<
    RenderBoxComponent,
>)
    ensures
        entries(*final(world)) == entries(*old(world)),
        found == (if entries(*old(world)).dom().contains(id.bits) && entries(
            *old(world),
        )[id.bits].is_projected() {
            entries(*old(world))[id.bits].render_box
        } else {
            None
        }),
{
    match <(Motion, RenderBoxComponent)>::fetch(world, id) {
        Some(pair) => Some(pair.1),
        None => None,
    }
}

} // verus!
