//! The force on an entity, gathered anew in every tick.
use crate::physics::gravity::MassComponent;
use crate::physics::motion::{Acceleration, Motion};
use crate::runtime::queries::{force_rows, forces_in, load_rows, loads_in};
use crate::runtime::rows::{
    applied, changed_prefix, lemma_changed_prefix_end, lemma_changed_prefix_start,
    lemma_changed_prefix_step, lists, Joined,
};
use crate::runtime::world::{entries, read_force, set_force, set_motion, EntityId, Entry, Stored};
use crate::scalar::Vector2;
use vstd::prelude::*;

verus! {

pub type Force = Vector2;

/// The net force on one entity in the current tick.
#[derive(Clone, Copy, PartialEq, Eq, Structural, Debug)]
pub struct ForceComponent {
    pub force: Force,
}

impl Stored for ForceComponent {
    type Model = ForceComponent;

    open spec fn model(&self) -> ForceComponent {
        *self
    }

    open spec fn of(entry: Entry) -> Option<ForceComponent> {
        entry.force
    }

    fn component(world: &mut hecs::World, id: EntityId) -> (found: Option<Self>) {
        read_force(world, id)
    }
}

impl ForceComponent {
    pub open spec fn spec_zero() -> ForceComponent {
        ForceComponent { force: Vector2::spec_zero() }
    }

    #[verifier::when_used_as_spec(spec_zero)]
    pub fn zero() -> (f: Self)
        ensures
            f == ForceComponent::spec_zero(),
    {
        ForceComponent { force: Vector2::zero() }
    }
}

/// `entry` with its force, if it has one, set to zero.
pub open spec fn without_force(entry: Entry) -> Entry {
    if entry.force is Some {
        Entry { force: Some(ForceComponent::spec_zero()), ..entry }
    } else {
        entry
    }
}

/// The same entities, each without force on it.
pub open spec fn without_forces(entries: Map<u64, Entry>) -> Map<u64, Entry> {
    Map::new(|key: u64| entries.dom().contains(key), |key: u64| without_force(entries[key]))
}

/// After a reset no entity bears a force other than zero, whatever it bore
/// before; the entities are the same, and all else about them is as it
/// was.
pub proof fn lemma_reset_clears(entries: Map<u64, Entry>, key: u64)
    requires
        entries.dom().contains(key),
    ensures
        without_forces(entries).dom() == entries.dom(),
        without_forces(entries)[key].force is Some <==> entries[key].force is Some,
        without_forces(entries)[key].force is Some ==> without_forces(entries)[key].force
            == Some(ForceComponent::spec_zero()),
        without_forces(entries)[key] == (Entry {
            force: without_forces(entries)[key].force,
            ..entries[key]
        }),
{
    assert(without_forces(entries).dom() =~= entries.dom());
}

/// A second reset changes nothing.
pub proof fn lemma_reset_twice(entries: Map<u64, Entry>)
    ensures
        without_forces(without_forces(entries)) == without_forces(entries),
{
    assert(without_forces(without_forces(entries)) =~= without_forces(entries));
}

/// Clears the forces at the start of a tick, and at its end stores the
/// accelerations that they give. The accelerations themselves are
/// arithmetic on the numbers and are computed by the host.
#[derive(Clone, Copy, Debug)]
pub struct ForceSystem {}

impl Default for ForceSystem {
    fn default() -> (s: Self) {
        ForceSystem::new()
    }
}

impl ForceSystem {
    pub fn new() -> (s: Self) {
        ForceSystem {  }
    }

    /// Sets the force on every entity to zero. Nothing else changes.
    pub fn reset(&mut self, world: &mut hecs::World)
        ensures
            entries(*final(world)) == without_forces(entries(*old(world))),
    {
        let rows = force_rows(world);
        let ghost before = entries(*world);
        let ghost change = |entry: Entry| without_force(entry);
        proof {
            lemma_changed_prefix_start(before, rows@, change);
        }
        let mut i: usize = 0;
        while i < rows.len()
            invariant
                i <= rows.len(),
                lists(rows@, forces_in(before)),
                forall|entry: Entry| #[trigger] change(entry) == without_force(entry),
                entries(*world) == changed_prefix(before, rows@, i as int, change),
            decreases rows.len() - i,
        {
            proof {
                lemma_changed_prefix_step(before, rows@, i as int, change, forces_in(before));
            }
            let found = set_force(world, rows[i].0, ForceComponent::zero());
            assert(found);
            i = i + 1;
        }
        proof {
            lemma_changed_prefix_end(before, rows@, change, forces_in(before));
            assert(entries(*world) =~= without_forces(before));
        }
    }
}

/// `entry` with `acceleration` as its acceleration, if a force accelerates
/// it: it bears a force and has a mass and a motion. Where it is and how
/// fast it moves stays.
pub open spec fn accelerated(entry: Entry, acceleration: Acceleration) -> Option<Entry> {
    if entry.force is Some && entry.mass is Some && entry.motion is Some {
        Some(Entry { motion: Some(Motion { acceleration, ..entry.motion->0 }), ..entry })
    } else {
        None
    }
}

/// `entries` after the accelerations of the first `n` of `rows` are stored,
/// in the order of the rows. A row whose entity is not there, or is not
/// accelerated by a force, is passed over.
pub open spec fn with_accelerations(
    entries: Map<u64, Entry>,
    rows: Seq<(EntityId, Acceleration)>,
    n: int,
) -> Map<u64, Entry> {
    applied(entries, rows, n, |entry: Entry, value: Acceleration| accelerated(entry, value))
}

/// Row `at` is the first of `rows` whose mass is zero.
pub open spec fn is_first_massless(
    rows: Seq<(EntityId, (ForceComponent, MassComponent, Motion))>,
    at: int,
) -> bool {
    &&& 0 <= at < rows.len()
    &&& (rows[at].1).1.mass.is_zero()
    &&& forall|j: int| 0 <= j < at ==> !((#[trigger] rows[j]).1).1.mass.is_zero()
}

/// No entity that a force accelerates has a mass of zero.
pub open spec fn no_massless(entries: Map<u64, Entry>) -> bool {
    forall|key: u64| #[trigger]
        loads_in(entries).dom().contains(key) ==> !(loads_in(entries)[key].1).mass.is_zero()
}

/// Why the forces cannot be turned into accelerations.
#[derive(Clone, Copy, PartialEq, Eq, Structural, Debug)]
pub enum ForceError {
    /// This entity bears a force and has a motion, and its mass is zero.
    ZeroMass(EntityId),
}

impl ForceSystem {
    /// The first entity of `rows` whose mass is zero: a force gives it no
    /// acceleration, so the host must not go on with it. `None` if every
    /// mass is other than zero.
    pub fn massless(&self, rows: &Vec<(EntityId, (ForceComponent, MassComponent, Motion))>) -> (id:
        Option<EntityId>)
        ensures
            id is None <==> forall|j: int|
                0 <= j < rows.len() ==> !((#[trigger] rows@[j]).1).1.mass.is_zero(),
            id is Some ==> exists|at: int|
                is_first_massless(rows@, at) && (#[trigger] rows@[at]).0 == id->0,
    {
        let mut i: usize = 0;
        while i < rows.len()
            invariant
                i <= rows.len(),
                forall|j: int| 0 <= j < i ==> !((#[trigger] rows@[j]).1).1.mass.is_zero(),
            decreases rows.len() - i,
        {
            let (id, parts) = rows[i];
            if parts.1.mass.is_zero() {
                assert(is_first_massless(rows@, i as int));
                return Some(id);
            }
            i = i + 1;
        }
        None
    }

    /// What the forces accelerate: every entity that bears a force and has
    /// a mass and a motion, once, with all three.
    pub fn loads(&self, world: &mut hecs::World) -> (rows: Vec<
        (EntityId, (ForceComponent, MassComponent, Motion)),
    >)
        ensures
            entries(*final(world)) == entries(*old(world)),
            lists(rows@, loads_in(entries(*old(world)))),
    {
        load_rows(world)
    }

    /// Stores the accelerations that the host has computed: for each
    /// entity the force on it divided by its mass. An acceleration for an
    /// entity that bears no force, or has no mass or no motion, is dropped.
    /// No entity that a force accelerates may have a mass of zero: a force
    /// gives such an entity no acceleration.
    pub fn update(
        &mut self,
        world: &mut hecs::World,
        accelerations: &Vec<(EntityId, Acceleration)>,
    )
        requires
            no_massless(entries(*old(world))),
        ensures
            entries(*final(world)) == with_accelerations(
                entries(*old(world)),
                accelerations@,
                accelerations.len() as int,
            ),
    {
        let ghost before = entries(*world);
        let mut i: usize = 0;
        while i < accelerations.len()
            invariant
                i <= accelerations.len(),
                entries(*world) == with_accelerations(before, accelerations@, i as int),
            decreases accelerations.len() - i,
        {
            let (id, acceleration) = accelerations[i];
            match <(ForceComponent, MassComponent, Motion)>::fetch(world, id) {
                Some(load) => {
                    let mut motion = load.2;
                    motion.acceleration = acceleration;
                    set_motion(world, id, motion);
                },
                None => {},
            }
            i = i + 1;
        }
    }

    /// Stores the accelerations as `update` does, unless an entity that a
    /// force accelerates has a mass of zero: then nothing is stored, and
    /// the error names such an entity.
    pub fn try_update(
        &mut self,
        world: &mut hecs::World,
        accelerations: &Vec<(EntityId, Acceleration)>,
    ) -> (r: Result<(), ForceError>)
        ensures
            r is Ok <==> no_massless(entries(*old(world))),
            r is Ok ==> entries(*final(world)) == with_accelerations(
                entries(*old(world)),
                accelerations@,
                accelerations.len() as int,
            ),
            r is Err ==> entries(*final(world)) == entries(*old(world)),
            r is Err ==> loads_in(entries(*old(world))).dom().contains((r->Err_0)->ZeroMass_0.bits)
                && (loads_in(entries(*old(world)))[(r->Err_0)->ZeroMass_0.bits].1).mass.is_zero(),
    {
        let rows = load_rows(world);
        let ghost before = entries(*world);
        match self.massless(&rows) {
            Some(id) => {
                proof {
                    let at = choose|at: int|
                        is_first_massless(rows@, at) && (#[trigger] rows@[at]).0 == id;
                    assert(loads_in(before).contains_pair(rows@[at].0.bits, rows@[at].1));
                }
                Err(ForceError::ZeroMass(id))
            },
            None => {
                proof {
                    assert forall|key: u64| #[trigger]
                        loads_in(before).dom().contains(key) implies !(
                    loads_in(before)[key].1).mass.is_zero() by {
                        let j = choose|j: int|
                            0 <= j < rows@.len() && (#[trigger] rows@[j]).0.bits == key;
                        assert(loads_in(before).contains_pair(rows@[j].0.bits, rows@[j].1));
                    }
                }
                self.update(world, accelerations);
                Ok(())
            },
        }
    }
}

} // verus!
