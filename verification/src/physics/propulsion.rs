//! Thrust that an entity adds to the forces on it.
use crate::physics::force::{without_force, without_forces, Force, ForceComponent};
use crate::physics::gravity::after_gravity;
use crate::runtime::queries::{thrust_rows, thrusts_in};
use crate::runtime::rows::{applied, applied_where, lemma_applied_to_list, lists, Joined};
use crate::runtime::world::{entries, read_propulsion, set_force, EntityId, Entry, Stored};
use crate::scalar::Vector2;
use vstd::prelude::*;

verus! {

/// The thrust of one entity.
#[derive(Clone, Copy, PartialEq, Eq, Structural, Debug)]
pub struct PropulsionComponent {
    pub force: Force,
}

impl Stored for PropulsionComponent {
    type Model = PropulsionComponent;

    open spec fn model(&self) -> PropulsionComponent {
        *self
    }

    open spec fn of(entry: Entry) -> Option<PropulsionComponent> {
        entry.propulsion
    }

    fn component(world: &mut hecs::World, id: EntityId) -> (found: Option<Self>) {
        read_propulsion(world, id)
    }
}

impl PropulsionComponent {
    pub fn new(force: Force) -> (p: Self)
        ensures
            p.force == force,
    {
        PropulsionComponent { force }
    }

    pub fn zero() -> (p: Self)
        ensures
            p.force == Vector2::spec_zero(),
    {
        PropulsionComponent { force: Vector2::zero() }
    }
}

/// `entry` with `force` as the force on it, if it thrusts: it has a thrust
/// and bears a force.
pub open spec fn thrust(entry: Entry, force: ForceComponent) -> Option<Entry> {
    if entry.propulsion is Some && entry.force is Some {
        Some(Entry { force: Some(force), ..entry })
    } else {
        None
    }
}

/// `entries` after propulsion has stored the forces of the first `n` of
/// `rows`, in the order of the rows. A row whose entity is not there, or
/// does not thrust, is passed over.
pub open spec fn with_thrusts(
    entries: Map<u64, Entry>,
    rows: Seq<(EntityId, ForceComponent)>,
    n: int,
) -> Map<u64, Entry> {
    applied(entries, rows, n, push())
}

/// What propulsion does to an entity when it stores a force for it; see
/// `thrust`.
pub open spec fn push() -> spec_fn(Entry, ForceComponent) -> Option<Entry> {
    |entry: Entry, force: ForceComponent| thrust(entry, force)
}

/// The forces that the host hands to propulsion: for each entity that
/// thrusts, the sum of the force on it so far and of its thrust. `sum`
/// stands for the host's addition.
pub open spec fn thrust_sums(entries: Map<u64, Entry>, sum: spec_fn(Force, Force) -> Force) -> Map<
    u64,
    ForceComponent,
> {
    Map::new(
        |key: u64|
            entries.dom().contains(key) && thrust(entries[key], entries[key].force->0) is Some,
        |key: u64|
            ForceComponent {
                force: sum(entries[key].force->0.force, entries[key].propulsion->0.force),
            },
    )
}

/// `entries` after propulsion has run: the force on each entity that
/// thrusts is the sum of the force on it so far and of its thrust, and all
/// else is as it was.
pub open spec fn after_propulsion(
    entries: Map<u64, Entry>,
    sum: spec_fn(Force, Force) -> Force,
) -> Map<u64, Entry> {
    applied_where(entries, thrust_sums(entries, sum), push())
}

/// Propulsion adds to the forces: where the host hands over, for each
/// entity that thrusts, the sum of the force so far and of its thrust,
/// `PropulsionSystem::update` leaves on each such entity that sum, and
/// changes nothing else: not the thrust, not a mass or a motion, and not
/// the force on an entity that does not thrust.
pub proof fn lemma_propulsion_adds(
    entries: Map<u64, Entry>,
    rows: Seq<(EntityId, ForceComponent)>,
    sum: spec_fn(Force, Force) -> Force,
)
    requires
        lists(rows, thrust_sums(entries, sum)),
    ensures
        with_thrusts(entries, rows, rows.len() as int) == after_propulsion(entries, sum),
        after_propulsion(entries, sum).dom() == entries.dom(),
        forall|key: u64|
            entries.dom().contains(key) ==> #[trigger] after_propulsion(entries, sum)[key] == (
            if thrust(entries[key], entries[key].force->0) is Some {
                Entry {
                    force: Some(
                        ForceComponent {
                            force: sum(
                                entries[key].force->0.force,
                                entries[key].propulsion->0.force,
                            ),
                        },
                    ),
                    ..entries[key]
                }
            } else {
                entries[key]
            }),
{
    lemma_applied_to_list(entries, rows, thrust_sums(entries, sum), push());
    assert(after_propulsion(entries, sum).dom() =~= entries.dom());
}

/// The sums of the host do not depend on the order in which two forces are
/// added to none: zero plus one and then the other is zero plus the other
/// and then the one.
pub open spec fn adds_in_either_order(sum: spec_fn(Force, Force) -> Force) -> bool {
    forall|one: Force, other: Force| #[trigger]
        sum(sum(Vector2::spec_zero(), one), other) == sum(sum(Vector2::spec_zero(), other), one)
}

/// After a reset, gravity and propulsion leave the same forces in either
/// order, where the sums of the host do not depend on the order: on an
/// entity that takes part in both, the pull and the thrust added to zero;
/// on one that takes part in one of them, that contribution added to zero;
/// on any other, what the reset left. Nothing but forces has changed.
pub proof fn lemma_gravity_and_propulsion_in_either_order(
    entries: Map<u64, Entry>,
    pulls: Map<u64, Force>,
    sum: spec_fn(Force, Force) -> Force,
)
    requires
        adds_in_either_order(sum),
    ensures
        after_propulsion(after_gravity(without_forces(entries), pulls, sum), sum) == after_gravity(
            after_propulsion(without_forces(entries), sum),
            pulls,
            sum,
        ),
        forall|key: u64|
            entries.dom().contains(key) ==> #[trigger] after_propulsion(
                after_gravity(without_forces(entries), pulls, sum),
                sum,
            )[key] == (Entry {
                force: contributions(entries[key], pulls[key], sum),
                ..entries[key]
            }),
{
    let reset = without_forces(entries);
    let first = after_propulsion(after_gravity(reset, pulls, sum), sum);
    let second = after_gravity(after_propulsion(reset, sum), pulls, sum);
    assert forall|key: u64| entries.dom().contains(key) implies #[trigger] first[key] == (Entry {
        force: contributions(entries[key], pulls[key], sum),
        ..entries[key]
    }) && second[key] == first[key] by {
        let entry = entries[key];
        assert(reset[key] == without_force(entry));
        if entry.force is Some && entry.mass is Some && entry.motion is Some
            && entry.propulsion is Some {
            assert(sum(sum(Vector2::spec_zero(), pulls[key]), entry.propulsion->0.force) == sum(
                sum(Vector2::spec_zero(), entry.propulsion->0.force),
                pulls[key],
            ));
        }
    }
    assert(first =~= second);
}

/// The force that gravity and propulsion leave on `entry` after a reset,
/// where `pull` is the pull of gravity on it: the contributions of the
/// systems that it takes part in, added to zero.
pub open spec fn contributions(
    entry: Entry,
    pull: Force,
    sum: spec_fn(Force, Force) -> Force,
) -> Option<ForceComponent> {
    if entry.force is None {
        None
    } else {
        let by_gravity = if entry.mass is Some && entry.motion is Some {
            sum(Vector2::spec_zero(), pull)
        } else {
            Vector2::spec_zero()
        };
        if entry.propulsion is Some {
            Some(ForceComponent { force: sum(by_gravity, entry.propulsion->0.force) })
        } else {
            Some(ForceComponent { force: by_gravity })
        }
    }
}

/// Propulsion: the thrust of an entity adds to the force on it. The system
/// finds the entities and stores the forces; the sums are computed by the
/// host.
#[derive(Clone, Copy, Debug)]
pub struct PropulsionSystem {}

impl PropulsionSystem {
    pub fn new() -> (s: Self) {
        PropulsionSystem {  }
    }

    /// The entities that thrust: every entity that has a thrust and bears a
    /// force, once, with both.
    pub fn thrusts(&self, world: &mut hecs::World) -> (rows: Vec<
        (EntityId, (PropulsionComponent, ForceComponent)),
    >)
        ensures
            entries(*final(world)) == entries(*old(world)),
            lists(rows@, thrusts_in(entries(*old(world)))),
    {
        thrust_rows(world)
    }

    /// Stores the forces that the host has computed: for each entity the
    /// force on it so far plus its thrust. A force for an entity that does
    /// not thrust is dropped.
    pub fn update(&self, world: &mut hecs::World, forces: &Vec<(EntityId, ForceComponent)>)
        ensures
            entries(*final(world)) == with_thrusts(
                entries(*old(world)),
                forces@,
                forces.len() as int,
            ),
    {
        let ghost before = entries(*world);
        let mut i: usize = 0;
        while i < forces.len()
            invariant
                i <= forces.len(),
                entries(*world) == with_thrusts(before, forces@, i as int),
            decreases forces.len() - i,
        {
            let (id, force) = forces[i];
            match <(PropulsionComponent, ForceComponent)>::fetch(world, id) {
                Some(_) => {
                    set_force(world, id, force);
                },
                None => {},
            }
            i = i + 1;
        }
    }
}

} // verus!
