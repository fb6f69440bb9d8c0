//! Mass, the source of gravity.
use crate::physics::force::{Force, ForceComponent};
use crate::physics::motion::{Motion, Position};
use crate::runtime::queries::{bodies_in, body_rows};
use crate::runtime::rows::{applied, applied_where, lemma_applied_to_list, lists, Joined};
use crate::runtime::world::{entries, read_mass, set_force, EntityId, Entry, Stored};
use crate::scalar::{Real, Vector2};
use vstd::prelude::*;

verus! {

pub type Mass = Real;

/// The mass of one entity. An entity without it neither pulls nor is pulled.
#[derive(Clone, Copy, PartialEq, Eq, Structural, Debug)]
pub struct MassComponent {
    pub mass: Mass,
}

impl Stored for MassComponent {
    type Model = MassComponent;

    open spec fn model(&self) -> MassComponent {
        *self
    }

    open spec fn of(entry: Entry) -> Option<MassComponent> {
        entry.mass
    }

    fn component(world: &mut hecs::World, id: EntityId) -> (found: Option<Self>) {
        read_mass(world, id)
    }
}

impl MassComponent {
    pub fn new(mass: Mass) -> (m: Self)
        ensures
            m.mass == mass,
    {
        MassComponent { mass }
    }
}

/// A body as gravity sees it: its mass, where it is, and which entity it
/// is.
#[derive(Clone, Copy, PartialEq, Eq, Structural, Debug)]
pub struct GravityCalculation {
    pub mass: Mass,
    pub position: Position,
    pub entity: EntityId,
}

/// Two numbers are the same number: neither is less than the other, and
/// both are numbers. Zeros of both signs are the same.
pub open spec fn same_number(one: Real, other: Real) -> bool {
    !one.is_nan() && !other.is_nan() && !one.less_than(other) && !other.less_than(one)
}

impl GravityCalculation {
    /// The body is in the place of `rhs`: their positions are the same,
    /// coordinate by coordinate.
    pub open spec fn spec_same_place(&self, rhs: &GravityCalculation) -> bool {
        same_number(self.position.x, rhs.position.x) && same_number(
            self.position.y,
            rhs.position.y,
        )
    }

    /// Whether the body is in the place of `rhs`.
    #[verifier::when_used_as_spec(spec_same_place)]
    pub fn same_place(&self, rhs: &GravityCalculation) -> (same: bool)
        ensures
            same == self.spec_same_place(rhs),
    {
        let x = self.position.x;
        let y = self.position.y;
        let other_x = rhs.position.x;
        let other_y = rhs.position.y;
        !x.is_nan() && !other_x.is_nan() && !x.less_than(other_x) && !other_x.less_than(x)
            && !y.is_nan() && !other_y.is_nan() && !y.less_than(other_y) && !other_y.less_than(y)
    }

    /// The force with which the body `rhs` pulls at this body, which is
    /// `distance` away from it, where `pull` is what Newton's law gives for
    /// the two. A body does not pull at itself, and bodies in one place do
    /// not pull at each other: the force is zero for one and the same
    /// entity, for the same position and for a distance of zero, whatever
    /// the masses and `pull` are. Else it is `pull`.
    pub open spec fn spec_acceleration(
        &self,
        rhs: &GravityCalculation,
        distance: Real,
        pull: Force,
    ) -> Force {
        if self.entity == rhs.entity || self.same_place(rhs) || distance.is_zero() {
            Vector2::spec_zero()
        } else {
            pull
        }
    }

    /// The force with which the body `rhs` pulls at this body, which is
    /// `distance` away from it, where `pull` is what Newton's law gives for
    /// the two.
    #[verifier::when_used_as_spec(spec_acceleration)]
    pub fn acceleration(&self, rhs: &GravityCalculation, distance: Real, pull: Force) -> (force:
        Force)
        ensures
            force == self.spec_acceleration(rhs, distance, pull),
            self.entity == rhs.entity ==> force == Vector2::spec_zero(),
            self.same_place(rhs) ==> force == Vector2::spec_zero(),
            distance.is_zero() ==> force == Vector2::spec_zero(),
    {
        if self.entity.bits == rhs.entity.bits || self.same_place(rhs) || distance.is_zero() {
            Vector2::zero()
        } else {
            pull
        }
    }
}

/// Bodies in one place do not pull at each other, whatever the host has
/// computed for them: where the coordinates of two positions are the same
/// numbers, the force is zero for any masses, any distance and any pull.
pub proof fn lemma_no_pull_in_one_place(
    body: GravityCalculation,
    other: GravityCalculation,
    distance: Real,
    pull: Force,
)
    requires
        same_number(body.position.x, other.position.x),
        same_number(body.position.y, other.position.y),
    ensures
        body.spec_acceleration(&other, distance, pull) == Vector2::spec_zero(),
        other.spec_acceleration(&body, distance, pull) == Vector2::spec_zero(),
{
}

/// `entry` with `force` as the force on it, if it is a body that bears a
/// force: it has a mass, a motion and a force.
pub open spec fn pulled(entry: Entry, force: ForceComponent) -> Option<Entry> {
    if entry.mass is Some && entry.motion is Some && entry.force is Some {
        Some(Entry { force: Some(force), ..entry })
    } else {
        None
    }
}

/// `entries` after gravity has stored the forces of the first `n` of `rows`,
/// in the order of the rows. A row whose entity is not there, or is no body
/// that bears a force, is passed over.
pub open spec fn with_pulls(
    entries: Map<u64, Entry>,
    rows: Seq<(EntityId, ForceComponent)>,
    n: int,
) -> Map<u64, Entry> {
    applied(entries, rows, n, pull())
}

/// What gravity does to an entity when it stores a force for it; see
/// `pulled`.
pub open spec fn pull() -> spec_fn(Entry, ForceComponent) -> Option<Entry> {
    |entry: Entry, force: ForceComponent| pulled(entry, force)
}

/// The forces that the host hands to gravity: for each body that bears a
/// force, the sum of the force on it so far and of the pull of all bodies
/// on it. `pulls` gives the pull on each body, and `sum` stands for the
/// host's addition.
pub open spec fn pull_sums(
    entries: Map<u64, Entry>,
    pulls: Map<u64, Force>,
    sum: spec_fn(Force, Force) -> Force,
) -> Map<u64, ForceComponent> {
    Map::new(
        |key: u64|
            entries.dom().contains(key) && pulled(entries[key], entries[key].force->0) is Some,
        |key: u64| ForceComponent { force: sum(entries[key].force->0.force, pulls[key]) },
    )
}

/// `entries` after gravity has run: the force on each body that bears one
/// is the sum of the force on it so far and of the pull on it, and all else
/// is as it was.
pub open spec fn after_gravity(
    entries: Map<u64, Entry>,
    pulls: Map<u64, Force>,
    sum: spec_fn(Force, Force) -> Force,
) -> Map<u64, Entry> {
    applied_where(entries, pull_sums(entries, pulls, sum), pull())
}

/// Gravity adds to the forces: where the host hands over, for each body
/// that bears a force, the sum of the force so far and of the pull on it,
/// `GravitySystem::update` leaves on each such body that sum, and changes
/// nothing else.
pub proof fn lemma_gravity_adds(
    entries: Map<u64, Entry>,
    rows: Seq<(EntityId, ForceComponent)>,
    pulls: Map<u64, Force>,
    sum: spec_fn(Force, Force) -> Force,
)
    requires
        lists(rows, pull_sums(entries, pulls, sum)),
    ensures
        with_pulls(entries, rows, rows.len() as int) == after_gravity(entries, pulls, sum),
        after_gravity(entries, pulls, sum).dom() == entries.dom(),
        forall|key: u64|
            entries.dom().contains(key) ==> #[trigger] after_gravity(entries, pulls, sum)[key] == (
            if pulled(entries[key], entries[key].force->0) is Some {
                Entry {
                    force: Some(
                        ForceComponent { force: sum(entries[key].force->0.force, pulls[key]) },
                    ),
                    ..entries[key]
                }
            } else {
                entries[key]
            }),
{
    lemma_applied_to_list(entries, rows, pull_sums(entries, pulls, sum), pull());
    assert(after_gravity(entries, pulls, sum).dom() =~= entries.dom());
}

/// Gravity: every body that has a mass and a motion pulls at every other.
/// The system finds the bodies and stores the forces; the forces
/// themselves are arithmetic on the numbers and are computed by the host.
#[derive(Clone, Copy, Debug)]
pub struct GravitySystem {}

impl Default for GravitySystem {
    fn default() -> (s: Self) {
        GravitySystem::new()
    }
}

impl GravitySystem {
    pub fn new() -> (s: Self) {
        GravitySystem {  }
    }

    /// The bodies that take part in gravity: every entity that has a mass
    /// and a motion, once, with both and with the force on it so far, if it
    /// bears one. An entity without mass or without motion is left out.
    pub fn bodies(&self, world: &mut hecs::World) -> (rows: Vec<
        (EntityId, (MassComponent, Motion, Option<ForceComponent>)),
    >)
        ensures
            entries(*final(world)) == entries(*old(world)),
            lists(rows@, bodies_in(entries(*old(world)))),
    {
        body_rows(world)
    }

    /// Stores the forces that the host has computed: for each body the
    /// force on it so far plus the pull of all bodies on it. A force for an
    /// entity that is no body, or bears no force, is dropped.
    pub fn update(&mut self, world: &mut hecs::World, forces: &Vec<(EntityId, ForceComponent)>)
        ensures
            entries(*final(world)) == with_pulls(
                entries(*old(world)),
                forces@,
                forces.len() as int,
            ),
    {
        let ghost before = entries(*world);
        let mut i: usize = 0;
        while i < forces.len()
            invariant
                i <= forces.len(),
                entries(*world) == with_pulls(before, forces@, i as int),
            decreases forces.len() - i,
        {
            let (id, force) = forces[i];
            match <(MassComponent, Motion, ForceComponent)>::fetch(world, id) {
                Some(_) => {
                    set_force(world, id, force);
                },
                None => {},
            }
            i = i + 1;
        }
    }
}

} // verus!
