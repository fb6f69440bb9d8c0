//! Where a body is and how it moves.
use crate::runtime::queries::{motion_rows, motions_in};
use crate::runtime::rows::{applied, lists};
use crate::runtime::world::{entries, read_motion, set_motion, EntityId, Entry, Stored};
use crate::scalar::Vector2;
use vstd::prelude::*;

verus! {

pub type Position = Vector2;

pub type Velocity = Vector2;

pub type Acceleration = Vector2;

/// The kinematic state of one entity.
#[derive(Clone, Copy, PartialEq, Eq, Structural, Debug)]
pub struct Motion {
    pub position: Position,
    pub velocity: Velocity,
    pub acceleration: Acceleration,
}

impl Stored for Motion {
    type Model = Motion;

    open spec fn model(&self) -> Motion {
        *self
    }

    open spec fn of(entry: Entry) -> Option<Motion> {
        entry.motion
    }

    fn component(world: &mut hecs::World, id: EntityId) -> (found: Option<Self>) {
        read_motion(world, id)
    }
}

impl Motion {
    pub fn new(position: Position, velocity: Velocity, acceleration: Acceleration) -> (m: Self)
        ensures
            m == (Motion { position, velocity, acceleration }),
    {
        Motion { position, velocity, acceleration }
    }

    /// A state at rest at `position`.
    pub fn position(position: Position) -> (m: Self)
        ensures
            m == (Motion {
                position,
                velocity: Vector2::spec_zero(),
                acceleration: Vector2::spec_zero(),
            }),
    {
        Motion::new(position, Vector2::zero(), Vector2::zero())
    }

    /// A state at `position` that moves with `velocity` and is not
    /// accelerated.
    pub fn new_position_velocity(position: Position, velocity: Velocity) -> (m: Self)
        ensures
            m == (Motion { position, velocity, acceleration: Vector2::spec_zero() }),
    {
        Motion::new(position, velocity, Vector2::zero())
    }

    /// The state frozen where it is: the same position, at rest.
    pub open spec fn spec_halted(self) -> Motion {
        Motion {
            position: self.position,
            velocity: Vector2::spec_zero(),
            acceleration: Vector2::spec_zero(),
        }
    }

    /// The state frozen where it is: the same position, at rest.
    #[verifier::when_used_as_spec(spec_halted)]
    pub fn halted(self) -> (m: Self)
        ensures
            m == self.spec_halted(),
    {
        Motion::position(self.position)
    }
}

/// `entry` moved to where `step` says, with the velocity that `step` says,
/// if it has a motion. Its acceleration stays.
pub open spec fn advanced(entry: Entry, step: (Position, Velocity)) -> Option<Entry> {
    if entry.motion is Some {
        Some(
            Entry {
                motion: Some(Motion { position: step.0, velocity: step.1, ..entry.motion->0 }),
                ..entry
            },
        )
    } else {
        None
    }
}

/// `entries` after the steps of the first `n` of `rows` are stored, in the
/// order of the rows. A row whose entity is not there, or has no motion, is
/// passed over.
pub open spec fn with_steps(
    entries: Map<u64, Entry>,
    rows: Seq<(EntityId, (Position, Velocity))>,
    n: int,
) -> Map<u64, Entry> {
    applied(entries, rows, n, |entry: Entry, value: (Position, Velocity)| advanced(entry, value))
}

/// Advances every motion by one time step. The system finds the motions
/// and stores them; the step itself is arithmetic on the numbers and is
/// computed by the host.
#[derive(Clone, Copy, Debug)]
pub struct MotionSystem {}

impl Default for MotionSystem {
    fn default() -> (s: Self) {
        MotionSystem::new()
    }
}

impl MotionSystem {
    pub fn new() -> (s: Self) {
        MotionSystem {  }
    }

    /// What moves: every entity that has a motion, once, with it.
    pub fn motions(&self, world: &mut hecs::World) -> (rows: Vec<(EntityId, Motion)>)
        ensures
            entries(*final(world)) == entries(*old(world)),
            lists(rows@, motions_in(entries(*old(world)))),
    {
        motion_rows(world)
    }

    /// Stores the steps that the host has computed: for each entity the
    /// velocity at the end of the time step, which is the velocity before it
    /// plus what the acceleration adds in that time, and the position at
    /// its end, which is the position before it plus what that new velocity
    /// adds. A step for an entity without motion is dropped.
    pub fn update(&mut self, world: &mut hecs::World, steps: &Vec<(EntityId, (Position, Velocity))>)
        ensures
            entries(*final(world)) == with_steps(entries(*old(world)), steps@, steps.len() as int),
    {
        let ghost before = entries(*world);
        let mut i: usize = 0;
        while i < steps.len()
            invariant
                i <= steps.len(),
                entries(*world) == with_steps(before, steps@, i as int),
            decreases steps.len() - i,
        {
            let (id, step) = steps[i];
            match read_motion(world, id) {
                Some(motion) => {
                    set_motion(world, id, Motion::new(step.0, step.1, motion.acceleration));
                },
                None => {},
            }
            i = i + 1;
        }
    }
}

} // verus!
