//! The speed at which simulated time runs.
use crate::physics::force::{
    no_massless, with_accelerations, without_forces, ForceComponent, ForceError, ForceSystem,
};
use crate::physics::gravity::{with_pulls, GravitySystem};
use crate::physics::motion::{with_steps, Acceleration, MotionSystem, Position, Velocity};
use crate::physics::propulsion::{with_thrusts, PropulsionSystem};
use crate::runtime::queries::loads_in;
use crate::runtime::world::{entries, EntityId, Entry};
use crate::scalar::Real;
use vstd::prelude::*;

verus! {

/// The number of speed presets.
pub const PRESETS: usize = 14;

/// The preset that a new universe selects.
pub const DEFAULT_PRESET: usize = 9;

/// The speed presets in rising order, simulated seconds per second, each by
/// the bit pattern of its encoding: 10, 100, 250, 500, 750, 1000, 2500,
/// 5000, 7500, 10000, 25000, 50000, 75000 and 100000.
pub const ACCELERATIONS: [u64; 14] = [
    0x4024_0000_0000_0000,
    0x4059_0000_0000_0000,
    0x406F_4000_0000_0000,
    0x407F_4000_0000_0000,
    0x4087_7000_0000_0000,
    0x408F_4000_0000_0000,
    0x40A3_8800_0000_0000,
    0x40B3_8800_0000_0000,
    0x40BD_4C00_0000_0000,
    0x40C3_8800_0000_0000,
    0x40D8_6A00_0000_0000,
    0x40E8_6A00_0000_0000,
    0x40F2_4F80_0000_0000,
    0x40F8_6A00_0000_0000,
];

/// The work of one update tick, piece by piece.
#[derive(Clone, Copy, PartialEq, Eq, Structural, Debug)]
pub enum Phase {
    /// The force on every entity is set to zero.
    Reset,
    /// Gravity adds the pull of the bodies to the forces.
    Gravity,
    /// Propulsion adds the thrusts to the forces.
    Propulsion,
    /// The forces are turned into accelerations.
    Resolve,
    /// The bodies move by one time step.
    Integrate,
}

/// The phase of an update tick that follows `done`, where `None` stands for
/// the start of the tick and for its end: the forces are reset before
/// anything adds to them, gravity and propulsion add to them before they
/// are turned into accelerations, and the bodies move last.
pub open spec fn spec_next_phase(done: Option<Phase>) -> Option<Phase> {
    match done {
        None => Some(Phase::Reset),
        Some(Phase::Reset) => Some(Phase::Gravity),
        Some(Phase::Gravity) => Some(Phase::Propulsion),
        Some(Phase::Propulsion) => Some(Phase::Resolve),
        Some(Phase::Resolve) => Some(Phase::Integrate),
        Some(Phase::Integrate) => None,
    }
}

/// The phase that is due once `done` is done: the one that follows it in
/// the tick, and the first of the next tick after the last.
pub open spec fn following(done: Phase) -> Phase {
    match spec_next_phase(Some(done)) {
        Some(next) => next,
        None => Phase::Reset,
    }
}

/// What the host has computed for one phase of a tick.
pub enum Numbers {
    /// Nothing: the reset needs no numbers.
    Nothing,
    /// For gravity and for propulsion: for each entity that takes part, the
    /// force on it so far plus what the phase adds.
    Forces(Vec<(EntityId, ForceComponent)>),
    /// For the resolving: for each entity that a force accelerates, the
    /// force on it divided by its mass.
    Accelerations(Vec<(EntityId, Acceleration)>),
    /// For the integration: for each entity that moves, where it is and how
    /// fast it moves at the end of the time step.
    Steps(Vec<(EntityId, (Position, Velocity))>),
}

/// Why a phase of a tick was not done.
#[derive(Clone, Copy, PartialEq, Eq, Structural, Debug)]
pub enum TickError {
    /// The numbers are not those of the phase that is due, which is this
    /// one.
    WrongNumbers(Phase),
    /// The forces cannot be resolved: this entity bears a force and has a
    /// motion, and its mass is zero.
    ZeroMass(EntityId),
}

/// `numbers` are of the kind that the phase `due` takes.
pub open spec fn fits(due: Phase, numbers: Numbers) -> bool {
    match due {
        Phase::Reset => numbers is Nothing,
        Phase::Gravity => numbers is Forces,
        Phase::Propulsion => numbers is Forces,
        Phase::Resolve => numbers is Accelerations,
        Phase::Integrate => numbers is Steps,
    }
}

/// `entries` after the phase `due` is done with `numbers`, which fit it:
/// the reset clears the forces, gravity and propulsion store the forces,
/// the resolving stores the accelerations, and the integration stores the
/// steps.
pub open spec fn done_with(due: Phase, numbers: Numbers, entries: Map<u64, Entry>) -> Map<
    u64,
    Entry,
> {
    match due {
        Phase::Reset => without_forces(entries),
        Phase::Gravity => with_pulls(
            entries,
            numbers->Forces_0@,
            numbers->Forces_0@.len() as int,
        ),
        Phase::Propulsion => with_thrusts(
            entries,
            numbers->Forces_0@,
            numbers->Forces_0@.len() as int,
        ),
        Phase::Resolve => with_accelerations(
            entries,
            numbers->Accelerations_0@,
            numbers->Accelerations_0@.len() as int,
        ),
        Phase::Integrate => with_steps(
            entries,
            numbers->Steps_0@,
            numbers->Steps_0@.len() as int,
        ),
    }
}

/// The phase that is reached from the start of a tick in `n` steps.
pub open spec fn phase_after(n: nat) -> Option<Phase>
    decreases n,
{
    if n == 0 {
        None
    } else if n == 1 {
        spec_next_phase(None)
    } else {
        match phase_after((n - 1) as nat) {
            Some(phase) => spec_next_phase(Some(phase)),
            None => None,
        }
    }
}

/// What a universe is as far as time goes: the factor by which simulated
/// time runs faster than the clock, and the preset that was last selected.
/// A factor that is not above zero means that time stands still.
pub struct Speed {
    pub scale: Real,
    pub selected: nat,
}

impl Speed {
    pub open spec fn wf(self) -> bool {
        self.selected < PRESETS
    }

    /// The factor of the selected preset.
    pub open spec fn preset(self) -> Real {
        Real { bits: ACCELERATIONS[self.selected as int] }
    }

    /// Time runs: the factor is above zero.
    pub open spec fn is_running(self) -> bool {
        (Real { bits: 0 }).less_than(self.scale)
    }

    /// One preset faster, running; unchanged at the fastest preset.
    pub open spec fn speed_up(self) -> Speed {
        if self.selected < PRESETS - 1 {
            Speed {
                scale: Real { bits: ACCELERATIONS[self.selected as int + 1] },
                selected: self.selected + 1,
            }
        } else {
            self
        }
    }

    /// One preset slower, running; unchanged at the slowest preset.
    pub open spec fn slow_down(self) -> Speed {
        if self.selected > 0 {
            Speed {
                scale: Real { bits: ACCELERATIONS[self.selected as int - 1] },
                selected: (self.selected - 1) as nat,
            }
        } else {
            self
        }
    }

    /// Standing still if time ran, else running at the selected preset.
    pub open spec fn toggle_pause(self) -> Speed {
        if self.is_running() {
            Speed { scale: Real { bits: 0 }, selected: self.selected }
        } else {
            Speed { scale: self.preset(), selected: self.selected }
        }
    }

    /// `self` after `n` steps faster.
    pub open spec fn speed_up_times(self, n: nat) -> Speed
        decreases n,
    {
        if n == 0 {
            self
        } else {
            self.speed_up().speed_up_times((n - 1) as nat)
        }
    }

    /// `self` after `n` steps slower.
    pub open spec fn slow_down_times(self, n: nat) -> Speed
        decreases n,
    {
        if n == 0 {
            self
        } else {
            self.slow_down().slow_down_times((n - 1) as nat)
        }
    }
}

/// The simulated world's clock and the systems that advance the bodies.
pub struct Universe {
    acceleration: Real,
    motion: MotionSystem,
    gravity: GravitySystem,
    force: ForceSystem,
    selected_acceleration: usize,
    due: Phase,
}

impl View for Universe {
    type V = Speed;

    closed spec fn view(&self) -> Speed {
        Speed { scale: self.acceleration, selected: self.selected_acceleration as nat }
    }
}

impl Default for Universe {
    fn default() -> (u: Self)
        ensures
            u@ == (Speed {
                scale: Real { bits: ACCELERATIONS[DEFAULT_PRESET as int] },
                selected: DEFAULT_PRESET as nat,
            }),
    {
        Universe::new()
    }
}

impl Universe {
    #[verifier::type_invariant]
    spec fn selects_a_preset(self) -> bool {
        self.selected_acceleration < PRESETS
    }

    /// The phase of the tick that is due.
    pub closed spec fn spec_due(&self) -> Phase {
        self.due
    }

    /// The phase of the tick that is due: the host computes the numbers of
    /// this phase next and hands them to `update`.
    #[verifier::when_used_as_spec(spec_due)]
    pub fn due(&self) -> (phase: Phase)
        ensures
            phase == self.spec_due(),
    {
        self.due
    }

    /// A universe that runs at the default preset, at the start of a tick.
    pub fn new() -> (u: Self)
        ensures
            u.due() == Phase::Reset,
            u@ == (Speed {
                scale: Real { bits: ACCELERATIONS[DEFAULT_PRESET as int] },
                selected: DEFAULT_PRESET as nat,
            }),
            u@.wf(),
    {
        Universe {
            acceleration: Real::from_bits(ACCELERATIONS[9]),
            motion: MotionSystem::default(),
            gravity: GravitySystem::default(),
            force: ForceSystem::default(),
            selected_acceleration: 9,
            due: Phase::Reset,
        }
    }

    /// The factor by which simulated time runs faster than the clock.
    pub fn acceleration(&self) -> (scale: Real)
        ensures
            scale == self@.scale,
    {
        self.acceleration
    }

    /// The index of the preset that was last selected.
    pub fn selected(&self) -> (index: usize)
        ensures
            index == self@.selected,
            index < PRESETS,
    {
        proof {
            use_type_invariant(self);
        }
        self.selected_acceleration
    }

    /// Sets the factor, whatever the presets are.
    pub fn change_acceleration(&mut self, new_acceleration: Real)
        ensures
            final(self)@ == (Speed { scale: new_acceleration, selected: old(self)@.selected }),
            final(self)@.wf(),
            final(self).due() == old(self).due(),
    {
        proof {
            use_type_invariant(&*self);
        }
        self.acceleration = new_acceleration;
    }

    /// The phase of an update tick that follows `done`; see
    /// `spec_next_phase`. The host does the phases in this order.
    pub fn next_phase(done: Option<Phase>) -> (next: Option<Phase>)
        ensures
            next == spec_next_phase(done),
    {
        match done {
            None => Some(Phase::Reset),
            Some(phase) => match phase {
                Phase::Reset => Some(Phase::Gravity),
                Phase::Gravity => Some(Phase::Propulsion),
                Phase::Propulsion => Some(Phase::Resolve),
                Phase::Resolve => Some(Phase::Integrate),
                Phase::Integrate => None,
            },
        }
    }

    /// One phase of an update tick: the phase that is due is done with the
    /// numbers that the host has computed for it, and the phase that
    /// follows is due then. A tick is the reset, gravity, propulsion, the
    /// resolving and the integration, in this order. Numbers that are not
    /// those of the phase that is due are refused, and so are the
    /// accelerations where an entity that a force accelerates has a mass of
    /// zero; nothing changes then.
    pub fn update(&mut self, world: &mut hecs::World, numbers: Numbers) -> (r: Result<
        Phase,
        TickError,
    >)
        ensures
            final(self)@ == old(self)@,
            r is Ok <==> fits(old(self).due(), numbers) && (old(self).due() == Phase::Resolve
                ==> no_massless(entries(*old(world)))),
            r is Ok ==> {
                &&& r == Ok::<Phase, TickError>(following(old(self).due()))
                &&& final(self).due() == following(old(self).due())
                &&& entries(*final(world)) == done_with(
                    old(self).due(),
                    numbers,
                    entries(*old(world)),
                )
            },
            r is Err ==> {
                &&& final(self).due() == old(self).due()
                &&& entries(*final(world)) == entries(*old(world))
                &&& !fits(old(self).due(), numbers) ==> r == Err::<Phase, TickError>(
                    TickError::WrongNumbers(old(self).due()),
                )
                &&& fits(old(self).due(), numbers) ==> r->Err_0 is ZeroMass && loads_in(
                    entries(*old(world)),
                ).dom().contains((r->Err_0)->ZeroMass_0.bits) && (loads_in(
                    entries(*old(world)),
                )[(r->Err_0)->ZeroMass_0.bits].1).mass.is_zero()
            },
    {
        proof {
            use_type_invariant(&*self);
        }
        let due = self.due;
        match numbers {
            Numbers::Nothing => {
                if due != Phase::Reset {
                    return Err(TickError::WrongNumbers(due));
                }
                let mut force = self.force;
                force.reset(world);
            },
            Numbers::Forces(forces) => {
                if due == Phase::Gravity {
                    let mut gravity = self.gravity;
                    gravity.update(world, &forces);
                } else if due == Phase::Propulsion {
                    PropulsionSystem::new().update(world, &forces);
                } else {
                    return Err(TickError::WrongNumbers(due));
                }
            },
            Numbers::Accelerations(accelerations) => {
                if due != Phase::Resolve {
                    return Err(TickError::WrongNumbers(due));
                }
                let mut force = self.force;
                match force.try_update(world, &accelerations) {
                    Ok(()) => {},
                    Err(ForceError::ZeroMass(id)) => {
                        return Err(TickError::ZeroMass(id));
                    },
                }
            },
            Numbers::Steps(steps) => {
                if due != Phase::Integrate {
                    return Err(TickError::WrongNumbers(due));
                }
                let mut motion = self.motion;
                motion.update(world, &steps);
            },
        }
        let next = match due {
            Phase::Reset => Phase::Gravity,
            Phase::Gravity => Phase::Propulsion,
            Phase::Propulsion => Phase::Resolve,
            Phase::Resolve => Phase::Integrate,
            Phase::Integrate => Phase::Reset,
        };
        self.due = next;
        Ok(next)
    }

    /// Selects the next faster preset and runs at it; does nothing at the
    /// fastest.
    pub fn speed_up(&mut self)
        ensures
            final(self)@ == old(self)@.speed_up(),
            final(self)@.wf(),
            final(self).due() == old(self).due(),
    {
        proof {
            use_type_invariant(&*self);
        }
        if self.selected_acceleration < ACCELERATIONS.len() - 1 {
            self.selected_acceleration += 1;
            self.change_acceleration(Real::from_bits(ACCELERATIONS[self.selected_acceleration]));
        }
    }

    /// Selects the next slower preset and runs at it; does nothing at the
    /// slowest.
    pub fn slow_down(&mut self)
        ensures
            final(self)@ == old(self)@.slow_down(),
            final(self)@.wf(),
            final(self).due() == old(self).due(),
    {
        proof {
            use_type_invariant(&*self);
        }
        if self.selected_acceleration > 0 {
            self.selected_acceleration -= 1;
            self.change_acceleration(Real::from_bits(ACCELERATIONS[self.selected_acceleration]));
        }
    }

    /// Stops time if it runs; else lets it run at the selected preset.
    pub fn toggle_pause(&mut self)
        ensures
            final(self)@ == old(self)@.toggle_pause(),
            final(self)@.wf(),
            final(self).due() == old(self).due(),
    {
        proof {
            use_type_invariant(&*self);
        }
        if Real::zero().less_than(self.acceleration) {
            self.acceleration = Real::zero();
        } else {
            self.change_acceleration(Real::from_bits(ACCELERATIONS[self.selected_acceleration]));
        }
    }
}

/// Stepping faster never leaves the presets, and at the fastest preset it
/// changes nothing.
pub proof fn lemma_speed_up_stays(speed: Speed)
    requires
        speed.wf(),
    ensures
        speed.speed_up().wf(),
        speed.speed_up().selected >= speed.selected,
        speed.selected == PRESETS - 1 ==> speed.speed_up() == speed,
{
}

/// Stepping slower never leaves the presets, and at the slowest preset it
/// changes nothing.
pub proof fn lemma_slow_down_stays(speed: Speed)
    requires
        speed.wf(),
    ensures
        speed.slow_down().wf(),
        speed.slow_down().selected <= speed.selected,
        speed.selected == 0 ==> speed.slow_down() == speed,
{
}

/// However often a universe is made faster, it selects a preset; once the
/// steps suffice to reach the fastest preset it selects that one, and if it
/// ran at its preset before, or took a step to get there, it runs at the
/// fastest factor.
pub proof fn lemma_speed_up_saturates(speed: Speed, n: nat)
    requires
        speed.wf(),
    ensures
        speed.speed_up_times(n).wf(),
        speed.selected + n >= PRESETS - 1 ==> speed.speed_up_times(n).selected == PRESETS - 1,
        speed.selected + n < PRESETS - 1 ==> speed.speed_up_times(n).selected == speed.selected + n,
        speed.selected + n >= PRESETS - 1 && (speed.scale == speed.preset() || speed.selected
            < PRESETS - 1) ==> speed.speed_up_times(n).scale == (Real { bits: ACCELERATIONS[13] }),
    decreases n,
{
    if n > 0 {
        lemma_speed_up_saturates(speed.speed_up(), (n - 1) as nat);
    }
}

/// However often a universe is made slower, it selects a preset; once the
/// steps suffice to reach the slowest preset it selects that one, and if it
/// ran at its preset before, or took a step to get there, it runs at the
/// slowest factor.
pub proof fn lemma_slow_down_saturates(speed: Speed, n: nat)
    requires
        speed.wf(),
    ensures
        speed.slow_down_times(n).wf(),
        n >= speed.selected ==> speed.slow_down_times(n).selected == 0,
        n < speed.selected ==> speed.slow_down_times(n).selected == speed.selected - n,
        n >= speed.selected && (speed.scale == speed.preset() || speed.selected > 0)
            ==> speed.slow_down_times(n).scale == (Real { bits: ACCELERATIONS[0] }),
    decreases n,
{
    if n > 0 {
        lemma_slow_down_saturates(speed.slow_down(), (n - 1) as nat);
    }
}

/// Pausing a running universe and resuming it brings back the factor of the
/// selected preset.
pub proof fn lemma_pause_resume(speed: Speed)
    requires
        speed.wf(),
        speed.is_running(),
    ensures
        speed.toggle_pause().scale == (Real { bits: 0 }),
        !speed.toggle_pause().is_running(),
        speed.toggle_pause().toggle_pause().scale == speed.preset(),
        speed.toggle_pause().toggle_pause().selected == speed.selected,
{
}

/// A tick does its five phases in their order, each once, and is over
/// then: the forces are reset, gravity and propulsion add to them, they are
/// turned into accelerations, and the bodies move.
pub proof fn lemma_phases_in_order()
    ensures
        phase_after(1) == Some(Phase::Reset),
        phase_after(2) == Some(Phase::Gravity),
        phase_after(3) == Some(Phase::Propulsion),
        phase_after(4) == Some(Phase::Resolve),
        phase_after(5) == Some(Phase::Integrate),
        forall|n: nat| n >= 6 ==> (#[trigger] phase_after(n)) is None,
{
    reveal_with_fuel(phase_after, 6);
    assert forall|n: nat| n >= 6 implies (#[trigger] phase_after(n)) is None by {
        lemma_tick_is_over(n);
    }
}

/// After its five phases a tick is over.
proof fn lemma_tick_is_over(n: nat)
    requires
        n >= 6,
    ensures
        phase_after(n) is None,
    decreases n,
{
    reveal_with_fuel(phase_after, 7);
    if n > 6 {
        lemma_tick_is_over((n - 1) as nat);
    }
}

/// A phase follows another only in the order of the tick: each phase has
/// one that it follows, and no phase comes twice.
pub proof fn lemma_phase_order_is_strict(done: Option<Phase>, other: Option<Phase>)
    requires
        spec_next_phase(done) == spec_next_phase(other),
    ensures
        done == other,
{
}

/// The phases that are due come round: from the reset, gravity is due
/// next, then propulsion, the resolving and the integration, and after it
/// the reset of the next tick.
pub proof fn lemma_tick_comes_round()
    ensures
        following(Phase::Reset) == Phase::Gravity,
        following(Phase::Gravity) == Phase::Propulsion,
        following(Phase::Propulsion) == Phase::Resolve,
        following(Phase::Resolve) == Phase::Integrate,
        following(Phase::Integrate) == Phase::Reset,
{
}

/// A whole tick, from the reset on: where the numbers of each phase fit
/// and no mass is zero when the forces are resolved, the world after the
/// five phases is the world with the forces reset, then the forces of
/// gravity and of propulsion stored, then the accelerations, then the
/// steps.
pub proof fn lemma_whole_tick(
    entries: Map<u64, Entry>,
    gravity: Numbers,
    propulsion: Numbers,
    resolving: Numbers,
    integration: Numbers,
)
    requires
        gravity is Forces,
        propulsion is Forces,
        resolving is Accelerations,
        integration is Steps,
    ensures
        fits(Phase::Reset, Numbers::Nothing),
        fits(following(Phase::Reset), gravity),
        fits(following(following(Phase::Reset)), propulsion),
        fits(following(following(following(Phase::Reset))), resolving),
        fits(following(following(following(following(Phase::Reset)))), integration),
        done_with(
            Phase::Integrate,
            integration,
            done_with(
                Phase::Resolve,
                resolving,
                done_with(
                    Phase::Propulsion,
                    propulsion,
                    done_with(
                        Phase::Gravity,
                        gravity,
                        done_with(Phase::Reset, Numbers::Nothing, entries),
                    ),
                ),
            ),
        ) == with_steps(
            with_accelerations(
                with_thrusts(
                    with_pulls(
                        without_forces(entries),
                        gravity->Forces_0@,
                        gravity->Forces_0@.len() as int,
                    ),
                    propulsion->Forces_0@,
                    propulsion->Forces_0@.len() as int,
                ),
                resolving->Accelerations_0@,
                resolving->Accelerations_0@.len() as int,
            ),
            integration->Steps_0@,
            integration->Steps_0@.len() as int,
        ),
{
}

} // verus!
