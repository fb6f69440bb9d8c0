use hecs::World;
use planets::physics::force::{ForceComponent, ForceSystem};
use planets::physics::gravity::{GravityCalculation, GravitySystem, MassComponent};
use planets::physics::motion::{Motion, MotionSystem};
use planets::physics::propulsion::{PropulsionComponent, PropulsionSystem};
use planets::physics::universe::{
    Numbers, Phase, TickError, Universe, ACCELERATIONS, DEFAULT_PRESET, PRESETS,
};
use planets::runtime::world::{self, EntityId};
use planets::scalar::{Real, Vector2};

fn number(value: f64) -> Real {
    Real::from_bits(value.to_bits())
}

fn scale(universe: &Universe) -> f64 {
    f64::from_bits(universe.acceleration().to_bits())
}

#[test]
fn a_new_universe_runs_at_the_default_preset() {
    let universe = Universe::new();
    assert_eq!(scale(&universe), 10000.0);
    assert_eq!(universe.selected(), DEFAULT_PRESET);
    assert_eq!(scale(&Universe::default()), 10000.0);
}

#[test]
fn the_presets_are_the_table() {
    assert_eq!(PRESETS, 14);
    let table = [
        1.0e1, 1.0e2, 2.5e2, 5.0e2, 7.5e2, 1.0e3, 2.5e3, 5.0e3, 7.5e3, 1.0e4, 2.5e4, 5.0e4, 7.5e4,
        1.0e5,
    ];
    assert_eq!(ACCELERATIONS.map(f64::from_bits), table);
}

#[test]
fn speed_up_walks_the_presets_and_stops_at_the_top() {
    let mut universe = Universe::new();
    let mut seen = vec![];
    for _ in 0..4 {
        universe.speed_up();
        seen.push(scale(&universe));
    }
    assert_eq!(seen, vec![25000.0, 50000.0, 75000.0, 100000.0]);
    for _ in 0..20 {
        universe.speed_up();
        assert_eq!(scale(&universe), 100000.0);
        assert_eq!(universe.selected(), 13);
    }
}

#[test]
fn slow_down_walks_the_presets_and_stops_at_the_bottom() {
    let mut universe = Universe::new();
    let mut seen = vec![];
    for _ in 0..9 {
        universe.slow_down();
        seen.push(scale(&universe));
    }
    assert_eq!(seen, vec![7500.0, 5000.0, 2500.0, 1000.0, 750.0, 500.0, 250.0, 100.0, 10.0]);
    for _ in 0..20 {
        universe.slow_down();
        assert_eq!(scale(&universe), 10.0);
        assert_eq!(universe.selected(), 0);
    }
}

#[test]
fn pause_stops_time_and_resume_restores_the_preset() {
    let mut universe = Universe::new();
    universe.speed_up();
    universe.toggle_pause();
    assert_eq!(scale(&universe), 0.0);
    assert_eq!(universe.selected(), 10);
    universe.toggle_pause();
    assert_eq!(scale(&universe), 25000.0);
}

#[test]
fn a_speed_change_while_paused_resumes_at_the_new_preset() {
    let mut universe = Universe::new();
    universe.toggle_pause();
    universe.slow_down();
    assert_eq!(scale(&universe), 7500.0);
    universe.toggle_pause();
    assert_eq!(scale(&universe), 0.0);
}

#[test]
fn speed_up_at_the_top_leaves_a_pause_alone() {
    let mut universe = Universe::new();
    for _ in 0..4 {
        universe.speed_up();
    }
    universe.toggle_pause();
    universe.speed_up();
    assert_eq!(scale(&universe), 0.0);
    assert_eq!(universe.selected(), 13);
}

#[test]
fn change_acceleration_sets_any_factor() {
    let mut universe = Universe::new();
    universe.change_acceleration(number(123.5));
    assert_eq!(scale(&universe), 123.5);
    assert_eq!(universe.selected(), DEFAULT_PRESET);
    universe.toggle_pause();
    assert_eq!(scale(&universe), 0.0);
    universe.toggle_pause();
    assert_eq!(scale(&universe), 10000.0);
}

#[test]
fn a_factor_that_is_not_above_zero_counts_as_a_pause() {
    for factor in [0.0, -0.0, -5.0, f64::NEG_INFINITY, f64::NAN] {
        let mut universe = Universe::new();
        universe.change_acceleration(number(factor));
        universe.toggle_pause();
        assert_eq!(scale(&universe), 10000.0, "after a factor of {}", factor);
    }
    for factor in [5.0e-324, 1.0, f64::INFINITY] {
        let mut universe = Universe::new();
        universe.change_acceleration(number(factor));
        universe.toggle_pause();
        assert_eq!(universe.acceleration().to_bits(), 0, "after a factor of {}", factor);
    }
}

#[test]
fn a_tick_does_its_phases_in_their_order() {
    let mut phases = vec![];
    let mut phase = Universe::next_phase(None);
    while let Some(current) = phase {
        phases.push(current);
        phase = Universe::next_phase(Some(current));
    }
    assert_eq!(
        phases,
        vec![Phase::Reset, Phase::Gravity, Phase::Propulsion, Phase::Resolve, Phase::Integrate]
    );
}

fn value(number: Real) -> f64 {
    f64::from_bits(number.to_bits())
}

fn array(vector: Vector2) -> [f64; 2] {
    [value(vector.x), value(vector.y)]
}

fn vector(value: [f64; 2]) -> Vector2 {
    Vector2::new(number(value[0]), number(value[1]))
}

/// The numbers of the phase that is due, as the host computes them.
fn numbers(due: Phase, world: &mut World, dt: f64) -> Numbers {
    match due {
        Phase::Reset => Numbers::Nothing,
        Phase::Gravity => {
            let rows = GravitySystem::new().bodies(world);
            let mut forces = vec![];
            for (id, (mass, motion, force)) in rows.iter() {
                let body = GravityCalculation {
                    mass: mass.mass,
                    position: motion.position,
                    entity: *id,
                };
                if let Some(so_far) = force {
                    let mut sum = array(so_far.force);
                    for (other, (other_mass, other_motion, _)) in rows.iter() {
                        let rhs = GravityCalculation {
                            mass: other_mass.mass,
                            position: other_motion.position,
                            entity: *other,
                        };
                        let from = array(body.position);
                        let to = array(rhs.position);
                        let towards = vecmath::vec2_sub(to, from);
                        let distance = vecmath::vec2_len(towards);
                        let strength =
                            6.674e-11 * value(body.mass) * value(rhs.mass) / (distance * distance);
                        let pull = vecmath::vec2_scale(vecmath::vec2_normalized(towards), strength);
                        let force = body.acceleration(&rhs, number(distance), vector(pull));
                        sum = vecmath::vec2_add(sum, array(force));
                    }
                    forces.push((*id, ForceComponent { force: vector(sum) }));
                }
            }
            Numbers::Forces(forces)
        }
        Phase::Propulsion => Numbers::Forces(
            PropulsionSystem::new()
                .thrusts(world)
                .iter()
                .map(|(id, (thrust, so_far))| {
                    let sum = vecmath::vec2_add(array(so_far.force), array(thrust.force));
                    (*id, ForceComponent { force: vector(sum) })
                })
                .collect(),
        ),
        Phase::Resolve => Numbers::Accelerations(
            ForceSystem::new()
                .loads(world)
                .iter()
                .map(|(id, (force, mass, _))| {
                    let [x, y] = array(force.force);
                    (*id, vector([x / value(mass.mass), y / value(mass.mass)]))
                })
                .collect(),
        ),
        Phase::Integrate => Numbers::Steps(
            MotionSystem::new()
                .motions(world)
                .iter()
                .map(|(id, motion)| {
                    let da = vecmath::vec2_scale(array(motion.acceleration), dt);
                    let velocity = vecmath::vec2_add(array(motion.velocity), da);
                    let dv = vecmath::vec2_scale(velocity, dt);
                    let position = vecmath::vec2_add(array(motion.position), dv);
                    (*id, (vector(position), vector(velocity)))
                })
                .collect(),
        ),
    }
}

/// One update tick as the host runs it.
fn tick(universe: &mut Universe, world: &mut World, dt: f64) -> Result<Vec<Phase>, TickError> {
    let mut done = vec![];
    loop {
        let due = universe.due();
        let numbers = numbers(due, world, dt);
        done.push(due);
        if universe.update(world, numbers)? == Phase::Reset {
            return Ok(done);
        }
    }
}

#[test]
fn an_update_begins_by_clearing_the_forces() {
    let mut world = world::create();
    let force = ForceComponent { force: Vector2::new(number(3.0), number(4.0)) };
    let entity = world.spawn((force,));
    let mut universe = Universe::new();
    assert_eq!(universe.due(), Phase::Reset);
    assert_eq!(universe.update(&mut world, Numbers::Nothing), Ok(Phase::Gravity));
    assert_eq!(universe.due(), Phase::Gravity);
    assert_eq!(*world.get::<&ForceComponent>(entity).unwrap(), ForceComponent::zero());
    assert_eq!(scale(&universe), 10000.0);
}

#[test]
fn a_tick_resets_pulls_thrusts_resolves_and_moves() {
    let mut world = world::create();
    let thrust = [6.0, -3.0];
    let body = world.spawn((
        MassComponent::new(number(3.0)),
        Motion::new_position_velocity(vector([1.0, 1.0]), vector([0.0, 0.0])),
        ForceComponent { force: vector([99.0, 99.0]) },
        PropulsionComponent::new(vector(thrust)),
    ));
    let mut universe = Universe::new();
    let done = tick(&mut universe, &mut world, 2.0).unwrap();
    assert_eq!(
        done,
        vec![Phase::Reset, Phase::Gravity, Phase::Propulsion, Phase::Resolve, Phase::Integrate]
    );
    assert_eq!(universe.due(), Phase::Reset);
    assert_eq!(array(world.get::<&ForceComponent>(body).unwrap().force), thrust);
    let motion = *world.get::<&Motion>(body).unwrap();
    assert_eq!(array(motion.acceleration), [2.0, -1.0]);
    assert_eq!(array(motion.velocity), [4.0, -2.0]);
    assert_eq!(array(motion.position), [9.0, -3.0]);
}

#[test]
fn two_bodies_pull_at_each_other_and_not_at_themselves() {
    let mut world = world::create();
    let near = world.spawn((
        MassComponent::new(number(2.0e10)),
        Motion::position(vector([0.0, 0.0])),
        ForceComponent::zero(),
    ));
    let far = world.spawn((
        MassComponent::new(number(3.0e10)),
        Motion::position(vector([0.0, 10.0])),
        ForceComponent::zero(),
    ));
    let mut universe = Universe::new();
    universe.update(&mut world, Numbers::Nothing).unwrap();
    let pulls = numbers(Phase::Gravity, &mut world, 0.0);
    universe.update(&mut world, pulls).unwrap();
    let on_near = 6.674e-11 * 2.0e10 * 3.0e10 / 100.0;
    let on_far = 6.674e-11 * 3.0e10 * 2.0e10 / 100.0;
    assert_eq!(array(world.get::<&ForceComponent>(near).unwrap().force), [0.0, on_near]);
    assert_eq!(array(world.get::<&ForceComponent>(far).unwrap().force), [0.0, -on_far]);
}

#[test]
fn numbers_of_another_phase_are_refused() {
    let mut world = world::create();
    let force = ForceComponent { force: Vector2::new(number(3.0), number(4.0)) };
    let entity = world.spawn((force, Motion::position(Vector2::zero())));
    let other = vec![(EntityId { bits: entity.to_bits().get() }, ForceComponent::zero())];
    let mut universe = Universe::new();
    for wrong in [
        Numbers::Forces(other.clone()),
        Numbers::Accelerations(vec![]),
        Numbers::Steps(vec![]),
    ] {
        assert_eq!(
            universe.update(&mut world, wrong),
            Err(TickError::WrongNumbers(Phase::Reset))
        );
        assert_eq!(universe.due(), Phase::Reset);
        assert_eq!(*world.get::<&ForceComponent>(entity).unwrap(), force);
    }
    universe.update(&mut world, Numbers::Nothing).unwrap();
    assert_eq!(
        universe.update(&mut world, Numbers::Nothing),
        Err(TickError::WrongNumbers(Phase::Gravity))
    );
    assert_eq!(universe.update(&mut world, Numbers::Forces(vec![])), Ok(Phase::Propulsion));
    assert_eq!(
        universe.update(&mut world, Numbers::Steps(vec![])),
        Err(TickError::WrongNumbers(Phase::Propulsion))
    );
    assert_eq!(universe.update(&mut world, Numbers::Forces(vec![])), Ok(Phase::Resolve));
    assert_eq!(
        universe.update(&mut world, Numbers::Forces(vec![])),
        Err(TickError::WrongNumbers(Phase::Resolve))
    );
    assert_eq!(universe.update(&mut world, Numbers::Accelerations(vec![])), Ok(Phase::Integrate));
    assert_eq!(universe.update(&mut world, Numbers::Steps(vec![])), Ok(Phase::Reset));
    universe.speed_up();
    assert_eq!(universe.due(), Phase::Reset);
}

#[test]
fn a_mass_of_zero_stops_the_tick_where_the_forces_are_resolved() {
    let mut world = world::create();
    let motion = Motion::position(vector([1.0, 1.0]));
    let massless = world.spawn((
        MassComponent::new(number(0.0)),
        motion,
        ForceComponent::zero(),
        PropulsionComponent::new(vector([1.0, 1.0])),
    ));
    let mut universe = Universe::new();
    let result = tick(&mut universe, &mut world, 1.0);
    let id = EntityId { bits: massless.to_bits().get() };
    assert_eq!(result, Err(TickError::ZeroMass(id)));
    assert_eq!(universe.due(), Phase::Resolve);
    assert_eq!(*world.get::<&Motion>(massless).unwrap(), motion);
}
