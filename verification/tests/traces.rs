use hecs::World;
use planets::physics::motion::Motion;
use planets::render::render_box::RenderBoxComponent;
use planets::render::sprite::Sprite;
use planets::render::trace::{
    RenderTraceSystem, SpawnTraceSystem, TraceComponent, TraceSpawnSystem, DEFAULT_TTL,
    INITIAL_ALPHA, SPAWN_INTERVAL,
};
use planets::runtime::texture::TextureHandle;
use planets::runtime::world;
use planets::scalar::{Color, Real, Vector2};

fn number(value: f64) -> Real {
    Real::from_bits(value.to_bits())
}

fn vector(x: f64, y: f64) -> Vector2 {
    Vector2::new(number(x), number(y))
}

fn color(red: f32, green: f32, blue: f32, alpha: f32) -> Color {
    Color {
        red: red.to_bits(),
        green: green.to_bits(),
        blue: blue.to_bits(),
        alpha: alpha.to_bits(),
    }
}

fn moving_box(x: f64, y: f64) -> (RenderBoxComponent, Motion) {
    let mut render_box = RenderBoxComponent::centered_square(number(25.0));
    render_box.move_to(vector(x, y));
    let motion = Motion::new(vector(x * 2.0, y * 2.0), vector(1.0, -1.0), vector(0.5, 0.5));
    (render_box, motion)
}

fn traces(world: &World) -> Vec<(hecs::Entity, TraceComponent, RenderBoxComponent, Motion)> {
    world
        .query::<(hecs::Entity, &TraceComponent, &RenderBoxComponent, &Motion)>()
        .iter()
        .map(|(entity, trace, render_box, motion)| (entity, *trace, *render_box, *motion))
        .collect()
}

#[test]
fn a_new_trace_is_half_opaque_and_has_its_whole_life() {
    let trace = TraceComponent::new(color(0.2, 0.3, 0.9, 1.0));
    assert_eq!(trace.color(), color(0.2, 0.3, 0.9, 0.5));
    assert_eq!(trace.color().alpha, INITIAL_ALPHA);
    assert_eq!(trace.ttl(), 255);
    assert_eq!(DEFAULT_TTL, 255);
    assert!(!trace.expired());
}

#[test]
fn a_trace_expires_after_its_last_tick() {
    let mut trace = TraceComponent::new(color(1.0, 1.0, 1.0, 1.0));
    for tick in 1..=254usize {
        trace.update();
        assert_eq!(trace.ttl(), 255 - tick);
        assert!(!trace.expired());
    }
    trace.update();
    assert_eq!(trace.ttl(), 0);
    assert!(trace.expired());
    trace.update();
    assert_eq!(trace.ttl(), 0);
    assert_eq!(trace.color(), color(1.0, 1.0, 1.0, 0.5));
}

#[test]
fn traces_are_spawned_in_every_sixteenth_tick() {
    let mut world = world::create();
    let (render_box, motion) = moving_box(10.0, 20.0);
    let disc = Sprite::circle(color(0.2, 0.2, 0.9, 1.0));
    world.spawn((render_box, disc, motion, SpawnTraceSystem::new()));
    let mut system = TraceSpawnSystem::new();
    assert_eq!(SPAWN_INTERVAL, 16);
    for tick in 1..=15usize {
        assert_eq!(system.ticks_until_spawn(), 17 - tick);
        system.update(&mut world);
        assert_eq!(traces(&world).len(), 0, "no trace in tick {}", tick);
    }
    assert_eq!(system.ticks_until_spawn(), 1);
    system.update(&mut world);
    assert_eq!(system.ticks_until_spawn(), 16);
    assert_eq!(traces(&world).len(), 1);
    for _ in 0..16 {
        system.update(&mut world);
    }
    assert_eq!(traces(&world).len(), 2);
    assert_eq!(world.len(), 3);
}

#[test]
fn a_trace_records_where_its_source_is_and_does_not_move() {
    let mut world = world::create();
    let (render_box, motion) = moving_box(10.0, 20.0);
    let disc = Sprite::circle(color(0.2, 0.4, 0.9, 1.0));
    let source = world.spawn((render_box, disc, motion, SpawnTraceSystem::new()));
    let mut system = TraceSpawnSystem::default();
    for _ in 0..16 {
        system.update(&mut world);
    }
    let found = traces(&world);
    assert_eq!(found.len(), 1);
    let (entity, trace, trace_box, trace_motion) = found[0];
    assert_ne!(entity, source);
    assert_eq!(trace.color(), color(0.2, 0.4, 0.9, 0.5));
    assert_eq!(trace.ttl(), 255);
    assert_eq!(trace_box, render_box);
    assert_eq!(trace_motion.position, motion.position);
    assert_eq!(trace_motion.velocity, Vector2::zero());
    assert_eq!(trace_motion.acceleration, Vector2::zero());
    assert_eq!(*world.get::<&Motion>(source).unwrap(), motion);
    assert!(world.get::<&Sprite>(entity).is_err());
    assert!(world.get::<&SpawnTraceSystem>(entity).is_err());
}

#[test]
fn only_marked_discs_leave_traces() {
    let mut world = world::create();
    let (render_box, motion) = moving_box(1.0, 2.0);
    let disc = Sprite::circle(color(1.0, 0.0, 0.0, 1.0));
    let image = Sprite::image(TextureHandle { index: 3 });
    world.spawn((render_box, image, motion, SpawnTraceSystem::new()));
    world.spawn((render_box, disc, motion));
    world.spawn((render_box, disc, SpawnTraceSystem::new()));
    world.spawn((disc, motion, SpawnTraceSystem::new()));
    world.spawn((render_box, motion, SpawnTraceSystem::new()));
    let marked = world.spawn((render_box, disc, motion, SpawnTraceSystem::new()));
    let mut system = TraceSpawnSystem::new();
    for _ in 0..16 {
        system.update(&mut world);
    }
    assert_eq!(world.len(), 7);
    assert_eq!(traces(&world).len(), 1);
    assert!(world.contains(marked));
}

#[test]
fn every_marked_disc_gets_its_own_trace() {
    let mut world = world::create();
    for i in 0..5 {
        let (render_box, motion) = moving_box(i as f64, 0.0);
        let disc = Sprite::circle(color(i as f32, 0.0, 0.0, 1.0));
        world.spawn((render_box, disc, motion, SpawnTraceSystem::new()));
    }
    let mut system = TraceSpawnSystem::new();
    for _ in 0..16 {
        system.update(&mut world);
    }
    let mut reds: Vec<f32> =
        traces(&world).iter().map(|row| f32::from_bits(row.1.color().red)).collect();
    reds.sort_by(|a, b| a.partial_cmp(b).unwrap());
    assert_eq!(reds, vec![0.0, 1.0, 2.0, 3.0, 4.0]);
}

#[test]
fn a_trace_lives_for_its_lifetime_and_is_then_removed() {
    let mut world = world::create();
    let (render_box, motion) = moving_box(10.0, 20.0);
    let trace = world.spawn((TraceComponent::new(color(0.2, 0.2, 0.9, 1.0)), render_box, motion));
    let other = world.spawn((render_box, motion));
    let system = RenderTraceSystem::new();
    for tick in 1..=254usize {
        let drawn = system.update(&mut world);
        assert_eq!(drawn.len(), 1);
        assert_eq!(drawn[0].0.bits, trace.to_bits().get());
        assert_eq!((drawn[0].1).0.ttl(), 255 - tick);
        assert_eq!((drawn[0].1).1, render_box);
        assert!(world.contains(trace), "the trace is there after {} ticks", tick);
        assert_eq!(world.get::<&TraceComponent>(trace).unwrap().ttl(), 255 - tick);
    }
    let drawn = system.update(&mut world);
    assert_eq!(drawn.len(), 1, "the trace is drawn a last time");
    assert_eq!((drawn[0].1).0.ttl(), 0);
    assert!(!world.contains(trace));
    assert!(world.contains(other));
    assert_eq!(world.len(), 1);
    assert_eq!(system.update(&mut world).len(), 0);
    assert!(world.contains(other));
}

/// The alpha of a trace as the host derives it: the alpha it was spawned
/// with, less the same amount for every tick of its age.
fn faded_alpha(trace: &TraceComponent) -> f32 {
    let delta_alpha = f32::from_bits(INITIAL_ALPHA) / DEFAULT_TTL as f32;
    let mut alpha = f32::from_bits(trace.color().alpha);
    for _ in trace.ttl()..DEFAULT_TTL {
        alpha -= delta_alpha;
    }
    alpha
}

#[test]
fn a_trace_fades_and_is_visible_to_its_last_tick() {
    let mut trace = TraceComponent::new(color(0.2, 0.2, 0.9, 1.0));
    let mut alpha = faded_alpha(&trace);
    assert_eq!(alpha, 0.5);
    for _ in 0..254 {
        trace.update();
        let next = faded_alpha(&trace);
        assert!(next < alpha);
        assert!(next > 0.0);
        alpha = next;
    }
    assert_eq!(trace.ttl(), 1);
    trace.update();
    assert!(trace.expired());
    assert!(faded_alpha(&trace).abs() < 1.0e-6);
}

#[test]
fn decay_takes_the_traces_that_have_a_render_box() {
    let mut world = world::create();
    let (render_box, motion) = moving_box(0.0, 0.0);
    let shown = world.spawn((TraceComponent::new(color(1.0, 1.0, 1.0, 1.0)), render_box));
    let hidden = world.spawn((TraceComponent::new(color(1.0, 1.0, 1.0, 1.0)), motion));
    let system = RenderTraceSystem::default();
    let drawn = system.update(&mut world);
    assert_eq!(drawn.len(), 1);
    assert_eq!(world.get::<&TraceComponent>(shown).unwrap().ttl(), 254);
    assert_eq!(world.get::<&TraceComponent>(hidden).unwrap().ttl(), 255);
}

#[test]
fn traces_are_drawn_from_the_oldest_to_the_newest() {
    let mut world = world::create();
    let (render_box, _) = moving_box(0.0, 0.0);
    let fresh = TraceComponent::new(color(1.0, 1.0, 1.0, 1.0));
    for age in [7usize, 0, 200, 3, 3, 120, 1, 254, 64] {
        let mut trace = fresh;
        for _ in 0..age {
            trace.update();
        }
        world.spawn((trace, render_box));
    }
    let system = RenderTraceSystem::new();
    let drawn = system.update(&mut world);
    let left: Vec<usize> = drawn.iter().map(|row| (row.1).0.ttl()).collect();
    assert_eq!(left, vec![0, 54, 134, 190, 247, 251, 251, 253, 254]);
    let drawn = system.update(&mut world);
    let left: Vec<usize> = drawn.iter().map(|row| (row.1).0.ttl()).collect();
    assert_eq!(left, vec![53, 133, 189, 246, 250, 250, 252, 253]);
}

#[test]
fn traces_of_different_age_leave_one_by_one() {
    let mut world = world::create();
    let (render_box, _) = moving_box(0.0, 0.0);
    let mut young = TraceComponent::new(color(1.0, 1.0, 1.0, 1.0));
    let mut old = young;
    for _ in 0..252 {
        young.update();
    }
    for _ in 0..254 {
        old.update();
    }
    let young = world.spawn((young, render_box));
    let old = world.spawn((old, render_box));
    let system = RenderTraceSystem::new();
    assert_eq!(system.update(&mut world).len(), 2);
    assert!(world.contains(young));
    assert!(!world.contains(old));
    assert_eq!(system.update(&mut world).len(), 1);
    assert!(world.contains(young));
    assert_eq!(system.update(&mut world).len(), 1);
    assert!(!world.contains(young));
    assert_eq!(world.len(), 0);
}
