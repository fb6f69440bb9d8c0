use hecs::World;
use planets::loader::model_loader::ModelLoader;
use planets::loader::state::LoadingState;
use planets::model::{Background, Planet, Simulation};
use planets::physics::motion::Motion;
use planets::render::camera::{
    Camera, CameraError, CameraSystem, Focus, TrackingComponent, TrackingMode,
};
use planets::render::render_box::RenderBoxComponent;
use planets::runtime::texture::TextureHandle;
use planets::runtime::world::{self, EntityId};
use planets::scalar::{Real, Vector2};

fn number(value: f64) -> Real {
    Real::from_bits(value.to_bits())
}

fn vector(value: [f64; 2]) -> Vector2 {
    Vector2::new(number(value[0]), number(value[1]))
}

fn array(vector: Vector2) -> [f64; 2] {
    [f64::from_bits(vector.x.to_bits()), f64::from_bits(vector.y.to_bits())]
}

fn id(entity: hecs::Entity) -> EntityId {
    EntityId { bits: entity.to_bits().get() }
}

/// The projection as the host does it: every position is scaled by the zoom
/// and the render box is moved there.
fn project(system: &CameraSystem, world: &mut World) {
    let zoom = f64::from_bits(system.camera.current_zoom().to_bits());
    let positions = system
        .positions(world)
        .iter()
        .map(|(id, (motion, _))| (*id, vector(vecmath::vec2_scale(array(motion.position), zoom))))
        .collect();
    system.project(world, &positions);
}

/// The offset of the focus as the host computes it.
fn offset(focus: Focus, window_size: [f64; 2]) -> [f64; 2] {
    let screen_center = vecmath::vec2_scale(window_size, 0.5);
    match focus {
        Focus::Center => screen_center,
        Focus::Entity(position) => vecmath::vec2_sub(screen_center, array(position)),
    }
}

fn body(world: &mut World, position: [f64; 2]) -> hecs::Entity {
    world.spawn((
        Motion::position(vector(position)),
        RenderBoxComponent::centered_square(number(25.0)),
    ))
}

#[test]
fn a_fixed_camera_looks_at_the_origin() {
    let mut world = world::create();
    body(&mut world, [100.0, 50.0]);
    let mut system = CameraSystem::new(Camera::fixed(number(2.0), number(0.125)));
    project(&system, &mut world);
    let focus = system.update(&mut world).unwrap();
    assert_eq!(focus, Focus::Center);
    assert_eq!(system.camera.tracking, TrackingMode::Fixed);
    assert_eq!(offset(focus, [800.0, 600.0]), [400.0, 300.0]);
}

#[test]
fn projection_moves_the_render_boxes_and_keeps_their_radius() {
    let mut world = world::create();
    let first = body(&mut world, [100.0, 50.0]);
    let second = body(&mut world, [-4.0, 0.5]);
    let unplaced = world.spawn((Motion::position(vector([1.0, 1.0])),));
    let flat = world.spawn((RenderBoxComponent::centered_square(number(3.0)),));
    let system = CameraSystem::new(Camera::fixed(number(2.0), number(0.125)));
    assert_eq!(system.positions(&mut world).len(), 2);
    project(&system, &mut world);
    let first = *world.get::<&RenderBoxComponent>(first).unwrap();
    assert_eq!(array(first.position), [200.0, 100.0]);
    assert_eq!(first.radius, number(25.0));
    let second = *world.get::<&RenderBoxComponent>(second).unwrap();
    assert_eq!(array(second.position), [-8.0, 1.0]);
    assert!(world.get::<&RenderBoxComponent>(unplaced).is_err());
    assert_eq!(
        *world.get::<&RenderBoxComponent>(flat).unwrap(),
        RenderBoxComponent::centered_square(number(3.0))
    );
    let positions = vec![(id(flat), vector([5.0, 5.0])), (id(unplaced), vector([6.0, 6.0]))];
    system.project(&mut world, &positions);
    assert_eq!(
        *world.get::<&RenderBoxComponent>(flat).unwrap(),
        RenderBoxComponent::centered_square(number(3.0))
    );
    assert!(world.get::<&RenderBoxComponent>(unplaced).is_err());
}

#[test]
fn the_camera_follows_the_marked_entity() {
    let mut world = world::create();
    body(&mut world, [1.0, 1.0]);
    let target = body(&mut world, [30.0, -10.0]);
    world.insert_one(target, TrackingComponent::new()).unwrap();
    let mut system = CameraSystem::new(Camera::fixed(number(4.0), number(0.25)));
    project(&system, &mut world);
    let focus = system.update(&mut world).unwrap();
    assert_eq!(system.camera.tracking, TrackingMode::Tracking(id(target)));
    assert_eq!(focus, Focus::Entity(vector([120.0, -40.0])));
    assert_eq!(offset(focus, [800.0, 600.0]), [280.0, 340.0]);
    assert_eq!(system.camera.current_zoom(), number(4.0));
    assert_eq!(system.camera.focus, Vector2::zero());
}

#[test]
fn the_focus_is_the_screen_center_minus_the_place_of_the_heavier_body() {
    let simulation = Simulation {
        planets: vec![
            Planet {
                position: (number(1.5e8), number(0.0)),
                velocity: (number(0.0), number(0.0)),
                name: String::from("light"),
                mass: number(7.0e22),
                image: String::from("light"),
                visible_radius: number(10.0),
            },
            Planet {
                position: (number(-3.0e8), number(6.0e8)),
                velocity: (number(0.0), number(0.0)),
                name: String::from("heavy"),
                mass: number(6.0e24),
                image: String::from("heavy"),
                visible_radius: number(20.0),
            },
        ],
        background: Background { image: String::from("stars") },
    };
    for (zoom, window_size) in
        [(1.0e-6, [1920.0, 1080.0]), (0.5, [800.0, 600.0]), (1024.0, [1.0, 3.0]), (0.0, [8.0, 6.0])]
    {
        let mut world = world::create();
        let mut loader = ModelLoader::new(simulation.models());
        let mut state = LoadingState::new();
        while !state.done() {
            loader.update(&mut state, &mut world, TextureHandle { index: 0 }).unwrap();
        }
        let mut system = CameraSystem::new(Camera::fixed(number(zoom), number(zoom / 16.0)));
        project(&system, &mut world);
        let focus = system.update(&mut world).unwrap();
        let projected = vecmath::vec2_scale([-3.0e8, 6.0e8], zoom);
        assert_eq!(focus, Focus::Entity(vector(projected)));
        assert_eq!(
            offset(focus, window_size),
            vecmath::vec2_sub(vecmath::vec2_scale(window_size, 0.5), projected)
        );
    }
}

#[test]
fn a_camera_that_follows_keeps_following_without_a_mark() {
    let mut world = world::create();
    let target = body(&mut world, [3.0, 4.0]);
    let mut system =
        CameraSystem::new(Camera::tracking(number(1.0), number(0.0625), id(target)));
    project(&system, &mut world);
    assert_eq!(system.update(&mut world), Ok(Focus::Entity(vector([3.0, 4.0]))));
    assert_eq!(system.camera.tracking, TrackingMode::Tracking(id(target)));
}

#[test]
fn a_target_that_is_gone_is_an_error() {
    let mut world = world::create();
    let target = body(&mut world, [3.0, 4.0]);
    let mut system =
        CameraSystem::new(Camera::tracking(number(1.0), number(0.0625), id(target)));
    world.despawn(target).unwrap();
    assert_eq!(system.update(&mut world), Err(CameraError::TargetMissing(id(target))));
}

#[test]
fn a_target_without_a_place_on_the_screen_is_an_error() {
    let mut world = world::create();
    let unplaced = world.spawn((Motion::position(vector([1.0, 1.0])), TrackingComponent::new()));
    let mut system = CameraSystem::new(Camera::fixed(number(1.0), number(0.0625)));
    assert_eq!(system.update(&mut world), Err(CameraError::TargetMissing(id(unplaced))));
    let invalid = EntityId { bits: 7 };
    let mut other = CameraSystem::new(Camera::tracking(number(1.0), number(0.0625), invalid));
    let mut empty = world::create();
    assert_eq!(other.update(&mut empty), Err(CameraError::TargetMissing(invalid)));
}
