use hecs::World;
use planets::loader::model_loader::{any_not_a_number, heaviest, LoaderError, ModelLoader};
use planets::loader::state::LoadingState;
use planets::model::{Background, Model, Planet, Simulation};
use planets::physics::force::ForceComponent;
use planets::physics::gravity::MassComponent;
use planets::physics::motion::Motion;
use planets::render::background::BackgroundComponent;
use planets::render::camera::TrackingComponent;
use planets::render::name::NameComponent;
use planets::render::render_box::RenderBoxComponent;
use planets::render::sprite::{Sprite, SpriteKind};
use planets::runtime::texture::{texture_path, TextureHandle};
use planets::runtime::world::{self, EntityId};
use planets::scalar::{Real, Vector2};

fn number(value: f64) -> Real {
    Real::from_bits(value.to_bits())
}

fn planet(name: &str, mass: f64, x: f64) -> Planet {
    Planet {
        position: (number(x), number(-x)),
        velocity: (number(1.0), number(2.0)),
        name: String::from(name),
        mass: number(mass),
        image: format!("{}_image", name),
        visible_radius: number(25.0),
    }
}

fn scene(masses: &[f64]) -> Simulation {
    Simulation {
        planets: masses
            .iter()
            .enumerate()
            .map(|(index, mass)| planet(&format!("body{}", index), *mass, index as f64))
            .collect(),
        background: Background { image: String::from("stars") },
    }
}

fn followed(world: &World) -> Vec<f64> {
    world
        .query::<(&MassComponent, &TrackingComponent)>()
        .iter()
        .map(|(mass, _)| f64::from_bits(mass.mass.to_bits()))
        .collect()
}

fn load(simulation: &Simulation, world: &mut World) -> Result<LoadingState, LoaderError> {
    let mut loader = ModelLoader::new(simulation.models());
    let mut state = LoadingState::new();
    let mut texture = 0;
    while !state.done() {
        texture += 1;
        loader.update(&mut state, world, TextureHandle { index: texture })?;
    }
    Ok(state)
}

fn rows(masses: &[f64]) -> Vec<(EntityId, MassComponent)> {
    masses
        .iter()
        .enumerate()
        .map(|(index, mass)| {
            (EntityId { bits: (1 << 32) + index as u64 }, MassComponent::new(number(*mass)))
        })
        .collect()
}

#[test]
fn the_background_is_loaded_before_the_planets() {
    let simulation = scene(&[1.0, 2.0]);
    let models = simulation.models();
    assert_eq!(models.len(), 3);
    assert!(matches!(models[0], Model::Background(background) if background.image == "stars"));
    assert!(matches!(models[1], Model::Planet(planet) if planet.name == "body0"));
    assert!(matches!(models[2], Model::Planet(planet) if planet.name == "body1"));
    assert_eq!(models[0].image(), "stars");
    assert_eq!(models[2].image(), "body1_image");
}

#[test]
fn a_scene_without_planets_has_its_background() {
    let simulation = scene(&[]);
    assert_eq!(simulation.models().len(), 1);
}

#[test]
fn every_update_spawns_one_model_and_reports_the_progress() {
    let simulation = scene(&[5.0, 7.0, 6.0]);
    let mut world = world::create();
    let mut loader = ModelLoader::new(simulation.models());
    let mut state = LoadingState::new();
    assert_eq!(state.progress(), (0, 1));
    let images = ["stars", "body0_image", "body1_image", "body2_image"];
    for (spawned, image) in images.iter().enumerate() {
        assert_eq!(loader.pending_image(), Some(*image));
        assert_eq!(world.len() as usize, spawned);
        loader.update(&mut state, &mut world, TextureHandle { index: spawned }).unwrap();
        assert_eq!(state.progress(), (spawned, 4));
        assert_eq!(state.percent(), spawned as u128 * 25);
        assert!(!state.done());
    }
    assert_eq!(world.len(), 4);
    assert_eq!(followed(&world), Vec::<f64>::new());
    assert_eq!(loader.pending_image(), None);
    loader.update(&mut state, &mut world, TextureHandle { index: 99 }).unwrap();
    assert!(state.done());
    assert_eq!(state.percent(), 100);
    assert_eq!(world.len(), 4);
    assert_eq!(followed(&world), vec![7.0]);
}

#[test]
fn a_planet_becomes_an_entity_with_its_components() {
    let simulation = scene(&[5.0]);
    let mut world = world::create();
    let mut loader = ModelLoader::new(simulation.models());
    let mut state = LoadingState::default();
    loader.update(&mut state, &mut world, TextureHandle { index: 10 }).unwrap();
    loader.update(&mut state, &mut world, TextureHandle { index: 11 }).unwrap();
    let backgrounds: Vec<BackgroundComponent> =
        world.query::<&BackgroundComponent>().iter().copied().collect();
    assert_eq!(backgrounds, vec![BackgroundComponent::image(TextureHandle { index: 10 })]);
    assert_eq!(*backgrounds[0].texture(), TextureHandle { index: 10 });
    let mut query = world.query::<(
        &NameComponent,
        &MassComponent,
        &Motion,
        &ForceComponent,
        &RenderBoxComponent,
        &Sprite,
    )>();
    let bodies: Vec<_> = query.iter().collect();
    assert_eq!(bodies.len(), 1);
    let (name, mass, motion, force, render_box, sprite) = bodies[0];
    assert_eq!(name.name, "body0");
    assert_eq!(mass.mass, number(5.0));
    assert_eq!(
        *motion,
        Motion::new_position_velocity(
            Vector2::new(number(0.0), number(-0.0)),
            Vector2::new(number(1.0), number(2.0)),
        )
    );
    assert_eq!(*force, ForceComponent::zero());
    assert_eq!(*render_box, RenderBoxComponent::centered_square(number(25.0)));
    assert_eq!(*sprite.kind(), SpriteKind::Image(TextureHandle { index: 11 }));
}

#[test]
fn the_heaviest_body_is_followed() {
    for masses in [
        vec![1.0],
        vec![1.0, 2.0],
        vec![2.0, 1.0],
        vec![5.972e24, 1.989e30, 7.348e22],
        vec![0.0, -1.0, f64::MIN_POSITIVE],
        vec![-3.0, -2.0, -7.0],
        vec![1.0, f64::INFINITY, 2.0],
    ] {
        let mut world = world::create();
        let state = load(&scene(&masses), &mut world).unwrap();
        assert!(state.done());
        let greatest = masses.iter().copied().fold(f64::NEG_INFINITY, f64::max);
        assert_eq!(followed(&world), vec![greatest], "of {:?}", masses);
    }
}

#[test]
fn without_a_body_the_loading_fails() {
    let mut world = world::create();
    let simulation = scene(&[]);
    let mut loader = ModelLoader::new(simulation.models());
    let mut state = LoadingState::new();
    loader.update(&mut state, &mut world, TextureHandle { index: 0 }).unwrap();
    let before = state.progress();
    let result = loader.update(&mut state, &mut world, TextureHandle { index: 0 });
    assert_eq!(result, Err(LoaderError::NoBodies));
    assert_eq!(state.progress(), before);
    assert!(!state.done());
    assert_eq!(world.len(), 1);
    assert_eq!(world.query::<&TrackingComponent>().iter().count(), 0);
}

#[test]
fn a_mass_that_is_not_a_number_fails_the_loading() {
    let mut world = world::create();
    let result = load(&scene(&[1.0, f64::NAN, 3.0]), &mut world);
    assert!(matches!(result, Err(LoaderError::MassNotANumber)));
    assert_eq!(world.len(), 4);
    assert_eq!(world.query::<&TrackingComponent>().iter().count(), 0);
}

#[test]
fn a_single_body_is_followed_whatever_its_mass() {
    for mass in [1.0, 0.0, -1.0, f64::NAN] {
        let mut world = world::create();
        let state = load(&scene(&[mass]), &mut world).unwrap();
        assert!(state.done());
        assert_eq!(world.query::<(&MassComponent, &TrackingComponent)>().iter().count(), 1);
    }
    assert_eq!(heaviest(&rows(&[f64::NAN])), Some(0));
}

#[test]
fn the_first_of_equally_heavy_bodies_is_the_heaviest() {
    assert_eq!(heaviest(&rows(&[])), None);
    assert_eq!(heaviest(&rows(&[4.0])), Some(0));
    assert_eq!(heaviest(&rows(&[1.0, 3.0, 2.0])), Some(1));
    assert_eq!(heaviest(&rows(&[3.0, 1.0, 3.0, 3.0])), Some(0));
    assert_eq!(heaviest(&rows(&[1.0, 2.0, 2.0])), Some(1));
    assert_eq!(heaviest(&rows(&[-0.0, 0.0])), Some(0));
    assert_eq!(heaviest(&rows(&[0.0, -0.0])), Some(0));
    assert_eq!(heaviest(&rows(&[-5.0, -2.0, -9.0])), Some(1));
    assert_eq!(heaviest(&rows(&[1.0, f64::INFINITY, f64::MAX])), Some(1));
}

#[test]
fn masses_that_are_not_numbers_are_found() {
    assert!(!any_not_a_number(&rows(&[])));
    assert!(!any_not_a_number(&rows(&[1.0, -2.0, f64::INFINITY, 0.0])));
    assert!(any_not_a_number(&rows(&[1.0, f64::NAN])));
    assert!(any_not_a_number(&rows(&[f64::NAN, 1.0])));
}

#[test]
fn the_loading_state_counts_parts_of_a_whole() {
    let mut state = LoadingState::new();
    assert!(!state.done());
    assert_eq!(state.percent(), 0);
    state.set_progress(29, 100);
    assert_eq!(state.progress(), (29, 100));
    assert_eq!(state.percent(), 29);
    assert!(!state.done());
    state.set_progress(2, 3);
    assert_eq!(state.percent(), 66);
    state.set_progress(3, 3);
    assert!(state.done());
    state.set_progress(4, 3);
    assert!(state.done());
    assert_eq!(state.percent(), 133);
    state.set_progress(0, 0);
    assert!(!state.done());
    assert_eq!(state.percent(), 0);
    state.set_progress(usize::MAX, 1);
    assert_eq!(state.percent(), usize::MAX as u128 * 100);
}

#[test]
fn textures_are_found_by_their_name() {
    assert_eq!(texture_path("earth"), "assets/textures/earth.png");
    assert_eq!(texture_path(""), "assets/textures/.png");
    assert_eq!(texture_path("moons/io"), "assets/textures/moons/io.png");
}
