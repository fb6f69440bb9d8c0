//! The scene as it is described: the bodies and the background.
use crate::loader::model_loader::{EntityBuilder, ToEntityBuilder};
use crate::physics::force::ForceComponent;
use crate::physics::gravity::{Mass, MassComponent};
use crate::physics::motion::Motion;
use crate::render::background::BackgroundComponent;
use crate::render::name::NameComponent;
use crate::render::render_box::RenderBoxComponent;
use crate::render::sprite::{Sprite, SpriteKind};
use crate::runtime::texture::TextureHandle;
use crate::runtime::world::{body_entry, Entry};
use crate::scalar::{Real, Vector2};
use vstd::prelude::*;

verus! {

/// A body of the scene.
pub struct Planet {
    pub position: (Real, Real),
    pub velocity: (Real, Real),
    pub name: String,
    pub mass: Mass,
    pub image: String,
    pub visible_radius: Real,
}

impl ToEntityBuilder for Planet {
    /// The entity that the planet becomes, drawn with `texture`: it has the
    /// planet's name and mass, moves from the planet's position with the
    /// planet's velocity, bears no force yet, and has a render box of the
    /// planet's radius.
    open spec fn entry(&self, texture: TextureHandle) -> Entry {
        body_entry(
            self.name@,
            MassComponent { mass: self.mass },
            Motion {
                position: Vector2 { x: self.position.0, y: self.position.1 },
                velocity: Vector2 { x: self.velocity.0, y: self.velocity.1 },
                acceleration: Vector2::spec_zero(),
            },
            ForceComponent::spec_zero(),
            RenderBoxComponent { position: Vector2::spec_zero(), radius: self.visible_radius },
            Sprite { kind: SpriteKind::Image(texture) },
        )
    }

    /// The components of the entity that the planet becomes, drawn with
    /// `texture`, which the host has loaded from the planet's image.
    fn to_entity_builder(&self, texture: TextureHandle) -> (builder: EntityBuilder) {
        let position = Vector2::new(self.position.0, self.position.1);
        let velocity = Vector2::new(self.velocity.0, self.velocity.1);
        EntityBuilder::Body(
            NameComponent::new(self.name.clone()),
            MassComponent::new(self.mass),
            Motion::new_position_velocity(position, velocity),
            ForceComponent::zero(),
            RenderBoxComponent::centered_square(self.visible_radius),
            Sprite::image(texture),
        )
    }
}

/// The background of the scene.
pub struct Background {
    pub image: String,
}

impl ToEntityBuilder for Background {
    /// The entity that the background becomes, drawn with `texture`.
    open spec fn entry(&self, texture: TextureHandle) -> Entry {
        Entry { background: Some(BackgroundComponent { texture }), ..Entry::bare() }
    }

    /// The component of the entity that the background becomes, drawn with
    /// `texture`, which the host has loaded from the background's image.
    fn to_entity_builder(&self, texture: TextureHandle) -> (builder: EntityBuilder) {
        EntityBuilder::Background(BackgroundComponent::image(texture))
    }
}

/// One thing of the scene that becomes an entity.
pub enum Model<'a> {
    Background(&'a Background),
    Planet(&'a Planet),
}

impl<'a> Model<'a> {
    /// The name of the image that the model is drawn with.
    pub open spec fn spec_image(&self) -> Seq<char> {
        match self {
            Model::Background(background) => background.image@,
            Model::Planet(planet) => planet.image@,
        }
    }

    /// The name of the image that the model is drawn with.
    pub fn image(&self) -> (name: &'a str)
        ensures
            name@ == self.spec_image(),
    {
        match self {
            Model::Background(background) => background.image.as_str(),
            Model::Planet(planet) => planet.image.as_str(),
        }
    }
}

impl<'a> ToEntityBuilder for Model<'a> {
    /// The entity that the model becomes, drawn with `texture`.
    open spec fn entry(&self, texture: TextureHandle) -> Entry {
        match self {
            Model::Background(background) => background.entry(texture),
            Model::Planet(planet) => planet.entry(texture),
        }
    }

    fn to_entity_builder(&self, texture: TextureHandle) -> (builder: EntityBuilder) {
        match self {
            Model::Background(background) => background.to_entity_builder(texture),
            Model::Planet(planet) => planet.to_entity_builder(texture),
        }
    }
}

/// A scene: bodies before a background.
pub struct Simulation {
    pub planets: Vec<Planet>,
    pub background: Background,
}

impl Simulation {
    /// The models of the scene in the order in which they are loaded: the
    /// background, then the planets in their order.
    pub fn models(&self) -> (models: Vec<Model<'_>>)
        ensures
            models.len() == self.planets.len() + 1,
            models[0] == Model::Background(&self.background),
            forall|i: int|
                0 <= i < self.planets.len() ==> #[trigger] models[i + 1] == Model::Planet(
                    &self.planets[i],
                ),
    {
        let mut models: Vec<Model<'_>> = Vec::new();
        models.push(Model::Background(&self.background));
        let mut i: usize = 0;
        while i < self.planets.len()
            invariant
                i <= self.planets.len(),
                models.len() == i + 1,
                models[0] == Model::Background(&self.background),
                forall|j: int|
                    0 <= j < i ==> #[trigger] models[j + 1] == Model::Planet(&self.planets[j]),
            decreases self.planets.len() - i,
        {
            models.push(Model::Planet(&self.planets[i]));
            i = i + 1;
        }
        models
    }
}

} // verus!
