//! How an entity looks.
use crate::render::render_box::RenderBoxComponent;
use crate::runtime::queries::{sprite_rows, sprites_in};
use crate::runtime::rows::lists;
use crate::runtime::texture::TextureHandle;
use crate::runtime::world::{entries, read_sprite, EntityId, Entry, Stored};
use crate::scalar::Color;
use vstd::prelude::*;

verus! {

/// A disc of one colour, or an image.
#[derive(Clone, Copy, PartialEq, Eq, Structural, Debug)]
pub enum SpriteKind {
    Circle(Color),
    Image(TextureHandle),
}

/// The appearance of one entity.
#[derive(Clone, Copy, PartialEq, Eq, Structural, Debug)]
pub struct Sprite {
    pub kind: SpriteKind,
}

impl Stored for Sprite {
    type Model = Sprite;

    open spec fn model(&self) -> Sprite {
        *self
    }

    open spec fn of(entry: Entry) -> Option<Sprite> {
        entry.sprite
    }

    fn component(world: &mut hecs::World, id: EntityId) -> (found: Option<Self>) {
        read_sprite(world, id)
    }
}

impl Sprite {
    /// A disc of the given colour.
    pub fn circle(color: Color) -> (s: Self)
        ensures
            s.kind == SpriteKind::Circle(color),
    {
        Sprite { kind: SpriteKind::Circle(color) }
    }

    /// The given image.
    pub fn image(texture: TextureHandle) -> (s: Self)
        ensures
            s.kind == SpriteKind::Image(texture),
    {
        Sprite { kind: SpriteKind::Image(texture) }
    }

    pub fn kind(&self) -> (k: &SpriteKind)
        ensures
            *k == self.kind,
    {
        &self.kind
    }
}

/// Finds what is to be drawn of the bodies.
pub struct SpriteSystem {}

impl Default for SpriteSystem {
    fn default() -> (s: Self) {
        SpriteSystem::new()
    }
}

impl SpriteSystem {
    pub fn new() -> (s: Self) {
        SpriteSystem {  }
    }

    /// What is to be drawn: every entity that has a sprite and a render
    /// box, once, with both.
    pub fn update(&self, world: &mut hecs::World) -> (drawn: Vec<
        (EntityId, (Sprite, RenderBoxComponent)),
    >)
        ensures
            entries(*final(world)) == entries(*old(world)),
            lists(drawn@, sprites_in(entries(*old(world)))),
    {
        sprite_rows(world)
    }
}

} // verus!
