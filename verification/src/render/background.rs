//! The image behind everything else.
use crate::runtime::queries::{background_rows, backgrounds_in};
use crate::runtime::rows::lists;
use crate::runtime::texture::TextureHandle;
use crate::runtime::world::{entries, read_background, EntityId, Entry, Stored};
use vstd::prelude::*;

verus! {

/// Marks an entity as a background and holds its image.
#[derive(Clone, Copy, PartialEq, Eq, Structural, Debug)]
pub struct BackgroundComponent {
    pub texture: TextureHandle,
}

impl Stored for BackgroundComponent {
    type Model = BackgroundComponent;

    open spec fn model(&self) -> BackgroundComponent {
        *self
    }

    open spec fn of(entry: Entry) -> Option<BackgroundComponent> {
        entry.background
    }

    fn component(world: &mut hecs::World, id: EntityId) -> (found: Option<Self>) {
        read_background(world, id)
    }
}

impl BackgroundComponent {
    pub fn image(texture: TextureHandle) -> (b: Self)
        ensures
            b.texture == texture,
    {
        BackgroundComponent { texture }
    }

    pub fn texture(&self) -> (t: &TextureHandle)
        ensures
            *t == self.texture,
    {
        &self.texture
    }
}

/// Finds what is to be drawn behind everything else.
pub struct BackgroundSystem {}

impl Default for BackgroundSystem {
    fn default() -> (s: Self) {
        BackgroundSystem::new()
    }
}

impl BackgroundSystem {
    pub fn new() -> (s: Self) {
        BackgroundSystem {  }
    }

    /// What is to be drawn over the whole window: every background, once.
    pub fn update(&self, world: &mut hecs::World) -> (drawn: Vec<(EntityId, BackgroundComponent)>)
        ensures
            entries(*final(world)) == entries(*old(world)),
            lists(drawn@, backgrounds_in(entries(*old(world)))),
    {
        background_rows(world)
    }
}

} // verus!
