//! The names written under the bodies.
use crate::render::render_box::RenderBoxComponent;
use crate::runtime::queries::{name_rows, name_views, names_in};
use crate::runtime::rows::lists;
use crate::runtime::world::{entries, read_name, EntityId, Entry, Stored};
use vstd::prelude::*;
use vstd::string::*;

verus! {

/// The name of one entity.
#[derive(Clone, Debug)]
pub struct NameComponent {
    pub name: String,
}

impl Stored for NameComponent {
    type Model = Seq<char>;

    open spec fn model(&self) -> Seq<char> {
        self.name@
    }

    open spec fn of(entry: Entry) -> Option<Seq<char>> {
        entry.name
    }

    fn component(world: &mut hecs::World, id: EntityId) -> (found: Option<Self>) {
        read_name(world, id)
    }
}

impl NameComponent {
    pub fn new(name: String) -> (n: Self)
        ensures
            n.name == name,
    {
        NameComponent { name }
    }
}

/// The size of the font that the names are written in.
pub const FONT_SIZE: u32 = 16;

/// The width that a text of `characters` characters is taken to have where
/// the host cannot measure it: half the font size for each character.
pub open spec fn fallback_width(characters: nat) -> nat {
    characters * FONT_SIZE as nat / 2
}

/// Finds the names that are to be written.
pub struct NameSystem {}

impl Default for NameSystem {
    fn default() -> (s: Self) {
        NameSystem::new()
    }
}

impl NameSystem {
    pub fn new() -> (s: Self) {
        NameSystem {  }
    }

    /// What is to be written: the name of every entity that has a name and
    /// a render box, once, with the render box under which it is written.
    pub fn update(&self, world: &mut hecs::World) -> (labels: Vec<
        (EntityId, (NameComponent, RenderBoxComponent)),
    >)
        ensures
            entries(*final(world)) == entries(*old(world)),
            lists(name_views(labels@), names_in(entries(*old(world)))),
    {
        name_rows(world)
    }

    /// The width to take for `name` where the host cannot measure it.
    pub fn fallback_name_size(&self, name: &str) -> (width: u128)
        ensures
            width == fallback_width(name@.len()),
    {
        let len = name.unicode_len() as u128;
        let width = len * (FONT_SIZE as u128);
        width / 2
    }
}

} // verus!
