//! Discs of one colour.
use crate::render::render_box::RenderBoxComponent;
use crate::runtime::queries::{circle_rows, circles_in};
use crate::runtime::rows::lists;
use crate::runtime::world::{entries, read_circle, EntityId, Entry, Stored};
use crate::scalar::Color;
use vstd::prelude::*;

verus! {

/// A disc of one colour as the appearance of an entity.
#[derive(Clone, Copy, PartialEq, Eq, Structural, Debug)]
pub struct CircleComponent {
    pub color: Color,
}

impl Stored for CircleComponent {
    type Model = CircleComponent;

    open spec fn model(&self) -> CircleComponent {
        *self
    }

    open spec fn of(entry: Entry) -> Option<CircleComponent> {
        entry.circle
    }

    fn component(world: &mut hecs::World, id: EntityId) -> (found: Option<Self>) {
        read_circle(world, id)
    }
}

impl CircleComponent {
    pub fn new(color: Color) -> (c: Self)
        ensures
            c.color == color,
    {
        CircleComponent { color }
    }
}

/// Finds the discs that are to be drawn.
pub struct CircleSystem {}

impl CircleSystem {
    pub fn new() -> (s: Self) {
        CircleSystem {  }
    }

    /// What is to be drawn: every entity that has a disc and a render box,
    /// once, with both.
    pub fn update(&self, world: &mut hecs::World) -> (drawn: Vec<
        (EntityId, (CircleComponent, RenderBoxComponent)),
    >)
        ensures
            entries(*final(world)) == entries(*old(world)),
            lists(drawn@, circles_in(entries(*old(world)))),
    {
        circle_rows(world)
    }
}

} // verus!
