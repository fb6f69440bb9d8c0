//! Where on the screen an entity is drawn, and how large.
use crate::runtime::world::{read_render_box, EntityId, Entry, Stored};
use crate::scalar::{Real, Vector2};
use vstd::prelude::*;

verus! {

pub type RenderingPosition = Vector2;

/// The screen position of an entity and the radius it is drawn with: half
/// the side of the square around it.
#[derive(Clone, Copy, PartialEq, Eq, Structural, Debug)]
pub struct RenderBoxComponent {
    pub position: RenderingPosition,
    pub radius: Real,
}

impl Stored for RenderBoxComponent {
    type Model = RenderBoxComponent;

    open spec fn model(&self) -> RenderBoxComponent {
        *self
    }

    open spec fn of(entry: Entry) -> Option<RenderBoxComponent> {
        entry.render_box
    }

    fn component(world: &mut hecs::World, id: EntityId) -> (found: Option<Self>) {
        read_render_box(world, id)
    }
}

impl RenderBoxComponent {
    /// A box of the given radius around the origin.
    pub fn centered_square(radius: Real) -> (b: Self)
        ensures
            b == (RenderBoxComponent { position: Vector2::spec_zero(), radius }),
    {
        RenderBoxComponent { position: Vector2::zero(), radius }
    }

    /// Moves the box to `position`; the radius stays.
    pub fn move_to(&mut self, position: RenderingPosition)
        ensures
            *final(self) == (RenderBoxComponent { position, radius: old(self).radius }),
    {
        self.position = position;
    }
}

} // verus!
