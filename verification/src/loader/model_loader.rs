//! The loader: spawns the models of the scene one by one, then picks the
//! body that the camera follows.
use crate::loader::state::LoadingState;
use crate::model::Model;
use crate::physics::force::ForceComponent;
use crate::physics::gravity::MassComponent;
use crate::physics::motion::Motion;
use crate::render::background::BackgroundComponent;
use crate::render::name::NameComponent;
use crate::render::render_box::RenderBoxComponent;
use crate::render::sprite::Sprite;
use crate::runtime::queries::{mass_rows, masses_in};
use crate::runtime::texture::TextureHandle;
use crate::runtime::world::{
    body_entry, entries, insert_tracking, spawn_background, spawn_body, EntityId, Entry,
};
use crate::scalar::Real;
use vstd::prelude::*;

verus! {

/// The components of an entity that is about to be spawned: those of a
/// body, or the one of a background.
pub enum EntityBuilder {
    Body(NameComponent, MassComponent, Motion, ForceComponent, RenderBoxComponent, Sprite),
    Background(BackgroundComponent),
}

impl EntityBuilder {
    /// The entity that is spawned from the builder.
    pub open spec fn entry(self) -> Entry {
        match self {
            EntityBuilder::Body(name, mass, motion, force, render_box, sprite) => body_entry(
                name.name@,
                mass,
                motion,
                force,
                render_box,
                sprite,
            ),
            EntityBuilder::Background(background) => Entry {
                background: Some(background),
                ..Entry::bare()
            },
        }
    }

    /// Spawns the entity. It has an identifier that no live entity had; the
    /// other entities are as they were.
    pub fn build(self, world: &mut hecs::World) -> (id: EntityId)
        ensures
            !entries(*old(world)).dom().contains(id.bits),
            entries(*final(world)) == entries(*old(world)).insert(id.bits, self.entry()),
    {
        match self {
            EntityBuilder::Body(name, mass, motion, force, render_box, sprite) => spawn_body(
                world,
                name,
                mass,
                motion,
                force,
                render_box,
                sprite,
            ),
            EntityBuilder::Background(background) => spawn_background(world, background),
        }
    }
}

/// What can become an entity of the world.
pub trait ToEntityBuilder {
    /// The entity that this becomes when it is drawn with `texture`.
    spec fn entry(&self, texture: TextureHandle) -> Entry;

    /// The components of the entity that this becomes, drawn with
    /// `texture`, which the host has loaded from its image.
    fn to_entity_builder(&self, texture: TextureHandle) -> (builder: EntityBuilder)
        ensures
            builder.entry() == self.entry(texture),
    ;
}

/// Why the loading cannot be finished.
#[derive(Clone, Copy, PartialEq, Eq, Structural, Debug)]
pub enum LoaderError {
    /// No entity has a mass, so none can be followed.
    NoBodies,
    /// There are several bodies and the mass of one is not a number, so
    /// the masses cannot be compared.
    MassNotANumber,
}

/// `a` is not heavier than `b`, and `b` not than `a`, if neither is less
/// than the other; with that, `less_than` orders the numbers.
pub proof fn lemma_less_than_orders(a: Real, b: Real, c: Real)
    requires
        !a.is_nan(),
        !b.is_nan(),
        !c.is_nan(),
    ensures
        !a.less_than(a),
        a.less_than(b) ==> !b.less_than(a),
        a.less_than(b) && b.less_than(c) ==> a.less_than(c),
        a.less_than(b) && !c.less_than(b) ==> a.less_than(c),
        !b.less_than(a) && b.less_than(c) ==> a.less_than(c),
        !a.less_than(b) && !b.less_than(c) ==> !a.less_than(c),
{
}

/// No mass of `rows` is not a number.
pub open spec fn all_numbers(rows: Seq<(EntityId, MassComponent)>) -> bool {
    forall|i: int| 0 <= i < rows.len() ==> !(#[trigger] rows[i]).1.mass.is_nan()
}

/// Row `at` holds the heaviest body of `rows`: no row is heavier, and every
/// row before it is lighter.
pub open spec fn is_heaviest(rows: Seq<(EntityId, MassComponent)>, at: int) -> bool {
    &&& 0 <= at < rows.len()
    &&& forall|j: int|
        0 <= j < rows.len() ==> !rows[at].1.mass.less_than((#[trigger] rows[j]).1.mass)
    &&& forall|j: int| 0 <= j < at ==> (#[trigger] rows[j]).1.mass.less_than(rows[at].1.mass)
}

/// Whether some mass of `rows` is not a number.
pub fn any_not_a_number(rows: &Vec<(EntityId, MassComponent)>) -> (r: bool)
    ensures
        r == !all_numbers(rows@),
{
    let mut i: usize = 0;
    while i < rows.len()
        invariant
            i <= rows.len(),
            forall|j: int| 0 <= j < i ==> !(#[trigger] rows@[j]).1.mass.is_nan(),
        decreases rows.len() - i,
    {
        if rows[i].1.mass.is_nan() {
            return true;
        }
        i = i + 1;
    }
    false
}

/// The index of the heaviest body of `rows`: of the first one, where
/// several are equally heavy. `None` if there is no row. Where there are
/// two rows or more, their masses are compared and must be numbers.
pub fn heaviest(rows: &Vec<(EntityId, MassComponent)>) -> (at: Option<usize>)
    requires
        rows.len() >= 2 ==> all_numbers(rows@),
    ensures
        at is None <==> rows.len() == 0,
        at is Some ==> is_heaviest(rows@, at->0 as int),
{
    if rows.len() == 0 {
        return None;
    }
    let mut best: usize = 0;
    let mut i: usize = 1;
    while i < rows.len()
        invariant
            1 <= i <= rows.len(),
            best < i,
            rows.len() >= 2 ==> all_numbers(rows@),
            forall|j: int|
                0 <= j < i ==> !rows@[best as int].1.mass.less_than((#[trigger] rows@[j]).1.mass),
            forall|j: int|
                0 <= j < best ==> (#[trigger] rows@[j]).1.mass.less_than(rows@[best as int].1.mass),
        decreases rows.len() - i,
    {
        if rows[best].1.mass.less_than(rows[i].1.mass) {
            proof {
                let top = rows@[best as int].1.mass;
                let new = rows@[i as int].1.mass;
                assert forall|j: int| 0 <= j < i + 1 implies !new.less_than(
                    (#[trigger] rows@[j]).1.mass,
                ) by {
                    lemma_less_than_orders(top, new, rows@[j].1.mass);
                    lemma_less_than_orders(new, rows@[j].1.mass, top);
                }
                assert forall|j: int| 0 <= j < i implies (#[trigger] rows@[j]).1.mass.less_than(
                    new,
                ) by {
                    lemma_less_than_orders(rows@[j].1.mass, top, new);
                }
            }
            best = i;
        }
        i = i + 1;
    }
    Some(best)
}

/// Spawns the models of a scene, one in every update, and then marks the
/// heaviest body as the one that the camera follows.
pub struct ModelLoader<'a> {
    loaded: usize,
    models: Vec<Model<'a>>,
}

impl<'a> ModelLoader<'a> {
    /// The number of models that are spawned.
    pub closed spec fn loaded(&self) -> nat {
        self.loaded as nat
    }

    /// The models, in the order in which they are spawned.
    pub closed spec fn models(&self) -> Seq<Model<'a>> {
        self.models@
    }

    /// A loader that has spawned none of `models` yet.
    pub fn new(models: Vec<Model<'a>>) -> (l: Self)
        ensures
            l.loaded() == 0,
            l.models() == models@,
    {
        ModelLoader { loaded: 0, models }
    }

    /// The image of the model that the next update spawns: the host loads
    /// it and hands the texture to that update. `None` once every model is
    /// spawned.
    pub fn pending_image(&self) -> (name: Option<&'a str>)
        ensures
            name is Some <==> self.loaded() < self.models().len(),
            name is Some ==> name->0@ == self.models()[self.loaded() as int].spec_image(),
    {
        if self.loaded < self.models.len() {
            Some(self.models[self.loaded].image())
        } else {
            None
        }
    }

    /// One step of the loading. While models are left, spawns the next one
    /// with `texture` and reports how many were spawned before it. Once all
    /// are spawned, marks the heaviest body as followed and reports the
    /// loading as done; `texture` is not used then. That fails, and changes
    /// nothing, if no entity has a mass, or if several have one and a mass
    /// is not a number.
    pub fn update(
        &mut self,
        loading_state: &mut LoadingState,
        world: &mut hecs::World,
        texture: TextureHandle,
    ) -> (r: Result<(), LoaderError>)
        ensures
            final(self).models() == old(self).models(),
            old(self).loaded() < old(self).models().len() ==> {
                &&& r is Ok
                &&& final(self).loaded() == old(self).loaded() + 1
                &&& final(loading_state).loaded as nat == old(self).loaded()
                &&& final(loading_state).total as nat == old(self).models().len()
                &&& !final(loading_state).is_done()
                &&& spawned(
                    entries(*old(world)),
                    entries(*final(world)),
                    old(self).models()[old(self).loaded() as int].entry(texture),
                )
            },
            old(self).loaded() >= old(self).models().len() ==> {
                &&& final(self).loaded() == old(self).loaded()
                &&& r == selection(entries(*old(world)))
                &&& r is Err ==> entries(*final(world)) == entries(*old(world))
                    && *final(loading_state) == *old(loading_state)
                &&& r is Ok ==> follows_heaviest(entries(*old(world)), entries(*final(world)))
                    && *final(loading_state) == (LoadingState { loaded: 1, total: 1 })
            },
    {
        if self.loaded < self.models.len() {
            let builder = self.models[self.loaded].to_entity_builder(texture);
            let id = builder.build(world);
            loading_state.set_progress(self.loaded, self.models.len());
            self.loaded += 1;
            Ok(())
        } else {
            let rows = mass_rows(world);
            let ghost before = entries(*world);
            if rows.len() == 0 {
                proof {
                    assert forall|key: u64| !masses_in(before).dom().contains(key) by {
                        if masses_in(before).dom().contains(key) {
                            let i = choose|i: int|
                                0 <= i < rows@.len() && (#[trigger] rows@[i]).0.bits == key;
                        }
                    }
                }
                return Err(LoaderError::NoBodies);
            }
            proof {
                assert(masses_in(before).contains_pair(rows@[0].0.bits, rows@[0].1));
                assert forall|key: u64| #[trigger]
                    masses_in(before).dom().contains(key) && masses_in(
                        before,
                    )[key].mass.is_nan() implies !all_numbers(rows@) by {
                    let i = choose|i: int|
                        0 <= i < rows@.len() && (#[trigger] rows@[i]).0.bits == key;
                    assert(masses_in(before).contains_pair(rows@[i].0.bits, rows@[i].1));
                }
                if !all_numbers(rows@) {
                    let i = choose|i: int|
                        0 <= i < rows@.len() && (#[trigger] rows@[i]).1.mass.is_nan();
                    assert(masses_in(before).contains_pair(rows@[i].0.bits, rows@[i].1));
                }
            }
            proof {
                if rows.len() >= 2 {
                    assert(masses_in(before).contains_pair(rows@[1].0.bits, rows@[1].1));
                    assert(rows@[0].0 != rows@[1].0);
                    assert(several_bodies(before));
                }
                if several_bodies(before) {
                    let (first, second) = choose|first: u64, second: u64|
                        first != second && #[trigger] masses_in(before).dom().contains(first)
                            && #[trigger] masses_in(before).dom().contains(second);
                    let i = choose|i: int|
                        0 <= i < rows@.len() && (#[trigger] rows@[i]).0.bits == first;
                    let j = choose|j: int|
                        0 <= j < rows@.len() && (#[trigger] rows@[j]).0.bits == second;
                    assert(i != j);
                }
            }
            if rows.len() >= 2 && any_not_a_number(&rows) {
                return Err(LoaderError::MassNotANumber);
            }
            match heaviest(&rows) {
                Some(at) => {
                    let id = rows[at].0;
                    proof {
                        assert(masses_in(before).contains_pair(
                            rows@[at as int].0.bits,
                            rows@[at as int].1,
                        ));
                        assert forall|key: u64| #[trigger]
                            masses_in(before).dom().contains(key) implies !masses_in(
                            before,
                        )[id.bits].mass.less_than(masses_in(before)[key].mass) by {
                            let i = choose|i: int|
                                0 <= i < rows@.len() && (#[trigger] rows@[i]).0.bits == key;
                            assert(masses_in(before).contains_pair(rows@[i].0.bits, rows@[i].1));
                        }
                    }
                    let found = insert_tracking(world, id);
                    assert(found);
                    loading_state.set_progress(1, 1);
                    Ok(())
                },
                None => Err(LoaderError::NoBodies),
            }
        }
    }
}

/// `after` is `before` with one new entity, which is `entry`.
pub open spec fn spawned(before: Map<u64, Entry>, after: Map<u64, Entry>, entry: Entry) -> bool {
    exists|id: EntityId|
        !before.dom().contains(id.bits) && after == #[trigger] before.insert(id.bits, entry)
}

/// Whether the body to follow can be picked among `entries`, and if not,
/// why not.
pub open spec fn selection(entries: Map<u64, Entry>) -> Result<(), LoaderError> {
    if forall|key: u64| !masses_in(entries).dom().contains(key) {
        Err(LoaderError::NoBodies)
    } else if several_bodies(entries) && exists|key: u64| #[trigger]
        masses_in(entries).dom().contains(key) && masses_in(entries)[key].mass.is_nan() {
        Err(LoaderError::MassNotANumber)
    } else {
        Ok(())
    }
}

/// Two entities or more have a mass, so that masses are to be compared.
pub open spec fn several_bodies(entries: Map<u64, Entry>) -> bool {
    exists|first: u64, second: u64|
        first != second && #[trigger] masses_in(entries).dom().contains(first)
            && #[trigger] masses_in(entries).dom().contains(second)
}

/// `after` is `before` with one body marked as followed, and no body of
/// `before` is heavier than that one.
pub open spec fn follows_heaviest(before: Map<u64, Entry>, after: Map<u64, Entry>) -> bool {
    exists|id: EntityId|
        {
            &&& #[trigger] masses_in(before).dom().contains(id.bits)
            &&& forall|key: u64| #[trigger]
                masses_in(before).dom().contains(key) ==> !masses_in(
                    before,
                )[id.bits].mass.less_than(masses_in(before)[key].mass)
            &&& after == before.insert(id.bits, Entry { followed: true, ..before[id.bits] })
        }
}

/// Where no entity was followed before the loading is finished, exactly
/// one is followed after it: a body, and none is heavier.
pub proof fn lemma_one_body_is_followed(before: Map<u64, Entry>, after: Map<u64, Entry>)
    requires
        forall|key: u64| before.dom().contains(key) ==> !(#[trigger] before[key]).followed,
        follows_heaviest(before, after),
    ensures
        after.dom() == before.dom(),
        exists|id: EntityId|
            {
                &&& #[trigger] masses_in(before).dom().contains(id.bits)
                &&& forall|key: u64|
                    after.dom().contains(key) ==> ((#[trigger] after[key]).followed <==> key
                        == id.bits)
                &&& forall|key: u64| #[trigger]
                    masses_in(before).dom().contains(key) ==> !masses_in(
                        before,
                    )[id.bits].mass.less_than(masses_in(before)[key].mass)
            },
{
    let id = choose|id: EntityId|
        {
            &&& #[trigger] masses_in(before).dom().contains(id.bits)
            &&& forall|key: u64| #[trigger]
                masses_in(before).dom().contains(key) ==> !masses_in(
                    before,
                )[id.bits].mass.less_than(masses_in(before)[key].mass)
            &&& after == before.insert(id.bits, Entry { followed: true, ..before[id.bits] })
        };
    assert(after.dom() =~= before.dom());
    assert forall|key: u64| after.dom().contains(key) implies ((#[trigger] after[key]).followed
        <==> key == id.bits) by {
        if key != id.bits {
            assert(after[key] == before[key]);
        }
    }
}

} // verus!
