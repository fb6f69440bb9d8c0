//! Lists of entities: what it is to list the entities that have certain
//! components, how such lists are selected from the world, and how a change
//! that is made row by row adds up.
use crate::runtime::world::{entities, entries, lists_all, named_before, EntityId, Entry, Stored};
use vstd::prelude::*;

verus! {

/// `rows` lists the keys of `expected`, each once and with its value, in
/// some order.
pub open spec fn lists<T>(rows: Seq<(EntityId, T)>, expected: Map<u64, T>) -> bool {
    &&& forall|i: int, j: int|
        0 <= i < j < rows.len() ==> (#[trigger] rows[i]).0 != (#[trigger] rows[j]).0
    &&& forall|i: int|
        0 <= i < rows.len() ==> expected.contains_pair((#[trigger] rows[i]).0.bits, rows[i].1)
    &&& forall|key: u64| #[trigger]
        expected.dom().contains(key) ==> exists|i: int|
            0 <= i < rows.len() && (#[trigger] rows[i]).0.bits == key
}

/// `key` is among the first `n` of `rows`.
pub open spec fn listed_before<T>(rows: Seq<(EntityId, T)>, n: int, key: u64) -> bool {
    exists|j: int| 0 <= j < n && (#[trigger] rows[j]).0.bits == key
}

/// `entries`, with `change` applied to the entities among the first `n` of
/// `rows`.
pub open spec fn changed_prefix<T>(
    entries: Map<u64, Entry>,
    rows: Seq<(EntityId, T)>,
    n: int,
    change: spec_fn(Entry) -> Entry,
) -> Map<u64, Entry> {
    Map::new(
        |key: u64| entries.dom().contains(key),
        |key: u64|
            if listed_before(rows, n, key) {
                change(entries[key])
            } else {
                entries[key]
            },
    )
}

/// `entries`, with `change` applied to the entities that `selected` holds.
pub open spec fn changed_where<T>(
    entries: Map<u64, Entry>,
    selected: Map<u64, T>,
    change: spec_fn(Entry) -> Entry,
) -> Map<u64, Entry> {
    Map::new(
        |key: u64| entries.dom().contains(key),
        |key: u64|
            if selected.dom().contains(key) {
                change(entries[key])
            } else {
                entries[key]
            },
    )
}

/// `entries` without the entities among the first `n` of `ids`.
pub open spec fn removed_prefix(entries: Map<u64, Entry>, ids: Seq<EntityId>, n: int) -> Map<
    u64,
    Entry,
> {
    Map::new(
        |key: u64| entries.dom().contains(key) && !named_before(ids, n, key),
        |key: u64| entries[key],
    )
}

/// Before any row is taken, nothing has changed.
pub proof fn lemma_changed_prefix_start<T>(
    entries: Map<u64, Entry>,
    rows: Seq<(EntityId, T)>,
    change: spec_fn(Entry) -> Entry,
)
    ensures
        changed_prefix(entries, rows, 0, change) == entries,
{
    assert(changed_prefix(entries, rows, 0, change) =~= entries);
}

/// Taking one more row changes the entity of that row, which no earlier row
/// has touched, and no other.
pub proof fn lemma_changed_prefix_step<T>(
    entries: Map<u64, Entry>,
    rows: Seq<(EntityId, T)>,
    n: int,
    change: spec_fn(Entry) -> Entry,
    selected: Map<u64, T>,
)
    requires
        lists(rows, selected),
        0 <= n < rows.len(),
        forall|key: u64| selected.dom().contains(key) ==> entries.dom().contains(key),
    ensures
        selected.contains_pair(rows[n].0.bits, rows[n].1),
        entries.dom().contains(rows[n].0.bits),
        changed_prefix(entries, rows, n, change)[rows[n].0.bits] == entries[rows[n].0.bits],
        changed_prefix(entries, rows, n, change).insert(
            rows[n].0.bits,
            change(entries[rows[n].0.bits]),
        ) == changed_prefix(entries, rows, n + 1, change),
{
    let key_n = rows[n].0.bits;
    assert(selected.contains_pair(rows[n].0.bits, rows[n].1));
    assert(!listed_before(rows, n, key_n)) by {
        if listed_before(rows, n, key_n) {
            let j = choose|j: int| 0 <= j < n && (#[trigger] rows[j]).0.bits == key_n;
            assert(rows[j].0 != rows[n].0);
        }
    }
    assert forall|key: u64|
        listed_before(rows, n + 1, key) <==> (listed_before(rows, n, key) || key == key_n) by {
        if listed_before(rows, n + 1, key) {
            let j = choose|j: int| 0 <= j < n + 1 && (#[trigger] rows[j]).0.bits == key;
            if j < n {
                assert(listed_before(rows, n, key));
            }
        }
        if listed_before(rows, n, key) {
            let j = choose|j: int| 0 <= j < n && (#[trigger] rows[j]).0.bits == key;
            assert(0 <= j < n + 1 && rows[j].0.bits == key);
        }
        if key == key_n {
            assert(0 <= n < n + 1 && rows[n].0.bits == key);
        }
    }
    assert(changed_prefix(entries, rows, n, change).insert(key_n, change(entries[key_n]))
        =~= changed_prefix(entries, rows, n + 1, change));
}

/// Once every row is taken, exactly the listed entities have changed.
pub proof fn lemma_changed_prefix_end<T>(
    entries: Map<u64, Entry>,
    rows: Seq<(EntityId, T)>,
    change: spec_fn(Entry) -> Entry,
    selected: Map<u64, T>,
)
    requires
        lists(rows, selected),
    ensures
        changed_prefix(entries, rows, rows.len() as int, change) == changed_where(
            entries,
            selected,
            change,
        ),
{
    assert forall|key: u64|
        listed_before(rows, rows.len() as int, key) <==> selected.dom().contains(key) by {
        if listed_before(rows, rows.len() as int, key) {
            let j = choose|j: int| 0 <= j < rows.len() && (#[trigger] rows[j]).0.bits == key;
            assert(selected.contains_pair(rows[j].0.bits, rows[j].1));
        }
    }
    assert(changed_prefix(entries, rows, rows.len() as int, change) =~= changed_where(
        entries,
        selected,
        change,
    ));
}

/// Removing one more entity of `ids`.
pub proof fn lemma_removed_prefix_step(entries: Map<u64, Entry>, ids: Seq<EntityId>, n: int)
    requires
        0 <= n < ids.len(),
    ensures
        removed_prefix(entries, ids, 0) == entries,
        removed_prefix(entries, ids, n).remove(ids[n].bits) == removed_prefix(entries, ids, n + 1),
{
    assert(removed_prefix(entries, ids, 0) =~= entries);
    let key_n = ids[n].bits;
    assert forall|key: u64|
        named_before(ids, n + 1, key) <==> (named_before(ids, n, key) || key == key_n) by {
        if named_before(ids, n + 1, key) {
            let j = choose|j: int| 0 <= j < n + 1 && (#[trigger] ids[j]).bits == key;
            if j < n {
                assert(named_before(ids, n, key));
            }
        }
        if named_before(ids, n, key) {
            let j = choose|j: int| 0 <= j < n && (#[trigger] ids[j]).bits == key;
            assert(0 <= j < n + 1 && ids[j].bits == key);
        }
        if key == key_n {
            assert(0 <= n < n + 1 && ids[n].bits == key);
        }
    }
    assert(removed_prefix(entries, ids, n).remove(key_n) =~= removed_prefix(entries, ids, n + 1));
}

/// The entities that have a component of kind `A`, each with it.
pub open spec fn having<A: Stored>(entries: Map<u64, Entry>) -> Map<u64, A::Model> {
    Map::new(
        |key: u64| entries.dom().contains(key) && A::of(entries[key]) is Some,
        |key: u64| A::of(entries[key])->0,
    )
}

/// The rows with each component as it stands in contracts.
pub open spec fn models<A: Stored>(rows: Seq<(EntityId, A)>) -> Seq<(EntityId, A::Model)> {
    Seq::new(rows.len(), |i: int| (rows[i].0, rows[i].1.model()))
}

/// `rows` holds, in the order of `ids`, the entities among the first `n` of
/// `ids` that `expected` holds, each with its value.
pub open spec fn selects<T>(
    rows: Seq<(EntityId, T)>,
    origin: Seq<int>,
    ids: Seq<EntityId>,
    n: int,
    expected: Map<u64, T>,
) -> bool {
    &&& origin.len() == rows.len()
    &&& forall|a: int, b: int| 0 <= a < b < origin.len() ==> origin[a] < origin[b]
    &&& forall|a: int|
        0 <= a < rows.len() ==> {
            &&& 0 <= #[trigger] origin[a] < n
            &&& rows[a].0 == ids[origin[a]]
            &&& expected.contains_pair(rows[a].0.bits, rows[a].1)
        }
    &&& forall|j: int|
        0 <= j < n && expected.dom().contains((#[trigger] ids[j]).bits) ==> exists|a: int|
            0 <= a < origin.len() && #[trigger] origin[a] == j
}

/// A selection from all the entities lists what was to be selected.
pub proof fn lemma_selection_lists<T>(
    rows: Seq<(EntityId, T)>,
    origin: Seq<int>,
    ids: Seq<EntityId>,
    expected: Map<u64, T>,
    entries: Map<u64, Entry>,
)
    requires
        lists_all(ids, entries),
        selects(rows, origin, ids, ids.len() as int, expected),
        forall|key: u64| #[trigger]
            expected.dom().contains(key) ==> entries.dom().contains(key),
    ensures
        lists(rows, expected),
{
    assert forall|a: int, b: int| 0 <= a < b < rows.len() implies (#[trigger] rows[a]).0 != (
    #[trigger] rows[b]).0 by {
        assert(origin[a] < origin[b]);
        assert(ids[origin[a]] != ids[origin[b]]);
    }
    assert forall|a: int| 0 <= a < rows.len() implies expected.contains_pair(
        (#[trigger] rows[a]).0.bits,
        rows[a].1,
    ) by {
        assert(0 <= origin[a] < ids.len());
    }
    assert forall|key: u64| #[trigger] expected.dom().contains(key) implies exists|a: int|
        0 <= a < rows.len() && (#[trigger] rows[a]).0.bits == key by {
        assert(entries.dom().contains(key));
        assert(named_before(ids, ids.len() as int, key));
        let j = choose|j: int| 0 <= j < ids.len() && (#[trigger] ids[j]).bits == key;
        let a = choose|a: int| 0 <= a < origin.len() && #[trigger] origin[a] == j;
        assert(rows[a].0 == ids[origin[a]]);
    }
}

/// One more of `ids` is looked at and not taken, as `expected` does not
/// hold it.
pub proof fn lemma_selection_skips<T>(
    rows: Seq<(EntityId, T)>,
    origin: Seq<int>,
    ids: Seq<EntityId>,
    n: int,
    expected: Map<u64, T>,
)
    requires
        0 <= n < ids.len(),
        selects(rows, origin, ids, n, expected),
        !expected.dom().contains(ids[n].bits),
    ensures
        selects(rows, origin, ids, n + 1, expected),
{
    assert forall|j: int|
        0 <= j < n + 1 && expected.dom().contains((#[trigger] ids[j]).bits) implies exists|a: int|
        0 <= a < origin.len() && #[trigger] origin[a] == j by {
        assert(j < n);
    }
}

/// One more of `ids` is looked at and taken with its value.
pub proof fn lemma_selection_takes<T>(
    rows: Seq<(EntityId, T)>,
    origin: Seq<int>,
    ids: Seq<EntityId>,
    n: int,
    expected: Map<u64, T>,
    value: T,
)
    requires
        0 <= n < ids.len(),
        selects(rows, origin, ids, n, expected),
        expected.contains_pair(ids[n].bits, value),
    ensures
        selects(rows.push((ids[n], value)), origin.push(n), ids, n + 1, expected),
{
    let rows2 = rows.push((ids[n], value));
    let origin2 = origin.push(n);
    assert forall|a: int, b: int| 0 <= a < b < origin2.len() implies origin2[a] < origin2[b] by {
        if b < origin.len() {
            assert(origin[a] < origin[b]);
        } else {
            assert(0 <= origin[a] < n);
        }
    }
    assert forall|a: int| 0 <= a < rows2.len() implies {
        &&& 0 <= #[trigger] origin2[a] < n + 1
        &&& rows2[a].0 == ids[origin2[a]]
        &&& expected.contains_pair(rows2[a].0.bits, rows2[a].1)
    } by {
        if a < rows.len() {
            assert(0 <= origin[a] < n);
            assert(rows2[a] == rows[a]);
        }
    }
    assert forall|j: int|
        0 <= j < n + 1 && expected.dom().contains((#[trigger] ids[j]).bits) implies exists|a: int|
        0 <= a < origin2.len() && #[trigger] origin2[a] == j by {
        if j < n {
            let a = choose|a: int| 0 <= a < origin.len() && #[trigger] origin[a] == j;
            assert(origin2[a] == j);
        } else {
            assert(origin2[origin.len() as int] == j);
        }
    }
}

/// The entities that have a component of kind `A`: each is listed once,
/// with a copy of it. The world stays as it is.
pub(crate) fn rows<A: Stored>(world: &mut hecs::World) -> (rows:
    Vec<(EntityId, A)>)
    ensures
        entries(*final(world)) == entries(*old(world)),
        lists(models(rows@), having::<A>(entries(*old(world)))),
{
    let ghost before = entries(*world);
    let ghost expected = having::<A>(before);
    let ids = entities(world);
    let mut rows: Vec<(EntityId, A)> = Vec::new();
    let ghost mut origin: Seq<int> = Seq::empty();
    let mut i: usize = 0;
    while i < ids.len()
        invariant
            i <= ids.len(),
            entries(*world) == before,
            expected == having::<A>(before),
            lists_all(ids@, before),
            selects(models(rows@), origin, ids@, i as int, expected),
        decreases ids.len() - i,
    {
        let id = ids[i];
        let ghost shown = models(rows@);
        match A::component(world, id) {
            Some(value) => {
                proof {
                    lemma_selection_takes(shown, origin, ids@, i as int, expected, value.model());
                    origin = origin.push(i as int);
                }
                rows.push((id, value));
                assert(models(rows@) =~= shown.push((id, value.model())));
            },
            None => {
                proof {
                    lemma_selection_skips(shown, origin, ids@, i as int, expected);
                }
            },
        }
        i = i + 1;
    }
    proof {
        lemma_selection_lists(models(rows@), origin, ids@, expected, before);
    }
    rows
}

/// Rows that name the same entities as a list, one for one, are a list of
/// what they hold.
pub proof fn lemma_relisted<T, U>(
    rows: Seq<(EntityId, T)>,
    expected: Map<u64, T>,
    others: Seq<(EntityId, U)>,
    other_expected: Map<u64, U>,
)
    requires
        lists(rows, expected),
        others.len() == rows.len(),
        forall|i: int|
            0 <= i < others.len() ==> (#[trigger] others[i]).0 == rows[i].0
                && other_expected.contains_pair(others[i].0.bits, others[i].1),
        forall|key: u64| other_expected.dom().contains(key) ==> expected.dom().contains(key),
    ensures
        lists(others, other_expected),
{
    assert forall|i: int, j: int| 0 <= i < j < others.len() implies (#[trigger] others[i]).0 != (
    #[trigger] others[j]).0 by {
        assert(rows[i].0 != rows[j].0);
    }
    assert forall|key: u64| #[trigger] other_expected.dom().contains(key) implies exists|i: int|
        0 <= i < others.len() && (#[trigger] others[i]).0.bits == key by {
        assert(expected.dom().contains(key));
        let i = choose|i: int| 0 <= i < rows.len() && (#[trigger] rows[i]).0.bits == key;
        assert(others[i].0.bits == key);
    }
}

/// Several kinds of component that an entity has together.
pub trait Joined: Sized {
    /// What the components are in contracts.
    type Model;

    /// The components as they stand in contracts.
    spec fn model(&self) -> Self::Model;

    /// The components of these kinds that `entry` has, if it has them all.
    spec fn of(entry: Entry) -> Option<Self::Model>;

    /// Copies of the components of these kinds of the entity `id`, if it
    /// has them all. The world stays as it is.
    fn fetch(world: &mut hecs::World, id: EntityId) -> (found: Option<Self>)
        ensures
            entries(*final(world)) == entries(*old(world)),
            found is Some <==> entries(*old(world)).dom().contains(id.bits) && Self::of(
                entries(*old(world))[id.bits],
            ) is Some,
            found is Some ==> Self::of(entries(*old(world))[id.bits]) == Some(found->0.model()),
    ;
}

impl<A, B> Joined for (A, B) where
    A: Stored,
    B: Stored,
 {
    type Model = (A::Model, B::Model);

    open spec fn model(&self) -> (A::Model, B::Model) {
        (self.0.model(), self.1.model())
    }

    open spec fn of(entry: Entry) -> Option<(A::Model, B::Model)> {
        if A::of(entry) is Some && B::of(entry) is Some {
            Some((A::of(entry)->0, B::of(entry)->0))
        } else {
            None
        }
    }

    fn fetch(world: &mut hecs::World, id: EntityId) -> (found: Option<Self>) {
        match A::component(world, id) {
            Some(a) => match B::component(world, id) {
                Some(b) => Some((a, b)),
                None => None,
            },
            None => None,
        }
    }
}

impl<A, B, C> Joined for (A, B, C) where
    A: Stored,
    B: Stored,
    C: Stored,
 {
    type Model = (A::Model, B::Model, C::Model);

    open spec fn model(&self) -> (A::Model, B::Model, C::Model) {
        (self.0.model(), self.1.model(), self.2.model())
    }

    open spec fn of(entry: Entry) -> Option<(A::Model, B::Model, C::Model)> {
        if A::of(entry) is Some && B::of(entry) is Some && C::of(entry) is Some {
            Some((A::of(entry)->0, B::of(entry)->0, C::of(entry)->0))
        } else {
            None
        }
    }

    fn fetch(world: &mut hecs::World, id: EntityId) -> (found: Option<Self>) {
        match A::component(world, id) {
            Some(a) => match B::component(world, id) {
                Some(b) => match C::component(world, id) {
                    Some(c) => Some((a, b, c)),
                    None => None,
                },
                None => None,
            },
            None => None,
        }
    }
}

impl<A, B, C, D> Joined for (A, B, C, D) where
    A: Stored,
    B: Stored,
    C: Stored,
    D: Stored,
 {
    type Model = (A::Model, B::Model, C::Model, D::Model);

    open spec fn model(&self) -> (A::Model, B::Model, C::Model, D::Model) {
        (self.0.model(), self.1.model(), self.2.model(), self.3.model())
    }

    open spec fn of(entry: Entry) -> Option<(A::Model, B::Model, C::Model, D::Model)> {
        if A::of(entry) is Some && B::of(entry) is Some && C::of(entry) is Some && D::of(
            entry,
        ) is Some {
            Some((A::of(entry)->0, B::of(entry)->0, C::of(entry)->0, D::of(entry)->0))
        } else {
            None
        }
    }

    fn fetch(world: &mut hecs::World, id: EntityId) -> (found: Option<Self>) {
        match <(A, B, C)>::fetch(world, id) {
            Some(first) => match D::component(world, id) {
                Some(d) => Some((first.0, first.1, first.2, d)),
                None => None,
            },
            None => None,
        }
    }
}

/// The entities that have components of all the kinds `S`, each with
/// them.
pub open spec fn having_all<S: Joined>(entries: Map<u64, Entry>) -> Map<u64, S::Model> {
    Map::new(
        |key: u64| entries.dom().contains(key) && S::of(entries[key]) is Some,
        |key: u64| S::of(entries[key])->0,
    )
}

/// The rows with their components as they stand in contracts.
pub open spec fn joined_models<S: Joined>(rows: Seq<(EntityId, S)>) -> Seq<(EntityId, S::Model)> {
    Seq::new(rows.len(), |i: int| (rows[i].0, rows[i].1.model()))
}

/// The entities that have components of all the kinds `S`: each is listed
/// once, with copies of them. The world stays as it is.
pub(crate) fn select<S: Joined>(world: &mut hecs::World) -> (rows: Vec<(EntityId, S)>)
    ensures
        entries(*final(world)) == entries(*old(world)),
        lists(joined_models(rows@), having_all::<S>(entries(*old(world)))),
{
    let ghost before = entries(*world);
    let ghost expected = having_all::<S>(before);
    let ids = entities(world);
    let mut rows: Vec<(EntityId, S)> = Vec::new();
    let ghost mut origin: Seq<int> = Seq::empty();
    let mut i: usize = 0;
    while i < ids.len()
        invariant
            i <= ids.len(),
            entries(*world) == before,
            expected == having_all::<S>(before),
            lists_all(ids@, before),
            selects(joined_models(rows@), origin, ids@, i as int, expected),
        decreases ids.len() - i,
    {
        let id = ids[i];
        let ghost shown = joined_models(rows@);
        match S::fetch(world, id) {
            Some(value) => {
                proof {
                    lemma_selection_takes(shown, origin, ids@, i as int, expected, value.model());
                    origin = origin.push(i as int);
                }
                rows.push((id, value));
                assert(joined_models(rows@) =~= shown.push((id, value.model())));
            },
            None => {
                proof {
                    lemma_selection_skips(shown, origin, ids@, i as int, expected);
                }
            },
        }
        i = i + 1;
    }
    proof {
        lemma_selection_lists(joined_models(rows@), origin, ids@, expected, before);
    }
    rows
}

/// `entries` after one change is made for each of the first `n` of `rows`,
/// in the order of the rows: for a row with the value `value` the entity
/// `entry` of the row becomes `change(entry, value)`. A row whose entity is
/// not there, or for which `change` gives nothing, is passed over.
pub open spec fn applied<T>(
    entries: Map<u64, Entry>,
    rows: Seq<(EntityId, T)>,
    n: int,
    change: spec_fn(Entry, T) -> Option<Entry>,
) -> Map<u64, Entry>
    decreases n,
{
    if n <= 0 {
        entries
    } else {
        let before = applied(entries, rows, n - 1, change);
        let key = rows[n - 1].0.bits;
        if before.dom().contains(key) && change(before[key], rows[n - 1].1) is Some {
            before.insert(key, change(before[key], rows[n - 1].1)->0)
        } else {
            before
        }
    }
}

/// `entries` with each entity that `selected` holds changed by its value,
/// where `change` gives something for it.
pub open spec fn applied_where<T>(
    entries: Map<u64, Entry>,
    selected: Map<u64, T>,
    change: spec_fn(Entry, T) -> Option<Entry>,
) -> Map<u64, Entry> {
    Map::new(
        |key: u64| entries.dom().contains(key),
        |key: u64|
            if selected.dom().contains(key) && change(entries[key], selected[key]) is Some {
                change(entries[key], selected[key])->0
            } else {
                entries[key]
            },
    )
}

/// Changes for rows that name each entity once do not meet: each entity
/// that is listed is changed once, by its own row, and all others are as
/// they were.
pub proof fn lemma_applied_to_list<T>(
    entries: Map<u64, Entry>,
    rows: Seq<(EntityId, T)>,
    selected: Map<u64, T>,
    change: spec_fn(Entry, T) -> Option<Entry>,
)
    requires
        lists(rows, selected),
    ensures
        applied(entries, rows, rows.len() as int, change) == applied_where(
            entries,
            selected,
            change,
        ),
{
    lemma_applied_prefix(entries, rows, selected, change, rows.len() as int);
    let all = rows.len() as int;
    assert forall|key: u64| listed_before(rows, all, key) <==> selected.dom().contains(key) by {
        if listed_before(rows, all, key) {
            let j = choose|j: int| 0 <= j < all && (#[trigger] rows[j]).0.bits == key;
            assert(selected.contains_pair(rows[j].0.bits, rows[j].1));
        }
    }
    assert(applied(entries, rows, all, change) =~= applied_where(entries, selected, change));
}

/// After the first `n` rows of a list, the entities of these rows are
/// changed, each by its own row, and all others are as they were.
proof fn lemma_applied_prefix<T>(
    entries: Map<u64, Entry>,
    rows: Seq<(EntityId, T)>,
    selected: Map<u64, T>,
    change: spec_fn(Entry, T) -> Option<Entry>,
    n: int,
)
    requires
        lists(rows, selected),
        0 <= n <= rows.len(),
    ensures
        applied(entries, rows, n, change) == Map::new(
            |key: u64| entries.dom().contains(key),
            |key: u64|
                if listed_before(rows, n, key) && change(entries[key], selected[key]) is Some {
                    change(entries[key], selected[key])->0
                } else {
                    entries[key]
                },
        ),
    decreases n,
{
    let goal = Map::new(
        |key: u64| entries.dom().contains(key),
        |key: u64|
            if listed_before(rows, n, key) && change(entries[key], selected[key]) is Some {
                change(entries[key], selected[key])->0
            } else {
                entries[key]
            },
    );
    if n == 0 {
        assert(applied(entries, rows, n, change) =~= goal);
    } else {
        lemma_applied_prefix(entries, rows, selected, change, n - 1);
        let before = applied(entries, rows, n - 1, change);
        let key_n = rows[n - 1].0.bits;
        assert(selected.contains_pair(rows[n - 1].0.bits, rows[n - 1].1));
        assert(!listed_before(rows, n - 1, key_n)) by {
            if listed_before(rows, n - 1, key_n) {
                let j = choose|j: int| 0 <= j < n - 1 && (#[trigger] rows[j]).0.bits == key_n;
                assert(rows[j].0 != rows[n - 1].0);
            }
        }
        assert forall|key: u64|
            listed_before(rows, n, key) <==> (listed_before(rows, n - 1, key) || key == key_n) by {
            if listed_before(rows, n, key) {
                let j = choose|j: int| 0 <= j < n && (#[trigger] rows[j]).0.bits == key;
                if j < n - 1 {
                    assert(listed_before(rows, n - 1, key));
                }
            }
            if listed_before(rows, n - 1, key) {
                let j = choose|j: int| 0 <= j < n - 1 && (#[trigger] rows[j]).0.bits == key;
                assert(0 <= j < n && rows[j].0.bits == key);
            }
            if key == key_n {
                assert(0 <= n - 1 < n && rows[n - 1].0.bits == key);
            }
        }
        assert(applied(entries, rows, n, change) =~= goal);
    }
}

/// A list stays a list of the same entities when two of its rows change
/// places.
pub proof fn lemma_swapped_rows_list<T>(
    rows: Seq<(EntityId, T)>,
    i: int,
    j: int,
    expected: Map<u64, T>,
)
    requires
        lists(rows, expected),
        0 <= i < rows.len(),
        0 <= j < rows.len(),
    ensures
        lists(rows.update(i, rows[j]).update(j, rows[i]), expected),
{
    let swapped = rows.update(i, rows[j]).update(j, rows[i]);
    let from = |at: int|
        if at == i {
            j
        } else if at == j {
            i
        } else {
            at
        };
    assert forall|a: int, b: int| 0 <= a < b < swapped.len() implies (#[trigger] swapped[a]).0 != (
    #[trigger] swapped[b]).0 by {
        assert(swapped[a] == rows[from(a)]);
        assert(swapped[b] == rows[from(b)]);
        if from(a) < from(b) {
            assert(rows[from(a)].0 != rows[from(b)].0);
        } else {
            assert(rows[from(b)].0 != rows[from(a)].0);
        }
    }
    assert forall|a: int| 0 <= a < swapped.len() implies expected.contains_pair(
        (#[trigger] swapped[a]).0.bits,
        swapped[a].1,
    ) by {
        assert(swapped[a] == rows[from(a)]);
        assert(expected.contains_pair(rows[from(a)].0.bits, rows[from(a)].1));
    }
    assert forall|key: u64| #[trigger] expected.dom().contains(key) implies exists|a: int|
        0 <= a < swapped.len() && (#[trigger] swapped[a]).0.bits == key by {
        let at = choose|at: int| 0 <= at < rows.len() && (#[trigger] rows[at]).0.bits == key;
        assert(swapped[from(at)] == rows[at]);
    }
}

} // verus!
