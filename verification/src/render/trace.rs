//! Fading marks of where an entity has been.
use crate::physics::motion::Motion;
use crate::render::render_box::RenderBoxComponent;
use crate::render::sprite::{Sprite, SpriteKind};
use crate::runtime::queries::{spawner_rows, spawners_in, trace_rows, trace_views, traces_in};
use crate::runtime::rows::{
    changed_prefix, changed_where, lemma_changed_prefix_end, lemma_changed_prefix_start,
    lemma_changed_prefix_step, lemma_removed_prefix_step, lemma_swapped_rows_list, lists,
    removed_prefix,
};
use crate::runtime::world::{
    despawn, entries, named_before, read_trace, read_trace_mark, set_trace, spawn_trace,
    trace_entry, EntityId, Entry, Stored,
};
use crate::scalar::{Color, HALF_BITS};
use vstd::prelude::*;

verus! {

/// The number of decay ticks that a trace lives.
pub const DEFAULT_TTL: usize = 255;

/// The alpha channel of a new trace: one half.
pub const INITIAL_ALPHA: u32 = HALF_BITS;

/// What a trace is: the colour it was spawned with, and the number of decay
/// ticks it has left. Its alpha fades by the same amount in every tick, so
/// that `ttl` ticks before the end it stands at `ttl` parts in `DEFAULT_TTL`
/// of the alpha in `color`.
pub struct TraceState {
    pub color: Color,
    pub ttl: nat,
}

impl TraceState {
    /// The trace one decay tick later. A trace with no tick left stays as
    /// it is.
    pub open spec fn aged(self) -> TraceState {
        if self.ttl > 0 {
            TraceState { color: self.color, ttl: (self.ttl - 1) as nat }
        } else {
            self
        }
    }

    /// The trace has no tick left.
    pub open spec fn expired(self) -> bool {
        self.ttl == 0
    }
}

/// Marks an entity as a trace that fades and disappears.
#[derive(Clone, Copy, Debug)]
pub struct TraceComponent {
    color: Color,
    ttl: usize,
}

impl View for TraceComponent {
    type V = TraceState;

    closed spec fn view(&self) -> TraceState {
        TraceState { color: self.color, ttl: self.ttl as nat }
    }
}

impl Stored for TraceComponent {
    type Model = TraceState;

    open spec fn model(&self) -> TraceState {
        self@
    }

    open spec fn of(entry: Entry) -> Option<TraceState> {
        entry.trace
    }

    fn component(world: &mut hecs::World, id: EntityId) -> (found: Option<Self>) {
        read_trace(world, id)
    }
}

impl TraceComponent {
    /// A trace of the given colour at half opacity, with its whole life
    /// before it.
    pub fn new(initial_color: Color) -> (t: Self)
        ensures
            t@ == (TraceState {
                color: Color { alpha: INITIAL_ALPHA, ..initial_color },
                ttl: DEFAULT_TTL as nat,
            }),
    {
        let mut faded_color = initial_color;
        faded_color.alpha = INITIAL_ALPHA;
        TraceComponent { color: faded_color, ttl: DEFAULT_TTL }
    }

    /// The colour that the trace was spawned with.
    pub fn color(&self) -> (c: Color)
        ensures
            c == self@.color,
    {
        self.color
    }

    /// The number of decay ticks that the trace has left.
    pub fn ttl(&self) -> (n: usize)
        ensures
            n == self@.ttl,
    {
        self.ttl
    }

    /// One decay tick.
    pub fn update(&mut self)
        ensures
            final(self)@ == old(self)@.aged(),
    {
        if self.ttl > 0 {
            self.ttl -= 1;
        }
    }

    /// Whether the trace has no tick left.
    pub fn expired(&self) -> (r: bool)
        ensures
            r == self@.expired(),
    {
        self.ttl == 0
    }
}

/// The entity one decay tick later: a trace has aged, anything else is as
/// it was.
pub open spec fn aged_entry(entry: Entry) -> Entry {
    if entry.is_trace() {
        Entry { trace: Some(entry.trace->0.aged()), ..entry }
    } else {
        entry
    }
}

/// The entity is still there after the decay tick: it is no trace, or a
/// trace that has ticks left after this one.
pub open spec fn survives(entry: Entry) -> bool {
    !(entry.is_trace() && entry.trace->0.aged().expired())
}

/// The entities one decay tick later: every trace has aged, the traces
/// that have no tick left are gone, and nothing else has changed.
pub open spec fn decayed(entries: Map<u64, Entry>) -> Map<u64, Entry> {
    Map::new(
        |key: u64| entries.dom().contains(key) && survives(entries[key]),
        |key: u64| aged_entry(entries[key]),
    )
}

/// The entities `n` decay ticks later.
pub open spec fn decayed_times(entries: Map<u64, Entry>, n: nat) -> Map<u64, Entry>
    decreases n,
{
    if n == 0 {
        entries
    } else {
        decayed_times(decayed(entries), (n - 1) as nat)
    }
}

/// The traces one decay tick later, each with its render box: also those
/// that have no tick left then.
pub open spec fn aged_traces_in(entries: Map<u64, Entry>) -> Map<
    u64,
    (TraceState, RenderBoxComponent),
> {
    Map::new(
        |key: u64| entries.dom().contains(key) && entries[key].is_trace(),
        |key: u64| (entries[key].trace->0.aged(), entries[key].render_box->0),
    )
}

/// The number of decay ticks after which a trace with `ttl` ticks left is
/// gone: `ttl`, and one for a trace that has none left.
pub open spec fn ticks_to_live(ttl: nat) -> nat {
    if ttl == 0 {
        1
    } else {
        ttl
    }
}

/// A trace is there for as long as it has ticks left: after fewer decay
/// ticks than that it is still a trace, of the colour it was spawned with
/// and on its render box, and the ticks that have passed are counted off.
pub proof fn lemma_trace_lives(entries: Map<u64, Entry>, key: u64, n: nat)
    requires
        entries.dom().contains(key),
        entries[key].is_trace(),
        n < entries[key].trace->0.ttl,
    ensures
        decayed_times(entries, n).dom().contains(key),
        decayed_times(entries, n)[key] == (Entry {
            trace: Some(
                TraceState {
                    color: entries[key].trace->0.color,
                    ttl: (entries[key].trace->0.ttl - n) as nat,
                },
            ),
            ..entries[key]
        }),
    decreases n,
{
    if n > 0 {
        lemma_trace_lives(decayed(entries), key, (n - 1) as nat);
    }
}

/// What one decay tick has removed stays away.
pub proof fn lemma_decay_never_spawns(entries: Map<u64, Entry>, key: u64, n: nat)
    requires
        !entries.dom().contains(key),
    ensures
        !decayed_times(entries, n).dom().contains(key),
    decreases n,
{
    if n > 0 {
        lemma_decay_never_spawns(decayed(entries), key, (n - 1) as nat);
    }
}

/// A trace is gone once its ticks are over: after as many decay ticks as
/// it had left, and after any number more, it is no longer in the world.
pub proof fn lemma_trace_dies(entries: Map<u64, Entry>, key: u64, n: nat)
    requires
        entries.dom().contains(key),
        entries[key].is_trace(),
        n >= ticks_to_live(entries[key].trace->0.ttl),
    ensures
        !decayed_times(entries, n).dom().contains(key),
    decreases n,
{
    if entries[key].trace->0.ttl <= 1 {
        lemma_decay_never_spawns(decayed(entries), key, (n - 1) as nat);
    } else {
        lemma_trace_dies(decayed(entries), key, (n - 1) as nat);
    }
}

/// Decay touches nothing but traces: an entity that is no trace is there
/// after any number of decay ticks, as it was.
pub proof fn lemma_decay_spares_others(entries: Map<u64, Entry>, key: u64, n: nat)
    requires
        entries.dom().contains(key),
        !entries[key].is_trace(),
    ensures
        decayed_times(entries, n).dom().contains(key),
        decayed_times(entries, n)[key] == entries[key],
    decreases n,
{
    if n > 0 {
        lemma_decay_spares_others(decayed(entries), key, (n - 1) as nat);
    }
}

/// A new trace stands at half opacity and lives for `DEFAULT_TTL` decay
/// ticks: it is there after `DEFAULT_TTL - 1` of them, with one tick left,
/// and gone after `DEFAULT_TTL`.
pub proof fn lemma_new_trace_lifetime(entries: Map<u64, Entry>, key: u64, source: Entry)
    requires
        entries.dom().contains(key),
        leaves_circle_traces(source),
        entries[key] == trace_of(source),
    ensures
        entries[key].trace->0.color.alpha == INITIAL_ALPHA,
        decayed_times(entries, (DEFAULT_TTL - 1) as nat).dom().contains(key),
        decayed_times(entries, (DEFAULT_TTL - 1) as nat)[key].trace->0.ttl == 1,
        !decayed_times(entries, DEFAULT_TTL as nat).dom().contains(key),
{
    lemma_trace_lives(entries, key, (DEFAULT_TTL - 1) as nat);
    lemma_trace_dies(entries, key, DEFAULT_TTL as nat);
}

/// Among the first `n` of `rows` is the trace `key`, and it has no tick left
/// after one more.
spec fn expires_before(
    rows: Seq<(EntityId, (TraceState, RenderBoxComponent))>,
    n: int,
    key: u64,
) -> bool {
    exists|j: int|
        0 <= j < n && (#[trigger] rows[j]).0.bits == key && (rows[j].1).0.aged().expired()
}

/// The rows stand in the order of their age, the oldest first: no row has
/// more ticks left than a row after it.
pub open spec fn oldest_first(rows: Seq<(EntityId, (TraceState, RenderBoxComponent))>) -> bool {
    forall|i: int, j: int|
        0 <= i < j < rows.len() ==> ((#[trigger] rows[i]).1).0.ttl <= ((#[trigger] rows[j]).1).0.ttl
}

/// The rows in the order of their age, the oldest first.
fn sorted_by_age(
    rows: Vec<(EntityId, (TraceComponent, RenderBoxComponent))>,
    Ghost(expected): Ghost<Map<u64, (TraceState, RenderBoxComponent)>>,
) -> (sorted: Vec<(EntityId, (TraceComponent, RenderBoxComponent))>)
    requires
        lists(trace_views(rows@), expected),
    ensures
        lists(trace_views(sorted@), expected),
        oldest_first(trace_views(sorted@)),
{
    let mut sorted = rows;
    let n = sorted.len();
    let mut i: usize = 1;
    while i < n
        invariant
            1 <= i,
            sorted.len() == n,
            lists(trace_views(sorted@), expected),
            forall|a: int, b: int|
                0 <= a < b < i && b < sorted.len() ==> ((#[trigger] sorted@[a]).1).0@.ttl <= ((
                #[trigger] sorted@[b]).1).0@.ttl,
        decreases n - i,
    {
        let mut j: usize = i;
        while j > 0 && (sorted[j - 1].1).0.ttl() > (sorted[j].1).0.ttl()
            invariant
                j <= i < n,
                sorted.len() == n,
                lists(trace_views(sorted@), expected),
                forall|a: int, b: int|
                    0 <= a < b <= i && b != j ==> ((#[trigger] sorted@[a]).1).0@.ttl <= ((
                    #[trigger] sorted@[b]).1).0@.ttl,
            decreases j,
        {
            let earlier = sorted[j - 1];
            let later = sorted[j];
            let ghost before = sorted@;
            sorted.set(j - 1, later);
            sorted.set(j, earlier);
            proof {
                let at = j as int;
                assert(sorted@ =~= before.update(at - 1, before[at]).update(at, before[at - 1]));
                lemma_swapped_rows_list(trace_views(before), at - 1, at, expected);
                assert(trace_views(sorted@) =~= trace_views(before).update(
                    at - 1,
                    trace_views(before)[at],
                ).update(at, trace_views(before)[at - 1]));
                assert forall|a: int, b: int| 0 <= a < b <= i && b != at - 1 implies ((
                #[trigger] sorted@[a]).1).0@.ttl <= ((#[trigger] sorted@[b]).1).0@.ttl by {
                    if b == at {
                        if a < at - 1 {
                            assert((before[a].1).0@.ttl <= (before[at - 1].1).0@.ttl);
                        }
                    } else if a == at {
                        assert((before[at - 1].1).0@.ttl <= (before[b].1).0@.ttl);
                    } else if a == at - 1 {
                        assert((before[at].1).0@.ttl <= (before[b].1).0@.ttl);
                    } else {
                        assert((before[a].1).0@.ttl <= (before[b].1).0@.ttl);
                    }
                }
            }
            j = j - 1;
        }
        proof {
            assert forall|a: int, b: int| 0 <= a < b < i + 1 && b < sorted.len() implies ((
            #[trigger] sorted@[a]).1).0@.ttl <= ((#[trigger] sorted@[b]).1).0@.ttl by {
                if b == j {
                    if a < j - 1 {
                        assert((sorted@[a].1).0@.ttl <= (sorted@[j - 1].1).0@.ttl);
                    }
                }
            }
        }
        i = i + 1;
    }
    proof {
        let shown = trace_views(sorted@);
        assert forall|a: int, b: int|
            0 <= a < b < shown.len() implies ((#[trigger] shown[a]).1).0.ttl <= ((
            #[trigger] shown[b]).1).0.ttl by {
            assert((sorted@[a].1).0@.ttl <= (sorted@[b].1).0@.ttl);
        }
    }
    sorted
}

/// Ages the traces and removes those whose time is over.
pub struct RenderTraceSystem {}

impl Default for RenderTraceSystem {
    fn default() -> (s: Self) {
        RenderTraceSystem::new()
    }
}

impl RenderTraceSystem {
    pub fn new() -> (s: Self) {
        RenderTraceSystem {  }
    }

    /// One decay tick: every trace ages, and then the traces that have no
    /// tick left are despawned. Returns what is to be drawn in this tick:
    /// every trace as it is after aging, with its render box, the oldest
    /// first.
    pub fn update(&self, world: &mut hecs::World) -> (drawn: Vec<
        (EntityId, (TraceComponent, RenderBoxComponent)),
    >)
        ensures
            entries(*final(world)) == decayed(entries(*old(world))),
            lists(trace_views(drawn@), aged_traces_in(entries(*old(world)))),
            oldest_first(trace_views(drawn@)),
    {
        let rows = trace_rows(world);
        let ghost before = entries(*world);
        let ghost views = trace_views(rows@);
        let ghost change = |entry: Entry| aged_entry(entry);
        proof {
            lemma_changed_prefix_start(before, views, change);
        }
        let mut expired_traces: Vec<EntityId> = Vec::new();
        let mut drawn: Vec<(EntityId, (TraceComponent, RenderBoxComponent))> = Vec::new();
        let mut i: usize = 0;
        while i < rows.len()
            invariant
                i <= rows.len(),
                views == trace_views(rows@),
                lists(views, traces_in(before)),
                forall|entry: Entry| #[trigger] change(entry) == aged_entry(entry),
                entries(*world) == changed_prefix(before, views, i as int, change),
                drawn.len() == i,
                forall|j: int|
                    0 <= j < i ==> (#[trigger] trace_views(drawn@)[j]) == (
                        views[j].0,
                        ((views[j].1).0.aged(), (views[j].1).1),
                    ),
                forall|a: int|
                    0 <= a < expired_traces.len() ==> expires_before(
                        views,
                        i as int,
                        (#[trigger] expired_traces@[a]).bits,
                    ),
                forall|key: u64| #[trigger]
                    expires_before(views, i as int, key) ==> named_before(
                        expired_traces@,
                        expired_traces.len() as int,
                        key,
                    ),
            decreases rows.len() - i,
        {
            proof {
                lemma_changed_prefix_step(before, views, i as int, change, traces_in(before));
            }
            let (id, pair) = rows[i];
            let (mut trace, render_box) = pair;
            assert(views[i as int] == (id, (trace@, render_box)));
            trace.update();
            let found = set_trace(world, id, trace);
            assert(found);
            let ghost drawn_before = drawn@;
            let ghost expired_before = expired_traces@;
            drawn.push((id, (trace, render_box)));
            if trace.expired() {
                expired_traces.push(id);
            }
            proof {
                assert forall|j: int|
                    0 <= j < i + 1 implies (#[trigger] trace_views(drawn@)[j]) == (
                    views[j].0,
                    ((views[j].1).0.aged(), (views[j].1).1),
                ) by {
                    if j < i {
                        assert(trace_views(drawn@)[j] == trace_views(drawn_before)[j]);
                    }
                }
                assert forall|a: int| 0 <= a < expired_traces.len() implies expires_before(
                    views,
                    i + 1,
                    (#[trigger] expired_traces@[a]).bits,
                ) by {
                    let key = expired_traces@[a].bits;
                    if a < expired_before.len() {
                        assert(expired_traces@[a] == expired_before[a]);
                        assert(expires_before(views, i as int, key));
                        let j = choose|j: int|
                            0 <= j < i && (#[trigger] views[j]).0.bits == key && (
                            views[j].1).0.aged().expired();
                        assert(0 <= j < i + 1 && views[j].0.bits == key && (
                        views[j].1).0.aged().expired());
                    } else {
                        assert(0 <= i < i + 1 && views[i as int].0.bits == key && (
                        views[i as int].1).0.aged().expired());
                    }
                }
                assert forall|key: u64| #[trigger]
                    expires_before(views, i + 1, key) implies named_before(
                    expired_traces@,
                    expired_traces.len() as int,
                    key,
                ) by {
                    let j = choose|j: int|
                        0 <= j < i + 1 && (#[trigger] views[j]).0.bits == key && (
                        views[j].1).0.aged().expired();
                    if j < i {
                        assert(expires_before(views, i as int, key));
                        let a = choose|a: int|
                            0 <= a < expired_before.len() && (#[trigger] expired_before[a]).bits
                                == key;
                        assert(expired_traces@[a] == expired_before[a]);
                    } else {
                        let a = expired_traces.len() - 1;
                        assert(expired_traces@[a].bits == key);
                    }
                }
            }
            i = i + 1;
        }
        let ghost aged = entries(*world);
        proof {
            lemma_changed_prefix_end(before, views, change, traces_in(before));
            assert(aged == changed_where(before, traces_in(before), change));
            if expired_traces.len() > 0 {
                lemma_removed_prefix_step(aged, expired_traces@, 0);
            }
            assert(removed_prefix(aged, expired_traces@, 0) =~= aged);
        }
        let mut k: usize = 0;
        while k < expired_traces.len()
            invariant
                k <= expired_traces.len(),
                entries(*world) == removed_prefix(aged, expired_traces@, k as int),
            decreases expired_traces.len() - k,
        {
            proof {
                lemma_removed_prefix_step(aged, expired_traces@, k as int);
            }
            despawn(world, expired_traces[k]);
            k = k + 1;
        }
        proof {
            let all = expired_traces.len() as int;
            assert forall|key: u64| before.dom().contains(key) implies (named_before(
                expired_traces@,
                all,
                key,
            ) <==> !survives(before[key])) by {
                if named_before(expired_traces@, all, key) {
                    let a = choose|a: int|
                        0 <= a < all && (#[trigger] expired_traces@[a]).bits == key;
                    assert(expires_before(views, rows.len() as int, expired_traces@[a].bits));
                    let j = choose|j: int|
                        0 <= j < rows.len() && (#[trigger] views[j]).0.bits == key && (
                        views[j].1).0.aged().expired();
                    assert(traces_in(before).contains_pair(views[j].0.bits, views[j].1));
                }
                if !survives(before[key]) {
                    assert(traces_in(before).dom().contains(key));
                    let j = choose|j: int|
                        0 <= j < views.len() && (#[trigger] views[j]).0.bits == key;
                    assert(traces_in(before).contains_pair(views[j].0.bits, views[j].1));
                    assert(expires_before(views, rows.len() as int, key));
                }
            }
            assert(entries(*world) =~= decayed(before));
            let shown = trace_views(drawn@);
            assert forall|a: int, b: int|
                0 <= a < b < shown.len() implies (#[trigger] shown[a]).0 != (
            #[trigger] shown[b]).0 by {
                assert(views[a].0 != views[b].0);
            }
            assert forall|a: int| 0 <= a < shown.len() implies aged_traces_in(
                before,
            ).contains_pair((#[trigger] shown[a]).0.bits, shown[a].1) by {
                assert(traces_in(before).contains_pair(views[a].0.bits, views[a].1));
            }
            assert forall|key: u64| #[trigger]
                aged_traces_in(before).dom().contains(key) implies exists|a: int|
                0 <= a < shown.len() && (#[trigger] shown[a]).0.bits == key by {
                assert(traces_in(before).dom().contains(key));
                let j = choose|j: int| 0 <= j < views.len() && (#[trigger] views[j]).0.bits == key;
                assert(shown[j].0.bits == key);
            }
        }
        sorted_by_age(drawn, Ghost(aged_traces_in(before)))
    }
}

/// Marks an entity as one that leaves traces.
#[derive(Clone, Copy, Debug)]
pub struct SpawnTraceSystem {}

impl Stored for SpawnTraceSystem {
    type Model = SpawnTraceSystem;

    open spec fn model(&self) -> SpawnTraceSystem {
        *self
    }

    open spec fn of(entry: Entry) -> Option<SpawnTraceSystem> {
        if entry.leaves_traces {
            Some(SpawnTraceSystem {  })
        } else {
            None
        }
    }

    fn component(world: &mut hecs::World, id: EntityId) -> (found: Option<Self>) {
        read_trace_mark(world, id)
    }
}

impl SpawnTraceSystem {
    pub fn new() -> (s: Self) {
        SpawnTraceSystem {  }
    }
}

/// The number of ticks from one spawning of traces to the next.
pub const SPAWN_INTERVAL: usize = 16;

/// The entity leaves traces and is drawn as a disc: only discs leave
/// traces.
pub open spec fn leaves_circle_traces(entry: Entry) -> bool {
    entry.is_spawner() && entry.sprite->0.kind is Circle
}

/// The trace that the entity `entry` leaves: the entity's colour at half
/// opacity with a whole life before it, its render box, and its motion
/// brought to rest.
pub open spec fn trace_of(entry: Entry) -> Entry {
    trace_entry(
        TraceState {
            color: Color { alpha: INITIAL_ALPHA, ..entry.sprite->0.kind->Circle_0 },
            ttl: DEFAULT_TTL as nat,
        },
        entry.render_box->0,
        entry.motion->0.spec_halted(),
    )
}

/// `after` is `before` with one new trace for each entity of `sources`:
/// `traces[i]` is the trace of `sources[i]`.
pub open spec fn traces_added(
    before: Map<u64, Entry>,
    after: Map<u64, Entry>,
    sources: Seq<EntityId>,
    traces: Seq<EntityId>,
) -> bool {
    &&& sources.len() == traces.len()
    &&& forall|a: int, b: int|
        0 <= a < b < traces.len() ==> (#[trigger] traces[a]) != (#[trigger] traces[b])
    &&& forall|a: int| 0 <= a < traces.len() ==> !before.dom().contains((#[trigger] traces[a]).bits)
    &&& forall|key: u64| #[trigger]
        after.dom().contains(key) <==> (before.dom().contains(key) || named_before(
            traces,
            traces.len() as int,
            key,
        ))
    &&& forall|key: u64| before.dom().contains(key) ==> #[trigger] after[key] == before[key]
    &&& forall|a: int|
        0 <= a < traces.len() ==> after[(#[trigger] traces[a]).bits] == trace_of(
            before[sources[a].bits],
        )
}

/// `sources` lists the entities of `entries` that leave traces and are
/// drawn as discs, each once.
pub open spec fn lists_circle_spawners(sources: Seq<EntityId>, entries: Map<u64, Entry>) -> bool {
    &&& forall|a: int, b: int|
        0 <= a < b < sources.len() ==> (#[trigger] sources[a]) != (#[trigger] sources[b])
    &&& forall|a: int|
        0 <= a < sources.len() ==> entries.dom().contains((#[trigger] sources[a]).bits)
            && leaves_circle_traces(entries[sources[a].bits])
    &&& forall|key: u64|
        entries.dom().contains(key) && #[trigger] leaves_circle_traces(entries[key])
            ==> named_before(sources, sources.len() as int, key)
}

/// `after` is `before` with one new trace for every entity that leaves
/// traces and is drawn as a disc; nothing else has changed.
pub open spec fn traces_spawned(before: Map<u64, Entry>, after: Map<u64, Entry>) -> bool {
    exists|sources: Seq<EntityId>, traces: Seq<EntityId>|
        lists_circle_spawners(sources, before) && #[trigger] traces_added(
            before,
            after,
            sources,
            traces,
        )
}

/// The count of the spawning one tick later: one less, and the whole
/// interval again after the tick in which traces are spawned.
pub open spec fn counted_down(ticks: nat) -> nat {
    if ticks > 1 {
        (ticks - 1) as nat
    } else {
        SPAWN_INTERVAL as nat
    }
}

/// The count of the spawning `n` ticks later.
pub open spec fn counted_down_times(ticks: nat, n: nat) -> nat
    decreases n,
{
    if n == 0 {
        ticks
    } else {
        counted_down_times(counted_down(ticks), (n - 1) as nat)
    }
}

/// The count of the spawning goes round the interval: `n` ticks after it
/// stood at `ticks` it stands where `n` steps down from `ticks` lead.
pub proof fn lemma_count_goes_round(ticks: nat, n: nat)
    requires
        1 <= ticks <= SPAWN_INTERVAL,
    ensures
        counted_down_times(ticks, n) == SPAWN_INTERVAL - ((n + SPAWN_INTERVAL - ticks) as int) % (
        SPAWN_INTERVAL as int),
    decreases n,
{
    if n > 0 {
        lemma_count_goes_round(counted_down(ticks), (n - 1) as nat);
    }
}

/// A new system spawns traces in every tick whose number is a multiple of
/// `SPAWN_INTERVAL`, and in no other: the tick after `n` ticks spawns if
/// and only if `n + 1` is such a multiple.
pub proof fn lemma_spawns_every_interval(n: nat)
    ensures
        counted_down_times(SPAWN_INTERVAL as nat, n) <= 1 <==> ((n + 1) as int) % (
        SPAWN_INTERVAL as int) == 0,
{
    lemma_count_goes_round(SPAWN_INTERVAL as nat, n);
}

/// Spawns a trace of every entity that leaves traces, once in every
/// `SPAWN_INTERVAL` ticks.
pub struct TraceSpawnSystem {
    ticks_since_spawn: usize,
}

impl View for TraceSpawnSystem {
    type V = nat;

    /// The number of ticks until the next spawning, this tick included.
    closed spec fn view(&self) -> nat {
        self.ticks_since_spawn as nat
    }
}

impl Default for TraceSpawnSystem {
    fn default() -> (s: Self)
        ensures
            s@ == SPAWN_INTERVAL,
    {
        TraceSpawnSystem::new()
    }
}

impl TraceSpawnSystem {
    #[verifier::type_invariant]
    spec fn counts_down(self) -> bool {
        1 <= self.ticks_since_spawn <= SPAWN_INTERVAL
    }

    pub fn new() -> (s: Self)
        ensures
            s@ == SPAWN_INTERVAL,
    {
        TraceSpawnSystem { ticks_since_spawn: SPAWN_INTERVAL }
    }

    /// The number of ticks until the next spawning, this tick included.
    pub fn ticks_until_spawn(&self) -> (n: usize)
        ensures
            n == self@,
            1 <= n <= SPAWN_INTERVAL,
    {
        proof {
            use_type_invariant(self);
        }
        self.ticks_since_spawn
    }

    /// One tick. Counts down; in the tick in which the count reaches zero,
    /// spawns a trace of every entity that leaves traces and is drawn as a
    /// disc, and starts the count again. In every other tick the world stays
    /// as it is.
    pub fn update(&mut self, world: &mut hecs::World)
        ensures
            1 <= final(self)@ <= SPAWN_INTERVAL,
            final(self)@ == counted_down(old(self)@),
            old(self)@ > 1 ==> final(self)@ == old(self)@ - 1 && entries(*final(world)) == entries(
                *old(world),
            ),
            old(self)@ <= 1 ==> final(self)@ == SPAWN_INTERVAL && traces_spawned(
                entries(*old(world)),
                entries(*final(world)),
            ),
    {
        proof {
            use_type_invariant(&*self);
        }
        let ticks: usize = self.ticks_since_spawn - 1;
        if ticks != 0 {
            self.ticks_since_spawn = ticks;
            return ;
        }
        self.ticks_since_spawn = SPAWN_INTERVAL;
        let rows = spawner_rows(world);
        let ghost before = entries(*world);
        let ghost mut sources: Seq<EntityId> = Seq::empty();
        let ghost mut traces: Seq<EntityId> = Seq::empty();
        let mut i: usize = 0;
        while i < rows.len()
            invariant
                i <= rows.len(),
                lists(rows@, spawners_in(before)),
                traces_added(before, entries(*world), sources, traces),
                forall|a: int|
                    0 <= a < sources.len() ==> listed_circle(
                        rows@,
                        i as int,
                        #[trigger] sources[a],
                    ),
                forall|a: int, b: int|
                    0 <= a < b < sources.len() ==> (#[trigger] sources[a]) != (
                    #[trigger] sources[b]),
                forall|j: int|
                    0 <= j < i && (#[trigger] rows@[j].1).1.kind is Circle ==> named_before(
                        sources,
                        sources.len() as int,
                        rows@[j].0.bits,
                    ),
            decreases rows.len() - i,
        {
            let (id, parts) = rows[i];
            let (render_box, sprite, motion) = parts;
            assert(spawners_in(before).contains_pair(rows@[i as int].0.bits, rows@[i as int].1));
            match sprite.kind {
                SpriteKind::Circle(color) => {
                    let ghost current = entries(*world);
                    let trace_id = spawn_trace(
                        world,
                        TraceComponent::new(color),
                        render_box,
                        motion.halted(),
                    );
                    proof {
                        let old_sources = sources;
                        let old_traces = traces;
                        assert(!named_before(old_traces, old_traces.len() as int, trace_id.bits));
                        assert forall|a: int| 0 <= a < old_sources.len() implies old_sources[a]
                            != id by {
                            assert(listed_circle(rows@, i as int, old_sources[a]));
                            let j = choose|j: int|
                                0 <= j < i && (#[trigger] rows@[j]).0 == old_sources[a] && (
                                rows@[j].1).1.kind is Circle;
                            assert(rows@[j].0 != rows@[i as int].0);
                        }
                        sources = old_sources.push(id);
                        traces = old_traces.push(trace_id);
                        let after = entries(*world);
                        assert forall|a: int, b: int| 0 <= a < b < traces.len() implies (
                        #[trigger] traces[a]) != (#[trigger] traces[b]) by {
                            if b == old_traces.len() {
                                assert(old_traces[a].bits != trace_id.bits);
                            } else {
                                assert(old_traces[a] != old_traces[b]);
                            }
                        }
                        assert forall|key: u64| #[trigger]
                            after.dom().contains(key) <==> (before.dom().contains(key)
                                || named_before(traces, traces.len() as int, key)) by {
                            if named_before(traces, traces.len() as int, key) {
                                let a = choose|a: int|
                                    0 <= a < traces.len() && (#[trigger] traces[a]).bits == key;
                                if a < old_traces.len() {
                                    assert(old_traces[a].bits == key);
                                    assert(named_before(old_traces, old_traces.len() as int, key));
                                }
                            }
                            if named_before(old_traces, old_traces.len() as int, key) {
                                let a = choose|a: int|
                                    0 <= a < old_traces.len() && (#[trigger] old_traces[a]).bits
                                        == key;
                                assert(traces[a].bits == key);
                            }
                            if key == trace_id.bits {
                                assert(traces[old_traces.len() as int].bits == key);
                            }
                        }
                        assert forall|a: int| 0 <= a < traces.len() implies after[(
                        #[trigger] traces[a]).bits] == trace_of(before[sources[a].bits]) by {
                            if a < old_traces.len() {
                                assert(traces[a] == old_traces[a]);
                                assert(sources[a] == old_sources[a]);
                                assert(old_traces[a].bits != trace_id.bits);
                            }
                        }
                        assert forall|a: int| 0 <= a < sources.len() implies listed_circle(
                            rows@,
                            i + 1,
                            #[trigger] sources[a],
                        ) by {
                            if a < old_sources.len() {
                                assert(listed_circle(rows@, i as int, old_sources[a]));
                                let j = choose|j: int|
                                    0 <= j < i && (#[trigger] rows@[j]).0 == old_sources[a] && (
                                    rows@[j].1).1.kind is Circle;
                                assert(0 <= j < i + 1 && rows@[j].0 == sources[a] && (
                                rows@[j].1).1.kind is Circle);
                            } else {
                                assert(0 <= i < i + 1 && rows@[i as int].0 == sources[a] && (
                                rows@[i as int].1).1.kind is Circle);
                            }
                        }
                        assert forall|j: int|
                            0 <= j < i + 1 && (#[trigger] rows@[j].1).1.kind
                                is Circle implies named_before(
                            sources,
                            sources.len() as int,
                            rows@[j].0.bits,
                        ) by {
                            if j < i {
                                let a = choose|a: int|
                                    0 <= a < old_sources.len() && (#[trigger] old_sources[a]).bits
                                        == rows@[j].0.bits;
                                assert(sources[a].bits == rows@[j].0.bits);
                            } else {
                                assert(sources[old_sources.len() as int].bits == rows@[j].0.bits);
                            }
                        }
                    }
                },
                SpriteKind::Image(_) => {
                    proof {
                        assert forall|a: int| 0 <= a < sources.len() implies listed_circle(
                            rows@,
                            i + 1,
                            #[trigger] sources[a],
                        ) by {
                            assert(listed_circle(rows@, i as int, sources[a]));
                            let j = choose|j: int|
                                0 <= j < i && (#[trigger] rows@[j]).0 == sources[a] && (
                                rows@[j].1).1.kind is Circle;
                            assert(0 <= j < i + 1 && rows@[j].0 == sources[a] && (
                            rows@[j].1).1.kind is Circle);
                        }
                    }
                },
            }
            i = i + 1;
        }
        proof {
            assert forall|a: int| 0 <= a < sources.len() implies before.dom().contains(
                (#[trigger] sources[a]).bits,
            ) && leaves_circle_traces(before[sources[a].bits]) by {
                assert(listed_circle(rows@, rows.len() as int, sources[a]));
                let j = choose|j: int|
                    0 <= j < rows.len() && (#[trigger] rows@[j]).0 == sources[a] && (
                    rows@[j].1).1.kind is Circle;
                assert(spawners_in(before).contains_pair(rows@[j].0.bits, rows@[j].1));
            }
            assert forall|key: u64|
                before.dom().contains(key) && #[trigger] leaves_circle_traces(
                    before[key],
                ) implies named_before(sources, sources.len() as int, key) by {
                assert(spawners_in(before).dom().contains(key));
                let j = choose|j: int| 0 <= j < rows.len() && (#[trigger] rows@[j]).0.bits == key;
                assert(spawners_in(before).contains_pair(rows@[j].0.bits, rows@[j].1));
                assert((rows@[j].1).1.kind is Circle);
            }
            assert(lists_circle_spawners(sources, before));
        }
    }
}

/// Among the first `n` of `rows` is the entity `id`, drawn as a disc.
spec fn listed_circle(
    rows: Seq<(EntityId, (RenderBoxComponent, Sprite, Motion))>,
    n: int,
    id: EntityId,
) -> bool {
    exists|j: int| 0 <= j < n && (#[trigger] rows[j]).0 == id && (rows[j].1).1.kind is Circle
}

} // verus!
