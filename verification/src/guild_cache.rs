//! The concurrent map of guild id to guild snapshot, mutated only by gateway
//! events: a create event replaces the snapshot wholesale (no merging), a
//! delete event removes it, and both are idempotent, so replays after a
//! resume are harmless. The map itself is dashmap's sharded hash map, used
//! through trusted wrappers whose contracts speak of the abstract contents.

use vstd::prelude::*;

use crate::types::PartialGuild;
use crate::types::PartialGuildView;

verus! {

#[verifier::external_type_specification]
#[verifier::external_body]
#[verifier::reject_recursive_types(K)]
#[verifier::reject_recursive_types(V)]
#[verifier::reject_recursive_types(S)]
pub struct ExDashMap<K, V, S>(dashmap::DashMap<K, V, S>);

#[verifier::external_type_specification]
#[verifier::external_body]
pub struct ExFxHasher(fxhash::FxHasher);

#[verifier::external_type_specification]
#[verifier::external_body]
#[verifier::reject_recursive_types(H)]
pub struct ExBuildHasherDefault<H>(core::hash::BuildHasherDefault<H>);

/// The empty guild map.
pub open spec fn guild_map_empty() -> Map<u64, PartialGuildView> {
    Map::empty()
}

/// Whether `s` enumerates exactly the entries of `m`: every listed pair is
/// in the map, every key of the map is listed, and no key is listed twice.
pub open spec fn enumerates_guild_map(
    s: Seq<(u64, PartialGuild)>,
    m: Map<u64, PartialGuildView>,
) -> bool {
    &&& forall|i: int| 0 <= i < s.len() ==> m.contains_pair((#[trigger] s[i]).0, s[i].1@)
    &&& forall|k: u64|
        m.dom().contains(k) ==> exists|i: int| 0 <= i < s.len() && (#[trigger] s[i]).0 == k
    &&& forall|i: int, j: int| 0 <= i < j < s.len() ==> s[i].0 != s[j].0
}

/// The abstract contents of the guild map: which snapshot each present
/// guild id is mapped to.
pub uninterp spec fn guild_map(
    m: dashmap::DashMap<u64, PartialGuild, fxhash::FxBuildHasher>,
) -> Map<u64, PartialGuildView>;

/// Relies on dashmap::DashMap::insert: maps the key to the new value and
/// returns the value it replaced, if any.
#[verifier::external_body]
fn dash_insert(
    m: &mut dashmap::DashMap<u64, PartialGuild, fxhash::FxBuildHasher>,
    k: u64,
    v: PartialGuild,
) -> (r: Option<PartialGuild>)
    ensures
        guild_map(*final(m)) == guild_map(*old(m)).insert(k, v@),
        r matches Some(prev) ==> guild_map(*old(m)).contains_pair(k, prev@),
        r is None ==> !guild_map(*old(m)).dom().contains(k),
{
    m.insert(k, v)
}

/// Relies on dashmap::DashMap::remove: unmaps the key and returns the value
/// it held, if any; removing an absent key changes nothing.
#[verifier::external_body]
fn dash_remove(
    m: &mut dashmap::DashMap<u64, PartialGuild, fxhash::FxBuildHasher>,
    k: u64,
) -> (r: Option<PartialGuild>)
    ensures
        guild_map(*final(m)) == guild_map(*old(m)).remove(k),
        r matches Some(prev) ==> guild_map(*old(m)).contains_pair(k, prev@),
        r is None ==> !guild_map(*old(m)).dom().contains(k),
{
    m.remove(&k).map(|kv| kv.1)
}

/// Relies on dashmap::DashMap::get: returns the value the key is mapped to,
/// if any (cloned; the clone keeps the snapshot's content).
#[verifier::external_body]
fn dash_get(
    m: &dashmap::DashMap<u64, PartialGuild, fxhash::FxBuildHasher>,
    k: u64,
) -> (r: Option<PartialGuild>)
    ensures
        r matches Some(g) ==> guild_map(*m).contains_pair(k, g@),
        r is None ==> !guild_map(*m).dom().contains(k),
{
    m.get(&k).map(|entry| entry.value().clone())
}

/// Relies on dashmap::DashMap::iter: visits every entry exactly once, in no
/// particular order (entries are cloned; a clone keeps each snapshot's
/// content).
#[verifier::external_body]
fn dash_entries(m: &dashmap::DashMap<u64, PartialGuild, fxhash::FxBuildHasher>) -> (r: Vec<
    (u64, PartialGuild),
>)
    ensures
        enumerates_guild_map(r@, guild_map(*m)),
{
    m.iter().map(|entry| (*entry.key(), entry.value().clone())).collect()
}

/// One gateway event that mutates guild state: a create carries the whole
/// new snapshot, a delete carries the guild id alone.
#[derive(Debug, PartialEq, Eq)]
pub enum GuildEvent {
    Create(PartialGuild),
    Delete(u64),
}

/// The mathematical content of a guild event.
#[verifier::ext_equal]
pub enum GuildEventView {
    Create(PartialGuildView),
    Delete(u64),
}

impl View for GuildEvent {
    type V = GuildEventView;

    open spec fn view(&self) -> GuildEventView {
        match self {
            GuildEvent::Create(g) => GuildEventView::Create(g@),
            GuildEvent::Delete(id) => GuildEventView::Delete(*id),
        }
    }
}

impl Clone for GuildEvent {
    /// A clone keeps the variant and its payload.
    fn clone(&self) -> (r: Self)
        ensures
            r@ == self@,
    {
        match self {
            GuildEvent::Create(g) => GuildEvent::Create(g.clone()),
            GuildEvent::Delete(id) => GuildEvent::Delete(*id),
        }
    }
}

/// The content of each event in a sequence.
pub open spec fn event_views(s: Seq<GuildEvent>) -> Seq<GuildEventView> {
    s.map_values(|e: GuildEvent| e@)
}

/// The effect of one event on the abstract guild map: last writer wins,
/// wholesale.
pub open spec fn apply_guild_event(
    m: Map<u64, PartialGuildView>,
    e: GuildEventView,
) -> Map<u64, PartialGuildView> {
    match e {
        GuildEventView::Create(g) => m.insert(g.id, g),
        GuildEventView::Delete(id) => m.remove(id),
    }
}

/// The effect of a whole sequence of events, applied in order.
pub open spec fn apply_guild_events(
    m: Map<u64, PartialGuildView>,
    evs: Seq<GuildEventView>,
) -> Map<u64, PartialGuildView>
    decreases evs.len(),
{
    if evs.len() == 0 {
        m
    } else {
        apply_guild_event(apply_guild_events(m, evs.drop_last()), evs.last())
    }
}

/// Whether an event concerns the given guild id.
pub open spec fn event_touches(e: GuildEventView, id: u64) -> bool {
    match e {
        GuildEventView::Create(g) => g.id == id,
        GuildEventView::Delete(d) => d == id,
    }
}

/// The index of the last event in the sequence that concerns the given id,
/// or -1 if none does.
pub open spec fn last_touch_index(evs: Seq<GuildEventView>, id: u64) -> int
    decreases evs.len(),
{
    if evs.len() == 0 {
        -1
    } else if event_touches(evs.last(), id) {
        evs.len() - 1
    } else {
        last_touch_index(evs.drop_last(), id)
    }
}

/// The last touch index lies inside the sequence, and points at an event
/// concerning the id whenever it is not -1.
pub proof fn lemma_last_touch_index_bounds(evs: Seq<GuildEventView>, id: u64)
    ensures
        -1 <= last_touch_index(evs, id) < evs.len(),
        last_touch_index(evs, id) >= 0 ==> event_touches(evs[last_touch_index(evs, id)], id),
    decreases evs.len(),
{
    if evs.len() > 0 && !event_touches(evs.last(), id) {
        lemma_last_touch_index_bounds(evs.drop_last(), id);
        let tp = last_touch_index(evs.drop_last(), id);
        if tp >= 0 {
            assert(evs.drop_last()[tp] == evs[tp]);
        }
    }
}

/// Last writer wins: after any sequence of create/delete events, each id is
/// mapped exactly as its last event dictates: to the snapshot of its last
/// create if no later delete follows, absent after a last delete, and
/// untouched where no event concerned it. Duplicated deliveries change
/// nothing, since each id's state depends on its last event alone.
pub proof fn lemma_last_writer_wins(
    m: Map<u64, PartialGuildView>,
    evs: Seq<GuildEventView>,
    id: u64,
)
    ensures
        ({
            let r = apply_guild_events(m, evs);
            let t = last_touch_index(evs, id);
            if t >= 0 {
                match evs[t] {
                    GuildEventView::Create(g) => r.dom().contains(id) && r[id] == g,
                    GuildEventView::Delete(_) => !r.dom().contains(id),
                }
            } else {
                r.dom().contains(id) == m.dom().contains(id) && (m.dom().contains(id) ==> r[id]
                    == m[id])
            }
        }),
    decreases evs.len(),
{
    if evs.len() > 0 {
        lemma_last_writer_wins(m, evs.drop_last(), id);
        lemma_last_touch_index_bounds(evs, id);
        if !event_touches(evs.last(), id) {
            lemma_last_touch_index_bounds(evs.drop_last(), id);
            let tp = last_touch_index(evs.drop_last(), id);
            if tp >= 0 {
                assert(evs.drop_last()[tp] == evs[tp]);
            }
            match evs.last() {
                GuildEventView::Create(g) => {
                    assert(g.id != id);
                },
                GuildEventView::Delete(d) => {
                    assert(d != id);
                },
            }
        }
    }
}

/// Idempotence under duplicate delivery: applying the same event twice in a
/// row leaves the same state as applying it once.
pub proof fn lemma_duplicate_event_idempotent(m: Map<u64, PartialGuildView>, e: GuildEventView)
    ensures
        apply_guild_event(apply_guild_event(m, e), e) == apply_guild_event(m, e),
{
    assert(apply_guild_event(apply_guild_event(m, e), e) =~= apply_guild_event(m, e));
}

/// A replayed create for an already-current guild changes nothing.
pub proof fn lemma_replayed_create_noop(m: Map<u64, PartialGuildView>, g: PartialGuildView)
    requires
        m.contains_pair(g.id, g),
    ensures
        apply_guild_event(m, GuildEventView::Create(g)) == m,
{
    assert(apply_guild_event(m, GuildEventView::Create(g)) =~= m);
}

/// The in-memory view of guild state, keyed by guild id and mutated only by
/// gateway events. Readers never block event processing for other keys: the
/// underlying map is sharded, not one global lock.
pub struct GuildCache {
    map: dashmap::DashMap<u64, PartialGuild, fxhash::FxBuildHasher>,
}

impl View for GuildCache {
    type V = Map<u64, PartialGuildView>;

    closed spec fn view(&self) -> Map<u64, PartialGuildView> {
        guild_map(self.map)
    }
}

impl GuildCache {
    /// An empty cache. Relies on dashmap::DashMap::with_capacity_and_hasher:
    /// the new map is empty.
    #[verifier::external_body]
    pub fn new() -> (r: GuildCache)
        ensures
            r@ == guild_map_empty(),
    {
        GuildCache {
            map: dashmap::DashMap::with_capacity_and_hasher(1024, fxhash::FxBuildHasher::default()),
        }
    }

    /// Replaces any prior snapshot for this id wholesale; no merging.
    pub fn upsert(&mut self, id: u64, guild: PartialGuild)
        ensures
            final(self)@ == old(self)@.insert(id, guild@),
    {
        let _ = dash_insert(&mut self.map, id, guild);
    }

    /// Removes the snapshot for this id; removing an absent id is not an
    /// error and changes nothing.
    pub fn remove(&mut self, id: u64)
        ensures
            final(self)@ == old(self)@.remove(id),
    {
        let _ = dash_remove(&mut self.map, id);
    }

    /// The snapshot for this id, if present; absence is an answer, not a
    /// failure.
    pub fn get(&self, id: u64) -> (r: Option<PartialGuild>)
        ensures
            r matches Some(g) ==> self@.contains_pair(id, g@),
            r is None ==> !self@.dom().contains(id),
    {
        dash_get(&self.map, id)
    }

    /// Every entry currently present, in no particular order, each id once.
    pub fn entries(&self) -> (r: Vec<(u64, PartialGuild)>)
        ensures
            enumerates_guild_map(r@, self@),
    {
        dash_entries(&self.map)
    }

    /// Applies one gateway event.
    pub fn apply_event(&mut self, e: &GuildEvent)
        ensures
            final(self)@ == apply_guild_event(old(self)@, e@),
    {
        match e {
            GuildEvent::Create(g) => {
                let snapshot = g.clone();
                self.upsert(snapshot.id, snapshot);
            },
            GuildEvent::Delete(id) => {
                self.remove(*id);
            },
        }
    }

    /// Applies a sequence of gateway events in order.
    pub fn apply_events(&mut self, evs: &Vec<GuildEvent>)
        ensures
            final(self)@ == apply_guild_events(old(self)@, event_views(evs@)),
    {
        let n = evs.len();
        let mut i: usize = 0;
        while i < n
            invariant
                0 <= i <= n,
                n == evs@.len(),
                self@ == apply_guild_events(old(self)@, event_views(evs@.subrange(0, i as int))),
            decreases n - i,
        {
            self.apply_event(&evs[i]);
            proof {
                let pre = event_views(evs@.subrange(0, i as int));
                let post = event_views(evs@.subrange(0, i + 1));
                assert(post.drop_last() =~= pre);
                assert(post.last() == evs@[i as int]@);
            }
            i = i + 1;
        }
        proof {
            assert(event_views(evs@.subrange(0, n as int)) =~= event_views(evs@));
        }
    }
}

} // verus!
