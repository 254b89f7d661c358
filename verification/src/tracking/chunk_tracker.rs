use vstd::prelude::*;
use crate::renderer::dirty::{ChunkCoord, same_coord, no_duplicates};
use crate::tracking::chunk_set::{ChunkSet, seq_filter, lemma_seq_filter_contains, lemma_seq_filter_no_duplicates};
use crate::tracking::dirty_chunks::{DirtyChunks, dirty_list};

verus! {

/// Where a chunk is in its lifecycle.
#[derive(Debug, Clone, Copy, PartialEq, Eq, Structural)]
pub enum ChunkState {
    /// Not loaded.
    Unloaded,
    /// Requested from the server.
    Requested,
    /// Data received.
    Loaded,
    /// Needs a mesh update.
    NeedsMesh,
    /// Meshed.
    Meshed,
}

/// A map from chunk positions to states, kept as a list with unique keys.
pub struct ChunkStateMap {
    entries: Vec<(ChunkCoord, ChunkState)>,
}

pub open spec fn keys_unique(s: Seq<(ChunkCoord, ChunkState)>) -> bool {
    forall|i: int, j: int| 0 <= i < j < s.len() ==> s[i].0 != s[j].0
}

impl ChunkStateMap {
    pub closed spec fn wf(&self) -> bool {
        keys_unique(self.entries@)
    }

    /// The states, as a map.
    pub closed spec fn view_map(&self) -> Map<ChunkCoord, ChunkState> {
        Map::new(
            |p: ChunkCoord| exists|i: int| 0 <= i < self.entries@.len() && self.entries@[i].0 == p,
            |p: ChunkCoord| {
                let i = choose|i: int| 0 <= i < self.entries@.len() && self.entries@[i].0 == p;
                self.entries@[i].1
            },
        )
    }

    /// The entries in the order they were first added.
    pub closed spec fn entry_list(&self) -> Seq<(ChunkCoord, ChunkState)> {
        self.entries@
    }

    proof fn lemma_lookup(&self, i: int)
        requires
            self.wf(),
            0 <= i < self.entries@.len(),
        ensures
            self.view_map().contains_key(self.entries@[i].0),
            self.view_map()[self.entries@[i].0] == self.entries@[i].1,
    {
        let p = self.entries@[i].0;
        let c = choose|c: int| 0 <= c < self.entries@.len() && self.entries@[c].0 == p;
        if c != i {
            assert(self.entries@[c].0 == self.entries@[i].0);
        }
    }

    pub proof fn lemma_entry_list(&self)
        requires
            self.wf(),
        ensures
            forall|i: int| 0 <= i < self.entry_list().len() ==> #[trigger] self.view_map().contains_key(self.entry_list()[i].0)
                && self.view_map()[self.entry_list()[i].0] == self.entry_list()[i].1,
            forall|p: ChunkCoord| #[trigger] self.view_map().contains_key(p) ==> exists|i: int| 0 <= i < self.entry_list().len() && self.entry_list()[i].0 == p,
            keys_unique(self.entry_list()),
    {
        assert forall|i: int| 0 <= i < self.entry_list().len() implies #[trigger] self.view_map().contains_key(self.entry_list()[i].0)
            && self.view_map()[self.entry_list()[i].0] == self.entry_list()[i].1 by {
            self.lemma_lookup(i);
        }
        assert forall|p: ChunkCoord| #[trigger] self.view_map().contains_key(p) implies exists|i: int| 0 <= i < self.entry_list().len() && self.entry_list()[i].0 == p by {
            assert(exists|i: int| 0 <= i < self.entries@.len() && self.entries@[i].0 == p);
            let i = choose|i: int| 0 <= i < self.entries@.len() && self.entries@[i].0 == p;
            assert(self.entry_list()[i].0 == p);
        }
    }

    pub fn new() -> (m: Self)
        ensures
            m.wf(),
            m.view_map() == Map::<ChunkCoord, ChunkState>::empty(),
    {
        let m = ChunkStateMap { entries: Vec::new() };
        proof {
            assert(m.view_map() =~= Map::<ChunkCoord, ChunkState>::empty());
        }
        m
    }

    fn find(&self, pos: ChunkCoord) -> (r: Option<usize>)
        requires
            self.wf(),
        ensures
            match r {
                Some(i) => i < self.entries@.len() && self.entries@[i as int].0 == pos,
                None => forall|i: int| 0 <= i < self.entries@.len() ==> self.entries@[i].0 != pos,
            },
            r is Some <==> self.view_map().contains_key(pos),
    {
        let mut i: usize = 0;
        while i < self.entries.len()
            invariant
                self.wf(),
                i <= self.entries@.len(),
                forall|j: int| 0 <= j < i ==> self.entries@[j].0 != pos,
            decreases self.entries@.len() - i,
        {
            if same_coord(self.entries[i].0, pos) {
                proof {
                    self.lemma_lookup(i as int);
                }
                return Some(i);
            }
            i = i + 1;
        }
        None
    }

    /// The state recorded for `pos`, if any.
    pub fn get(&self, pos: ChunkCoord) -> (r: Option<ChunkState>)
        requires
            self.wf(),
        ensures
            r == (if self.view_map().contains_key(pos) { Some(self.view_map()[pos]) } else { None }),
    {
        match self.find(pos) {
            Some(i) => {
                proof {
                    self.lemma_lookup(i as int);
                }
                Some(self.entries[i].1)
            },
            None => None,
        }
    }

    /// Records `state` for `pos`.
    pub fn insert(&mut self, pos: ChunkCoord, state: ChunkState)
        requires
            old(self).wf(),
        ensures
            final(self).wf(),
            final(self).view_map() == old(self).view_map().insert(pos, state),
    {
        let ghost before = *self;
        match self.find(pos) {
            Some(i) => {
                self.entries.set(i, (pos, state));
                proof {
                    assert(keys_unique(self.entries@)) by {
                        assert forall|a: int, b: int| 0 <= a < b < self.entries@.len() implies self.entries@[a].0 != self.entries@[b].0 by {
                            assert(self.entries@[a].0 == before.entries@[a].0);
                            assert(self.entries@[b].0 == before.entries@[b].0);
                        }
                    }
                    assert forall|p: ChunkCoord| #[trigger] self.view_map().contains_key(p) <==> before.view_map().insert(pos, state).contains_key(p) by {
                        if self.view_map().contains_key(p) {
                            let k = choose|k: int| 0 <= k < self.entries@.len() && self.entries@[k].0 == p;
                            assert(before.entries@[k].0 == p);
                        }
                        if before.view_map().contains_key(p) {
                            let k = choose|k: int| 0 <= k < before.entries@.len() && before.entries@[k].0 == p;
                            assert(self.entries@[k].0 == p);
                        }
                    }
                    assert forall|p: ChunkCoord| #[trigger] self.view_map().contains_key(p) implies self.view_map()[p] == before.view_map().insert(pos, state)[p] by {
                        let k = choose|k: int| 0 <= k < self.entries@.len() && self.entries@[k].0 == p;
                        self.lemma_lookup(k);
                        if p != pos {
                            before.lemma_lookup(k);
                        }
                    }
                    assert(self.view_map() =~= before.view_map().insert(pos, state));
                }
            },
            None => {
                self.entries.push((pos, state));
                proof {
                    assert(keys_unique(self.entries@)) by {
                        assert forall|a: int, b: int| 0 <= a < b < self.entries@.len() implies self.entries@[a].0 != self.entries@[b].0 by {
                            if b < before.entries@.len() {
                                assert(self.entries@[a] == before.entries@[a]);
                                assert(self.entries@[b] == before.entries@[b]);
                            } else {
                                assert(self.entries@[a] == before.entries@[a]);
                            }
                        }
                    }
                    assert forall|p: ChunkCoord| #[trigger] self.view_map().contains_key(p) <==> before.view_map().insert(pos, state).contains_key(p) by {
                        if self.view_map().contains_key(p) {
                            let k = choose|k: int| 0 <= k < self.entries@.len() && self.entries@[k].0 == p;
                            if k < before.entries@.len() {
                                assert(before.entries@[k].0 == p);
                            }
                        }
                        if before.view_map().contains_key(p) {
                            let k = choose|k: int| 0 <= k < before.entries@.len() && before.entries@[k].0 == p;
                            assert(self.entries@[k].0 == p);
                        }
                        if p == pos {
                            assert(self.entries@[before.entries@.len() as int].0 == p);
                        }
                    }
                    assert forall|p: ChunkCoord| #[trigger] self.view_map().contains_key(p) implies self.view_map()[p] == before.view_map().insert(pos, state)[p] by {
                        let k = choose|k: int| 0 <= k < self.entries@.len() && self.entries@[k].0 == p;
                        self.lemma_lookup(k);
                        if k < before.entries@.len() {
                            assert(self.entries@[k] == before.entries@[k]);
                            before.lemma_lookup(k);
                        }
                    }
                    assert(self.view_map() =~= before.view_map().insert(pos, state));
                }
            },
        }
    }

    /// Forgets `pos`.
    pub fn remove(&mut self, pos: ChunkCoord)
        requires
            old(self).wf(),
        ensures
            final(self).wf(),
            final(self).view_map() == old(self).view_map().remove(pos),
    {
        let ghost before = *self;
        match self.find(pos) {
            Some(i) => {
                self.entries.remove(i);
                proof {
                    let s = before.entries@;
                    assert(self.entries@ =~= s.subrange(0, i as int) + s.subrange(i as int + 1, s.len() as int));
                    assert forall|a: int| 0 <= a < self.entries@.len() implies #[trigger] self.entries@[a] == s[if a < i { a } else { a + 1 }] by {}
                    assert(keys_unique(self.entries@)) by {
                        assert forall|a: int, b: int| 0 <= a < b < self.entries@.len() implies self.entries@[a].0 != self.entries@[b].0 by {
                            let ia = if a < i { a } else { a + 1 };
                            let ib = if b < i { b } else { b + 1 };
                            assert(self.entries@[a] == s[ia]);
                            assert(self.entries@[b] == s[ib]);
                        }
                    }
                    assert forall|p: ChunkCoord| #[trigger] self.view_map().contains_key(p) <==> before.view_map().remove(pos).contains_key(p) by {
                        if self.view_map().contains_key(p) {
                            let k = choose|k: int| 0 <= k < self.entries@.len() && self.entries@[k].0 == p;
                            let ik = if k < i { k } else { k + 1 };
                            assert(self.entries@[k] == s[ik]);
                            assert(s[ik].0 == p);
                            if p == pos {
                                assert(s[i as int].0 == pos);
                            }
                        }
                        if before.view_map().contains_key(p) && p != pos {
                            let k = choose|k: int| 0 <= k < s.len() && s[k].0 == p;
                            assert(k != i);
                            let j = if k < i { k } else { k - 1 };
                            assert(self.entries@[j] == s[k]);
                        }
                    }
                    assert forall|p: ChunkCoord| #[trigger] self.view_map().contains_key(p) implies self.view_map()[p] == before.view_map().remove(pos)[p] by {
                        let k = choose|k: int| 0 <= k < self.entries@.len() && self.entries@[k].0 == p;
                        self.lemma_lookup(k);
                        let ik = if k < i { k } else { k + 1 };
                        assert(self.entries@[k] == s[ik]);
                        before.lemma_lookup(ik);
                    }
                    assert(self.view_map() =~= before.view_map().remove(pos));
                }
            },
            None => {
                proof {
                    assert(self.view_map() =~= before.view_map().remove(pos));
                }
            },
        }
    }

    /// Number of recorded chunks.
    pub fn len(&self) -> (n: usize)
        requires
            self.wf(),
        ensures
            n == self.entry_list().len(),
    {
        self.entries.len()
    }

    /// The entry at `i`, in insertion order.
    pub fn entry(&self, i: usize) -> (e: (ChunkCoord, ChunkState))
        requires
            i < self.entry_list().len(),
        ensures
            e == self.entry_list()[i as int],
    {
        self.entries[i]
    }
}

/// What `get_chunks_to_mesh(limit)` does, with `r` the chunks it returns.
pub open spec fn mesh_handout_effect(before: ChunkTracker, after: ChunkTracker, limit: usize, r: Seq<ChunkCoord>) -> bool {
    &&& r == chunks_to_mesh(before.ordered_dirty(), before.pending_view(), limit)
    &&& after.pending_view() == before.pending_view().union(r.to_set())
    &&& after.dirty_view() == before.dirty_view().difference(r.to_set())
    &&& after.priority_view() == before.priority_view().difference(r.to_set())
    &&& after.state_map() == before.state_map()
}

/// Tracks the lifecycle of chunks received from the server and which of
/// them need (or are waiting for) a mesh.
pub struct ChunkTracker {
    states: ChunkStateMap,
    dirty: DirtyChunks,
    pending_mesh: ChunkSet,
}

/// The chunks `get_chunks_to_mesh(limit)` hands out: the first `limit`
/// chunks of the dirty list (urgent first), skipping those already pending.
pub open spec fn chunks_to_mesh(ordered: Seq<ChunkCoord>, pending: Set<ChunkCoord>, limit: usize) -> Seq<ChunkCoord> {
    let n = if (limit as int) < ordered.len() { limit as int } else { ordered.len() as int };
    seq_filter(ordered.take(n), |p: ChunkCoord| !pending.contains(p))
}

impl ChunkTracker {
    pub closed spec fn wf(&self) -> bool {
        self.states.wf() && self.dirty.wf() && self.pending_mesh.wf()
    }

    /// Recorded chunk states.
    pub closed spec fn state_map(&self) -> Map<ChunkCoord, ChunkState> {
        self.states.view_map()
    }

    /// Chunks marked dirty.
    pub closed spec fn dirty_view(&self) -> Set<ChunkCoord> {
        self.dirty.dirty_set()
    }

    /// Chunks marked as urgent.
    pub closed spec fn priority_view(&self) -> Set<ChunkCoord> {
        self.dirty.priority_set()
    }

    /// Chunks handed out for meshing and not yet meshed.
    pub closed spec fn pending_view(&self) -> Set<ChunkCoord> {
        self.pending_mesh.view_set()
    }

    /// The dirty chunks in the order they will be handed out.
    pub closed spec fn ordered_dirty(&self) -> Seq<ChunkCoord> {
        self.dirty.ordered()
    }

    /// The state that `get_state` reports.
    pub open spec fn state_of(&self, pos: ChunkCoord) -> ChunkState {
        if self.state_map().contains_key(pos) {
            self.state_map()[pos]
        } else {
            ChunkState::Unloaded
        }
    }

    pub fn new() -> (t: Self)
        ensures
            t.wf(),
            t.state_map() == Map::<ChunkCoord, ChunkState>::empty(),
            t.dirty_view() == Set::<ChunkCoord>::empty(),
            t.priority_view() == Set::<ChunkCoord>::empty(),
            t.pending_view() == Set::<ChunkCoord>::empty(),
    {
        ChunkTracker { states: ChunkStateMap::new(), dirty: DirtyChunks::new(), pending_mesh: ChunkSet::new() }
    }

    /// A chunk arrived from the server: it is loaded and needs a mesh.
    pub fn on_chunk_loaded(&mut self, pos: ChunkCoord)
        requires
            old(self).wf(),
        ensures
            final(self).wf(),
            final(self).state_map() == old(self).state_map().insert(pos, ChunkState::Loaded),
            final(self).dirty_view() == old(self).dirty_view().insert(pos),
            final(self).priority_view() == old(self).priority_view(),
            final(self).pending_view() == old(self).pending_view(),
    {
        self.states.insert(pos, ChunkState::Loaded);
        self.dirty.mark_dirty(pos);
    }

    /// A chunk was unloaded: its state is forgotten and it is no longer dirty.
    pub fn on_chunk_unloaded(&mut self, pos: ChunkCoord)
        requires
            old(self).wf(),
        ensures
            final(self).wf(),
            final(self).state_map() == old(self).state_map().remove(pos),
            final(self).dirty_view() == old(self).dirty_view().remove(pos),
            final(self).priority_view() == old(self).priority_view().remove(pos),
            final(self).pending_view() == old(self).pending_view(),
    {
        self.states.remove(pos);
        self.dirty.mark_clean(pos);
    }

    /// A block of the chunk was changed locally: it needs an urgent remesh.
    pub fn on_block_modified(&mut self, pos: ChunkCoord)
        requires
            old(self).wf(),
        ensures
            final(self).wf(),
            final(self).state_map() == old(self).state_map().insert(pos, ChunkState::NeedsMesh),
            final(self).dirty_view() == old(self).dirty_view(),
            final(self).priority_view() == old(self).priority_view().insert(pos),
            final(self).pending_view() == old(self).pending_view().remove(pos),
    {
        self.states.insert(pos, ChunkState::NeedsMesh);
        self.pending_mesh.remove(pos);
        self.dirty.mark_priority(pos);
    }

    /// The server changed or corrected the chunk: it needs an urgent remesh.
    pub fn on_server_update(&mut self, pos: ChunkCoord)
        requires
            old(self).wf(),
        ensures
            final(self).wf(),
            final(self).state_map() == old(self).state_map().insert(pos, ChunkState::NeedsMesh),
            final(self).dirty_view() == old(self).dirty_view(),
            final(self).priority_view() == old(self).priority_view().insert(pos),
            final(self).pending_view() == old(self).pending_view().remove(pos),
    {
        self.states.insert(pos, ChunkState::NeedsMesh);
        self.pending_mesh.remove(pos);
        self.dirty.mark_priority(pos);
    }

    /// The chunk got its mesh: it is meshed, clean and no longer pending.
    pub fn on_chunk_meshed(&mut self, pos: ChunkCoord)
        requires
            old(self).wf(),
        ensures
            final(self).wf(),
            final(self).state_map() == old(self).state_map().insert(pos, ChunkState::Meshed),
            final(self).dirty_view() == old(self).dirty_view().remove(pos),
            final(self).priority_view() == old(self).priority_view().remove(pos),
            final(self).pending_view() == old(self).pending_view().remove(pos),
    {
        self.states.insert(pos, ChunkState::Meshed);
        self.dirty.mark_clean(pos);
        self.pending_mesh.remove(pos);
    }

    /// Hands out up to `limit` chunks to mesh, taken from the front of the
    /// dirty list (urgent first) and skipping those already pending. They
    /// become pending and leave the dirty sets.
    pub fn get_chunks_to_mesh(&mut self, limit: usize) -> (r: Vec<ChunkCoord>)
        requires
            old(self).wf(),
        ensures
            final(self).wf(),
            mesh_handout_effect(*old(self), *final(self), limit, r@),
            r@.len() <= limit,
            no_duplicates(r@),
    {
        let dirty_chunks = self.dirty.get_dirty_chunks();
        let ghost list = dirty_chunks@;
        let ghost pend0 = self.pending_mesh.view_set();
        let ghost keep = |p: ChunkCoord| !pend0.contains(p);
        let n = if limit < dirty_chunks.len() { limit } else { dirty_chunks.len() };
        let mut chosen: Vec<ChunkCoord> = Vec::new();
        let mut i: usize = 0;
        while i < n
            invariant
                self.wf(),
                dirty_chunks@ == list,
                no_duplicates(list),
                n <= list.len(),
                i <= n,
                keep == (|p: ChunkCoord| !pend0.contains(p)),
                chosen@ == seq_filter(list.take(i as int), keep),
                self.pending_mesh.view_set() == pend0.union(chosen@.to_set()),
                self.dirty == old(self).dirty,
                self.states == old(self).states,
            decreases n - i,
        {
            let c = dirty_chunks[i];
            proof {
                assert(list.take(i as int + 1).drop_last() =~= list.take(i as int));
                assert(list.take(i as int + 1).last() == c);
                lemma_seq_filter_contains(list.take(i as int), keep, c);
                if list.take(i as int).contains(c) {
                    let k = choose|k: int| 0 <= k < i && list.take(i as int)[k] == c;
                    assert(list[k] == list[i as int]);
                }
                assert(!chosen@.contains(c));
                assert(!chosen@.to_set().contains(c));
            }
            if !self.pending_mesh.contains(c) {
                chosen.push(c);
                self.pending_mesh.insert(c);
                proof {
                    crate::tracking::dirty_chunks::lemma_push_to_set(seq_filter(list.take(i as int), keep), c);
                    assert(self.pending_mesh.view_set() =~= pend0.union(chosen@.to_set()));
                }
            }
            i = i + 1;
        }
        proof {
            lemma_seq_filter_no_duplicates(list.take(n as int), keep);
            assert(no_duplicates(list.take(n as int))) by {
                assert forall|a: int, b: int| 0 <= a < b < list.take(n as int).len() implies list.take(n as int)[a] != list.take(n as int)[b] by {
                    assert(list.take(n as int)[a] == list[a]);
                    assert(list.take(n as int)[b] == list[b]);
                }
            }
            lemma_seq_filter_no_duplicates(list.take(n as int), keep);
        }
        let ghost pend1 = self.pending_mesh.view_set();
        let ghost d0 = self.dirty.dirty_set();
        let ghost p0 = self.dirty.priority_set();
        let mut j: usize = 0;
        while j < chosen.len()
            invariant
                self.wf(),
                j <= chosen@.len(),
                self.dirty.dirty_set() == d0.difference(chosen@.take(j as int).to_set()),
                self.dirty.priority_set() == p0.difference(chosen@.take(j as int).to_set()),
                self.pending_mesh.view_set() == pend1,
                self.states == old(self).states,
            decreases chosen@.len() - j,
        {
            self.dirty.remove(chosen[j]);
            proof {
                assert(chosen@.take(j as int + 1) =~= chosen@.take(j as int).push(chosen@[j as int]));
                crate::tracking::dirty_chunks::lemma_push_to_set(chosen@.take(j as int), chosen@[j as int]);
                assert(d0.difference(chosen@.take(j as int + 1).to_set()) =~= d0.difference(chosen@.take(j as int).to_set()).remove(chosen@[j as int]));
                assert(p0.difference(chosen@.take(j as int + 1).to_set()) =~= p0.difference(chosen@.take(j as int).to_set()).remove(chosen@[j as int]));
            }
            j = j + 1;
        }
        proof {
            assert(chosen@.take(chosen@.len() as int) =~= chosen@);
        }
        chosen
    }

    /// The dirty-chunk sets.
    pub fn dirty_chunks(&self) -> (d: &DirtyChunks)
        ensures
            d.dirty_set() == self.dirty_view(),
            d.priority_set() == self.priority_view(),
            d.ordered() == self.ordered_dirty(),
            self.wf() ==> d.wf(),
    {
        &self.dirty
    }

    /// The recorded state of a chunk (`Unloaded` when none is recorded).
    pub fn get_state(&self, pos: ChunkCoord) -> (s: ChunkState)
        requires
            self.wf(),
        ensures
            s == self.state_of(pos),
    {
        match self.states.get(pos) {
            Some(s) => s,
            None => ChunkState::Unloaded,
        }
    }

    /// Whether the chunk's data is present (loaded, waiting for a mesh, or meshed).
    pub fn is_loaded(&self, pos: ChunkCoord) -> (b: bool)
        requires
            self.wf(),
        ensures
            b == (self.state_of(pos) == ChunkState::Loaded || self.state_of(pos) == ChunkState::NeedsMesh
                || self.state_of(pos) == ChunkState::Meshed),
    {
        match self.get_state(pos) {
            ChunkState::Loaded | ChunkState::NeedsMesh | ChunkState::Meshed => true,
            _ => false,
        }
    }

    /// Marks as meshed every chunk waiting for a mesh (`NeedsMesh`) for which
    /// `has_mesh` answers true; returns how many were marked.
    pub fn check_and_mark_meshed<F: Fn(ChunkCoord) -> bool>(&mut self, has_mesh: F) -> (count: usize)
        requires
            old(self).wf(),
            forall|p: ChunkCoord| call_requires(has_mesh, (p,)),
        ensures
            final(self).wf(),
            exists|m: Set<ChunkCoord>| {
                &&& m.finite()
                &&& count == m.len()
                &&& forall|p: ChunkCoord| #[trigger] m.contains(p) ==> old(self).state_of(p) == ChunkState::NeedsMesh
                    && call_ensures(has_mesh, (p,), true)
                &&& forall|p: ChunkCoord| old(self).state_of(p) == ChunkState::NeedsMesh && !m.contains(p)
                    ==> #[trigger] call_ensures(has_mesh, (p,), false)
                &&& final(self).state_map() == marked_meshed(old(self).state_map(), m)
                &&& final(self).dirty_view() == old(self).dirty_view().difference(m)
                &&& final(self).priority_view() == old(self).priority_view().difference(m)
                &&& final(self).pending_view() == old(self).pending_view().difference(m)
            },
    {
        let n = self.states.len();
        let ghost entries = self.states.entry_list();
        proof {
            self.states.lemma_entry_list();
        }
        let mut to_mark: Vec<ChunkCoord> = Vec::new();
        let mut i: usize = 0;
        while i < n
            invariant
                self.wf(),
                *self == *old(self),
                entries == self.states.entry_list(),
                n == entries.len(),
                keys_unique(entries),
                i <= n,
                forall|p: ChunkCoord| call_requires(has_mesh, (p,)),
                no_duplicates(to_mark@),
                forall|k: int| 0 <= k < to_mark@.len() ==> needs_mesh_before(entries, i as int, #[trigger] to_mark@[k]),
                forall|k: int| 0 <= k < to_mark@.len() ==> call_ensures(has_mesh, (#[trigger] to_mark@[k],), true),
                forall|e: int| 0 <= e < i && entries[e].1 == ChunkState::NeedsMesh && !to_mark@.contains(#[trigger] entries[e].0)
                    ==> call_ensures(has_mesh, (entries[e].0,), false),
            decreases n - i,
        {
            let (pos, st) = self.states.entry(i);
            let ghost before = to_mark@;
            if st == ChunkState::NeedsMesh {
                if has_mesh(pos) {
                    proof {
                        assert forall|k: int| 0 <= k < before.len() implies before[k] != pos by {
                            assert(needs_mesh_before(entries, i as int, before[k]));
                            let e = choose|e: int| 0 <= e < i && entries[e].0 == before[k] && entries[e].1 == ChunkState::NeedsMesh;
                            assert(entries[e].0 != entries[i as int].0);
                        }
                    }
                    to_mark.push(pos);
                    proof {
                        assert forall|k: int| 0 <= k < to_mark@.len() implies needs_mesh_before(entries, i as int + 1, #[trigger] to_mark@[k]) by {
                            if k == before.len() {
                                assert(entries[i as int].0 == to_mark@[k]);
                            } else {
                                assert(to_mark@[k] == before[k]);
                                assert(needs_mesh_before(entries, i as int, before[k]));
                                let e = choose|e: int| 0 <= e < i && entries[e].0 == before[k] && entries[e].1 == ChunkState::NeedsMesh;
                            }
                        }
                        assert forall|e: int| 0 <= e < i + 1 && entries[e].1 == ChunkState::NeedsMesh && !to_mark@.contains(#[trigger] entries[e].0)
                            implies call_ensures(has_mesh, (entries[e].0,), false) by {
                            if e == i {
                                assert(to_mark@[before.len() as int] == pos);
                            } else if before.contains(entries[e].0) {
                                let k = choose|k: int| 0 <= k < before.len() && before[k] == entries[e].0;
                                assert(to_mark@[k] == entries[e].0);
                            }
                        }
                    }
                } else {
                    proof {
                        assert forall|e: int| 0 <= e < i + 1 && entries[e].1 == ChunkState::NeedsMesh && !to_mark@.contains(#[trigger] entries[e].0)
                            implies call_ensures(has_mesh, (entries[e].0,), false) by {
                        }
                        lemma_widen(entries, to_mark@, i as int);
                    }
                }
            } else {
                proof {
                    lemma_widen(entries, to_mark@, i as int);
                }
            }
            i = i + 1;
        }
        let ghost m = to_mark@.to_set();
        proof {
            to_mark@.unique_seq_to_set();
            let old_map = old(self).state_map();
            assert forall|p: ChunkCoord| #[trigger] m.contains(p) implies old(self).state_of(p) == ChunkState::NeedsMesh
                && call_ensures(has_mesh, (p,), true) by {
                let k = choose|k: int| 0 <= k < to_mark@.len() && to_mark@[k] == p;
                assert(needs_mesh_before(entries, n as int, to_mark@[k]));
                let e = choose|e: int| 0 <= e < n && entries[e].0 == to_mark@[k] && entries[e].1 == ChunkState::NeedsMesh;
            }
            assert forall|p: ChunkCoord| old(self).state_of(p) == ChunkState::NeedsMesh && !m.contains(p)
                implies #[trigger] call_ensures(has_mesh, (p,), false) by {
                let e = choose|e: int| 0 <= e < entries.len() && entries[e].0 == p;
                assert(old_map[p] == entries[e].1);
            }
        }
        let count = to_mark.len();
        let ghost t0 = *self;
        let mut j: usize = 0;
        while j < to_mark.len()
            invariant
                self.wf(),
                j <= to_mark@.len(),
                self.state_map() == marked_meshed(t0.state_map(), to_mark@.take(j as int).to_set()),
                self.dirty_view() == t0.dirty_view().difference(to_mark@.take(j as int).to_set()),
                self.priority_view() == t0.priority_view().difference(to_mark@.take(j as int).to_set()),
                self.pending_view() == t0.pending_view().difference(to_mark@.take(j as int).to_set()),
                forall|p: ChunkCoord| to_mark@.contains(p) ==> #[trigger] t0.state_map().contains_key(p),
            decreases to_mark@.len() - j,
        {
            let pos = to_mark[j];
            self.on_chunk_meshed(pos);
            proof {
                let a = to_mark@.take(j as int);
                let b = to_mark@.take(j as int + 1);
                assert(b =~= a.push(pos));
                crate::tracking::dirty_chunks::lemma_push_to_set(a, pos);
                assert(self.dirty_view() =~= t0.dirty_view().difference(b.to_set()));
                assert(self.priority_view() =~= t0.priority_view().difference(b.to_set()));
                assert(self.pending_view() =~= t0.pending_view().difference(b.to_set()));
                assert(to_mark@.contains(pos)) by {
                    assert(to_mark@[j as int] == pos);
                }
                assert(self.state_map() =~= marked_meshed(t0.state_map(), b.to_set()));
            }
            j = j + 1;
        }
        proof {
            assert(to_mark@.take(to_mark@.len() as int) =~= to_mark@);
            assert forall|p: ChunkCoord| to_mark@.contains(p) implies #[trigger] t0.state_map().contains_key(p) by {
                let k = choose|k: int| 0 <= k < to_mark@.len() && to_mark@[k] == p;
                assert(needs_mesh_before(entries, n as int, to_mark@[k]));
                let e = choose|e: int| 0 <= e < n && entries[e].0 == to_mark@[k] && entries[e].1 == ChunkState::NeedsMesh;
            }
        }
        count
    }
}

/// `p` is the key of a `NeedsMesh` entry among the first `upto` entries.
pub open spec fn needs_mesh_before(entries: Seq<(ChunkCoord, ChunkState)>, upto: int, p: ChunkCoord) -> bool {
    exists|e: int| 0 <= e < upto && entries[e].0 == p && entries[e].1 == ChunkState::NeedsMesh
}

proof fn lemma_widen(entries: Seq<(ChunkCoord, ChunkState)>, marked: Seq<ChunkCoord>, i: int)
    requires
        forall|k: int| 0 <= k < marked.len() ==> needs_mesh_before(entries, i, #[trigger] marked[k]),
    ensures
        forall|k: int| 0 <= k < marked.len() ==> needs_mesh_before(entries, i + 1, #[trigger] marked[k]),
{
    assert forall|k: int| 0 <= k < marked.len() implies needs_mesh_before(entries, i + 1, #[trigger] marked[k]) by {
        assert(needs_mesh_before(entries, i, marked[k]));
        let e = choose|e: int| 0 <= e < i && entries[e].0 == marked[k] && entries[e].1 == ChunkState::NeedsMesh;
    }
}

/// `states` with every chunk of `m` (already recorded) set to `Meshed`.
pub open spec fn marked_meshed(states: Map<ChunkCoord, ChunkState>, m: Set<ChunkCoord>) -> Map<ChunkCoord, ChunkState> {
    Map::new(
        |p: ChunkCoord| states.contains_key(p) || m.contains(p),
        |p: ChunkCoord| if m.contains(p) { ChunkState::Meshed } else { states[p] },
    )
}

/// Nothing is lost: every chunk that was dirty or urgent before a handout is
/// afterwards still dirty, still urgent, or pending (handed out).
pub proof fn law_handout_loses_nothing(before: ChunkTracker, after: ChunkTracker, limit: usize, r: Seq<ChunkCoord>, p: ChunkCoord)
    requires
        mesh_handout_effect(before, after, limit, r),
        before.dirty_view().contains(p) || before.priority_view().contains(p),
    ensures
        after.dirty_view().contains(p) || after.priority_view().contains(p) || after.pending_view().contains(p),
{
}

/// A chunk is never handed out twice: what a handout returns was not
/// pending before and is pending after.
pub proof fn law_handout_not_twice(before: ChunkTracker, after: ChunkTracker, limit: usize, r: Seq<ChunkCoord>, p: ChunkCoord)
    requires
        mesh_handout_effect(before, after, limit, r),
        r.contains(p),
    ensures
        !before.pending_view().contains(p),
        after.pending_view().contains(p),
        !after.dirty_view().contains(p),
        !after.priority_view().contains(p),
{
    let keep = |q: ChunkCoord| !before.pending_view().contains(q);
    let o = before.ordered_dirty();
    let n = if (limit as int) < o.len() { limit as int } else { o.len() as int };
    lemma_seq_filter_contains(o.take(n), keep, p);
    assert(r.to_set().contains(p));
}

/// Urgent chunks go first: when no urgent chunk is pending and there are at
/// most `limit` of them, a handout returns every urgent chunk.
pub proof fn law_handout_serves_urgent_first(before: ChunkTracker, after: ChunkTracker, limit: usize, r: Seq<ChunkCoord>, p: ChunkCoord)
    requires
        before.wf(),
        mesh_handout_effect(before, after, limit, r),
        before.priority_view().contains(p),
        before.priority_view().len() <= limit,
        forall|q: ChunkCoord| before.priority_view().contains(q) ==> !#[trigger] before.pending_view().contains(q),
    ensures
        r.contains(p),
{
    before.dirty.lemma_ordered_prefix();
    let pe = before.dirty.priority_entries();
    let o = before.ordered_dirty();
    let n = if (limit as int) < o.len() { limit as int } else { o.len() as int };
    let keep = |q: ChunkCoord| !before.pending_view().contains(q);
    assert(pe.contains(p));
    let k = choose|k: int| 0 <= k < pe.len() && pe[k] == p;
    assert(o[k] == p);
    assert(o.take(n)[k] == p);
    assert(o.take(n).contains(p));
    lemma_seq_filter_contains(o.take(n), keep, p);
}

impl Default for ChunkTracker {
    fn default() -> (t: Self)
        ensures
            t.wf(),
            t.state_map() == Map::<ChunkCoord, ChunkState>::empty(),
            t.dirty_view() == Set::<ChunkCoord>::empty(),
            t.priority_view() == Set::<ChunkCoord>::empty(),
            t.pending_view() == Set::<ChunkCoord>::empty(),
    {
        Self::new()
    }
}

} // verus!
