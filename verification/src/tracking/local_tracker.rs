use vstd::prelude::*;
use crate::renderer::dirty::{ChunkCoord, no_duplicates};
use crate::tracking::chunk_set::ChunkSet;

verus! {

/// Tracks the local generation and meshing pipeline of chunks, so that no
/// chunk is requested twice.
pub struct LocalChunkTracker {
    pending_generation: ChunkSet,
    generating: ChunkSet,
    generated: ChunkSet,
    pending_mesh: ChunkSet,
    meshing: ChunkSet,
    meshed: ChunkSet,
}

/// Whether `mark_pending_generation` accepts a request for `pos`: the chunk
/// is neither generated nor already waiting for or undergoing generation.
pub open spec fn accepts_generation_request(t: LocalChunkTracker, pos: ChunkCoord) -> bool {
    !t.generated_view().contains(pos) && !t.pending_generation_view().contains(pos)
        && !t.generating_view().contains(pos)
}

impl LocalChunkTracker {
    pub closed spec fn wf(&self) -> bool {
        &&& self.pending_generation.wf()
        &&& self.generating.wf()
        &&& self.generated.wf()
        &&& self.pending_mesh.wf()
        &&& self.meshing.wf()
        &&& self.meshed.wf()
    }

    pub closed spec fn pending_generation_view(&self) -> Set<ChunkCoord> {
        self.pending_generation.view_set()
    }

    pub closed spec fn generating_view(&self) -> Set<ChunkCoord> {
        self.generating.view_set()
    }

    pub closed spec fn generated_view(&self) -> Set<ChunkCoord> {
        self.generated.view_set()
    }

    pub closed spec fn pending_mesh_view(&self) -> Set<ChunkCoord> {
        self.pending_mesh.view_set()
    }

    pub closed spec fn meshing_view(&self) -> Set<ChunkCoord> {
        self.meshing.view_set()
    }

    pub closed spec fn meshed_view(&self) -> Set<ChunkCoord> {
        self.meshed.view_set()
    }

    /// The chunks waiting for a mesh, in the order they were added.
    pub closed spec fn pending_mesh_order(&self) -> Seq<ChunkCoord> {
        self.pending_mesh.entries()
    }

    /// Only the generation sets differ between `a` and `b`... (helper)
    pub open spec fn same_mesh_sets(a: LocalChunkTracker, b: LocalChunkTracker) -> bool {
        &&& a.pending_mesh_view() == b.pending_mesh_view()
        &&& a.meshing_view() == b.meshing_view()
        &&& a.meshed_view() == b.meshed_view()
    }

    pub open spec fn same_generation_sets(a: LocalChunkTracker, b: LocalChunkTracker) -> bool {
        &&& a.pending_generation_view() == b.pending_generation_view()
        &&& a.generating_view() == b.generating_view()
        &&& a.generated_view() == b.generated_view()
    }

    pub fn new() -> (t: Self)
        ensures
            t.wf(),
            t.pending_generation_view() == Set::<ChunkCoord>::empty(),
            t.generating_view() == Set::<ChunkCoord>::empty(),
            t.generated_view() == Set::<ChunkCoord>::empty(),
            t.pending_mesh_view() == Set::<ChunkCoord>::empty(),
            t.meshing_view() == Set::<ChunkCoord>::empty(),
            t.meshed_view() == Set::<ChunkCoord>::empty(),
    {
        LocalChunkTracker {
            pending_generation: ChunkSet::new(),
            generating: ChunkSet::new(),
            generated: ChunkSet::new(),
            pending_mesh: ChunkSet::new(),
            meshing: ChunkSet::new(),
            meshed: ChunkSet::new(),
        }
    }

    /// Records a generation request; refused (false) when the chunk is
    /// already generated, waiting, or being generated.
    pub fn mark_pending_generation(&mut self, pos: ChunkCoord) -> (accepted: bool)
        requires
            old(self).wf(),
        ensures
            final(self).wf(),
            accepted == accepts_generation_request(*old(self), pos),
            accepted ==> final(self).pending_generation_view() == old(self).pending_generation_view().insert(pos),
            !accepted ==> final(self).pending_generation_view() == old(self).pending_generation_view(),
            final(self).generating_view() == old(self).generating_view(),
            final(self).generated_view() == old(self).generated_view(),
            Self::same_mesh_sets(*old(self), *final(self)),
    {
        if self.generated.contains(pos) {
            return false;
        }
        if self.pending_generation.contains(pos) || self.generating.contains(pos) {
            return false;
        }
        self.pending_generation.insert(pos);
        true
    }

    /// Generation of the chunk started.
    pub fn mark_generating(&mut self, pos: ChunkCoord)
        requires
            old(self).wf(),
        ensures
            final(self).wf(),
            final(self).pending_generation_view() == old(self).pending_generation_view().remove(pos),
            final(self).generating_view() == old(self).generating_view().insert(pos),
            final(self).generated_view() == old(self).generated_view(),
            Self::same_mesh_sets(*old(self), *final(self)),
    {
        self.pending_generation.remove(pos);
        self.generating.insert(pos);
    }

    /// The chunk was generated and inserted in the world.
    pub fn mark_generated(&mut self, pos: ChunkCoord)
        requires
            old(self).wf(),
        ensures
            final(self).wf(),
            final(self).pending_generation_view() == old(self).pending_generation_view().remove(pos),
            final(self).generating_view() == old(self).generating_view().remove(pos),
            final(self).generated_view() == old(self).generated_view().insert(pos),
            Self::same_mesh_sets(*old(self), *final(self)),
    {
        self.pending_generation.remove(pos);
        self.generating.remove(pos);
        self.generated.insert(pos);
    }

    /// The chunk waits for a mesh (after a modification).
    pub fn mark_pending_mesh_modified(&mut self, pos: ChunkCoord)
        requires
            old(self).wf(),
        ensures
            final(self).wf(),
            final(self).pending_mesh_view() == old(self).pending_mesh_view().insert(pos),
            final(self).meshing_view() == old(self).meshing_view(),
            final(self).meshed_view() == old(self).meshed_view(),
            Self::same_generation_sets(*old(self), *final(self)),
    {
        self.pending_mesh.insert(pos);
    }

    /// Meshing of the chunk started.
    pub fn mark_meshing(&mut self, pos: ChunkCoord)
        requires
            old(self).wf(),
        ensures
            final(self).wf(),
            final(self).pending_mesh_view() == old(self).pending_mesh_view().remove(pos),
            final(self).meshing_view() == old(self).meshing_view().insert(pos),
            final(self).meshed_view() == old(self).meshed_view(),
            Self::same_generation_sets(*old(self), *final(self)),
    {
        self.pending_mesh.remove(pos);
        self.meshing.insert(pos);
    }

    /// The chunk has a mesh.
    pub fn mark_meshed(&mut self, pos: ChunkCoord)
        requires
            old(self).wf(),
        ensures
            final(self).wf(),
            final(self).pending_mesh_view() == old(self).pending_mesh_view().remove(pos),
            final(self).meshing_view() == old(self).meshing_view().remove(pos),
            final(self).meshed_view() == old(self).meshed_view().insert(pos),
            Self::same_generation_sets(*old(self), *final(self)),
    {
        self.meshing.remove(pos);
        self.pending_mesh.remove(pos);
        self.meshed.insert(pos);
    }

    /// The chunk no longer counts as meshed.
    pub fn unmark_meshed(&mut self, pos: ChunkCoord)
        requires
            old(self).wf(),
        ensures
            final(self).wf(),
            final(self).pending_mesh_view() == old(self).pending_mesh_view(),
            final(self).meshing_view() == old(self).meshing_view(),
            final(self).meshed_view() == old(self).meshed_view().remove(pos),
            Self::same_generation_sets(*old(self), *final(self)),
    {
        self.meshed.remove(pos);
    }

    /// Drops every meshing state of the chunk (to force a remesh).
    pub fn clear_mesh_state(&mut self, pos: ChunkCoord)
        requires
            old(self).wf(),
        ensures
            final(self).wf(),
            final(self).pending_mesh_view() == old(self).pending_mesh_view().remove(pos),
            final(self).meshing_view() == old(self).meshing_view().remove(pos),
            final(self).meshed_view() == old(self).meshed_view().remove(pos),
            Self::same_generation_sets(*old(self), *final(self)),
    {
        self.pending_mesh.remove(pos);
        self.meshing.remove(pos);
        self.meshed.remove(pos);
    }

    /// Whether the chunk is generated.
    pub fn is_generated(&self, pos: &ChunkCoord) -> (b: bool)
        ensures
            b == self.generated_view().contains(*pos),
    {
        self.generated.contains(*pos)
    }

    /// Whether the chunk is waiting for or undergoing generation.
    pub fn is_generating(&self, pos: &ChunkCoord) -> (b: bool)
        ensures
            b == (self.pending_generation_view().contains(*pos) || self.generating_view().contains(*pos)),
    {
        self.pending_generation.contains(*pos) || self.generating.contains(*pos)
    }

    /// Whether the chunk is waiting for or undergoing meshing.
    pub fn is_meshing(&self, pos: &ChunkCoord) -> (b: bool)
        ensures
            b == (self.pending_mesh_view().contains(*pos) || self.meshing_view().contains(*pos)),
    {
        self.pending_mesh.contains(*pos) || self.meshing.contains(*pos)
    }

    /// Same as `is_meshing`.
    pub fn is_meshing_or_pending(&self, pos: &ChunkCoord) -> (b: bool)
        ensures
            b == (self.pending_mesh_view().contains(*pos) || self.meshing_view().contains(*pos)),
    {
        self.is_meshing(pos)
    }

    /// Number of chunks waiting for generation.
    pub fn pending_generation_count(&self) -> (n: usize)
        requires
            self.wf(),
        ensures
            n == self.pending_generation_view().len(),
    {
        self.pending_generation.len()
    }

    /// Number of chunks waiting for a mesh.
    pub fn pending_mesh_count(&self) -> (n: usize)
        requires
            self.wf(),
        ensures
            n == self.pending_mesh_view().len(),
    {
        self.pending_mesh.len()
    }

    /// (waiting for generation, being generated, waiting for a mesh) counts.
    pub fn get_stats(&self) -> (r: (usize, usize, usize))
        requires
            self.wf(),
        ensures
            r.0 == self.pending_generation_view().len(),
            r.1 == self.generating_view().len(),
            r.2 == self.pending_mesh_view().len(),
    {
        (self.pending_generation.len(), self.generating.len(), self.pending_mesh.len())
    }

    /// Forgets the chunk in every state.
    pub fn remove_chunk(&mut self, pos: &ChunkCoord)
        requires
            old(self).wf(),
        ensures
            final(self).wf(),
            final(self).pending_generation_view() == old(self).pending_generation_view().remove(*pos),
            final(self).generating_view() == old(self).generating_view().remove(*pos),
            final(self).generated_view() == old(self).generated_view().remove(*pos),
            final(self).pending_mesh_view() == old(self).pending_mesh_view().remove(*pos),
            final(self).meshing_view() == old(self).meshing_view().remove(*pos),
            final(self).meshed_view() == old(self).meshed_view().remove(*pos),
    {
        self.pending_generation.remove(*pos);
        self.generating.remove(*pos);
        self.generated.remove(*pos);
        self.pending_mesh.remove(*pos);
        self.meshing.remove(*pos);
        self.meshed.remove(*pos);
    }

    /// Drops the meshing states of a chunk about to be regenerated.
    pub fn clear_for_regeneration(&mut self, pos: &ChunkCoord)
        requires
            old(self).wf(),
        ensures
            final(self).wf(),
            final(self).pending_mesh_view() == old(self).pending_mesh_view().remove(*pos),
            final(self).meshing_view() == old(self).meshing_view().remove(*pos),
            final(self).meshed_view() == old(self).meshed_view().remove(*pos),
            Self::same_generation_sets(*old(self), *final(self)),
    {
        self.meshed.remove(*pos);
        self.pending_mesh.remove(*pos);
        self.meshing.remove(*pos);
    }

    /// Drops from the generation queue every chunk already generated.
    pub fn cleanup_pending_generated(&mut self, generated_chunks: &ChunkSet)
        requires
            old(self).wf(),
        ensures
            final(self).wf(),
            final(self).pending_generation_view() == old(self).pending_generation_view().difference(generated_chunks.view_set()),
            final(self).generating_view() == old(self).generating_view(),
            final(self).generated_view() == old(self).generated_view(),
            Self::same_mesh_sets(*old(self), *final(self)),
    {
        let ghost g = generated_chunks.view_set();
        let ghost before = old(self).pending_generation.view_set();
        let removed = self.pending_generation.retain_where(|p: ChunkCoord| -> (b: bool)
            ensures
                b == !generated_chunks.view_set().contains(p),
            { !generated_chunks.contains(p) });
        proof {
            assert forall|p: ChunkCoord| self.pending_generation.view_set().contains(p) <==> before.difference(g).contains(p) by {
                if before.contains(p) {
                    if removed@.contains(p) {
                        assert(!self.pending_generation.view_set().contains(p));
                    }
                }
            }
            assert(self.pending_generation.view_set() =~= before.difference(g));
        }
    }

    /// Keeps in the generation queue only the chunks for which `exists_fn`
    /// answers true.
    pub fn cleanup_pending_generation_verify<F: Fn(ChunkCoord) -> bool>(&mut self, exists_fn: F)
        requires
            old(self).wf(),
            forall|p: ChunkCoord| call_requires(exists_fn, (p,)),
        ensures
            final(self).wf(),
            forall|p: ChunkCoord| #[trigger] final(self).pending_generation_view().contains(p)
                ==> old(self).pending_generation_view().contains(p) && call_ensures(exists_fn, (p,), true),
            forall|p: ChunkCoord| old(self).pending_generation_view().contains(p)
                && !#[trigger] final(self).pending_generation_view().contains(p) ==> call_ensures(exists_fn, (p,), false),
            final(self).generating_view() == old(self).generating_view(),
            final(self).generated_view() == old(self).generated_view(),
            Self::same_mesh_sets(*old(self), *final(self)),
    {
        let removed = self.pending_generation.retain_where(exists_fn);
        proof {
            assert forall|p: ChunkCoord| old(self).pending_generation_view().contains(p)
                && !#[trigger] self.pending_generation_view().contains(p) implies call_ensures(exists_fn, (p,), false) by {
                assert(self.pending_generation.view_set().contains(p) || removed@.contains(p));
            }
        }
    }

    /// Moves up to `max_count` chunks from the mesh queue (front first) to
    /// meshing, and returns them.
    pub fn take_pending_mesh(&mut self, max_count: usize) -> (r: Vec<ChunkCoord>)
        requires
            old(self).wf(),
        ensures
            final(self).wf(),
            r@ == old(self).pending_mesh_order().take(
                if (max_count as int) < old(self).pending_mesh_order().len() { max_count as int }
                else { old(self).pending_mesh_order().len() as int },
            ),
            final(self).pending_mesh_view() == old(self).pending_mesh_view().difference(r@.to_set()),
            final(self).meshing_view() == old(self).meshing_view().union(r@.to_set()),
            final(self).meshed_view() == old(self).meshed_view(),
            Self::same_generation_sets(*old(self), *final(self)),
    {
        let all = self.pending_mesh.to_vec();
        let n = if max_count < all.len() { max_count } else { all.len() };
        let mut result: Vec<ChunkCoord> = Vec::new();
        let mut i: usize = 0;
        while i < n
            invariant
                i <= n,
                n <= all@.len(),
                result@ == all@.take(i as int),
            decreases n - i,
        {
            result.push(all[i]);
            proof {
                assert(all@.take(i as int + 1) =~= all@.take(i as int).push(all@[i as int]));
            }
            i = i + 1;
        }
        let ghost pm0 = self.pending_mesh.view_set();
        let ghost me0 = self.meshing.view_set();
        let mut j: usize = 0;
        while j < result.len()
            invariant
                self.wf(),
                j <= result@.len(),
                self.pending_mesh.view_set() == pm0.difference(result@.take(j as int).to_set()),
                self.meshing.view_set() == me0.union(result@.take(j as int).to_set()),
                self.meshed == old(self).meshed,
                self.pending_generation == old(self).pending_generation,
                self.generating == old(self).generating,
                self.generated == old(self).generated,
            decreases result@.len() - j,
        {
            let pos = result[j];
            self.pending_mesh.remove(pos);
            self.meshing.insert(pos);
            proof {
                let a = result@.take(j as int);
                assert(result@.take(j as int + 1) =~= a.push(pos));
                crate::tracking::dirty_chunks::lemma_push_to_set(a, pos);
                assert(self.pending_mesh.view_set() =~= pm0.difference(result@.take(j as int + 1).to_set()));
                assert(self.meshing.view_set() =~= me0.union(result@.take(j as int + 1).to_set()));
            }
            j = j + 1;
        }
        proof {
            assert(result@.take(result@.len() as int) =~= result@);
        }
        result
    }

    /// Puts a chunk in the mesh queue without any check.
    pub fn mark_pending_mesh_direct(&mut self, pos: ChunkCoord)
        requires
            old(self).wf(),
        ensures
            final(self).wf(),
            final(self).pending_mesh_view() == old(self).pending_mesh_view().insert(pos),
            final(self).meshing_view() == old(self).meshing_view(),
            final(self).meshed_view() == old(self).meshed_view(),
            Self::same_generation_sets(*old(self), *final(self)),
    {
        self.pending_mesh.insert(pos);
    }

    /// Drops from the generation queue every chunk outside `0 <= y < max_y`.
    pub fn cleanup_out_of_bounds(&mut self, max_y: i32)
        requires
            old(self).wf(),
        ensures
            final(self).wf(),
            final(self).pending_generation_view() == old(self).pending_generation_view().filter(
                |p: ChunkCoord| 0 <= p.1 && p.1 < max_y,
            ),
            final(self).generating_view() == old(self).generating_view(),
            final(self).generated_view() == old(self).generated_view(),
            Self::same_mesh_sets(*old(self), *final(self)),
    {
        let ghost before = old(self).pending_generation.view_set();
        let removed = self.pending_generation.retain_where(|p: ChunkCoord| -> (b: bool)
            ensures
                b == (0 <= p.1 && p.1 < max_y),
            { p.1 >= 0 && p.1 < max_y });
        proof {
            assert forall|p: ChunkCoord| self.pending_generation.view_set().contains(p) <==> before.filter(
                |p: ChunkCoord| 0 <= p.1 && p.1 < max_y).contains(p) by {
                if before.contains(p) {
                    if removed@.contains(p) {
                        assert(!self.pending_generation.view_set().contains(p));
                    }
                }
            }
            assert(self.pending_generation.view_set() =~= old(self).pending_generation.view_set().filter(
                |p: ChunkCoord| 0 <= p.1 && p.1 < max_y,
            ));
        }
    }
}

impl Default for LocalChunkTracker {
    fn default() -> (t: Self)
        ensures
            t.wf(),
            t.pending_generation_view() == Set::<ChunkCoord>::empty(),
            t.generating_view() == Set::<ChunkCoord>::empty(),
            t.generated_view() == Set::<ChunkCoord>::empty(),
            t.pending_mesh_view() == Set::<ChunkCoord>::empty(),
            t.meshing_view() == Set::<ChunkCoord>::empty(),
            t.meshed_view() == Set::<ChunkCoord>::empty(),
    {
        Self::new()
    }
}

/// Bridges the local tracker to the interface the renderer uses.
pub struct ChunkTrackerCompat {
    old: LocalChunkTracker,
}

impl ChunkTrackerCompat {
    /// The wrapped tracker.
    pub closed spec fn inner(&self) -> LocalChunkTracker {
        self.old
    }

    pub open spec fn wf(&self) -> bool {
        self.inner().wf()
    }

    pub fn new() -> (t: Self)
        ensures
            t.wf(),
            t.inner().pending_generation_view() == Set::<ChunkCoord>::empty(),
            t.inner().generating_view() == Set::<ChunkCoord>::empty(),
            t.inner().generated_view() == Set::<ChunkCoord>::empty(),
            t.inner().pending_mesh_view() == Set::<ChunkCoord>::empty(),
            t.inner().meshing_view() == Set::<ChunkCoord>::empty(),
            t.inner().meshed_view() == Set::<ChunkCoord>::empty(),
    {
        ChunkTrackerCompat { old: LocalChunkTracker::new() }
    }

    /// See `LocalChunkTracker::mark_pending_generation`.
    pub fn mark_pending_generation(&mut self, pos: ChunkCoord) -> (accepted: bool)
        requires
            old(self).wf(),
        ensures
            final(self).wf(),
            accepted == accepts_generation_request(old(self).inner(), pos),
            accepted ==> final(self).inner().pending_generation_view() == old(self).inner().pending_generation_view().insert(pos),
            !accepted ==> final(self).inner().pending_generation_view() == old(self).inner().pending_generation_view(),
            final(self).inner().generating_view() == old(self).inner().generating_view(),
            final(self).inner().generated_view() == old(self).inner().generated_view(),
            LocalChunkTracker::same_mesh_sets(old(self).inner(), final(self).inner()),
    {
        self.old.mark_pending_generation(pos)
    }

    /// See `LocalChunkTracker::mark_generated`.
    pub fn mark_generated(&mut self, pos: ChunkCoord)
        requires
            old(self).wf(),
        ensures
            final(self).wf(),
            final(self).inner().pending_generation_view() == old(self).inner().pending_generation_view().remove(pos),
            final(self).inner().generating_view() == old(self).inner().generating_view().remove(pos),
            final(self).inner().generated_view() == old(self).inner().generated_view().insert(pos),
            LocalChunkTracker::same_mesh_sets(old(self).inner(), final(self).inner()),
    {
        self.old.mark_generated(pos)
    }

    /// See `LocalChunkTracker::mark_meshed`.
    pub fn mark_meshed(&mut self, pos: ChunkCoord)
        requires
            old(self).wf(),
        ensures
            final(self).wf(),
            final(self).inner().pending_mesh_view() == old(self).inner().pending_mesh_view().remove(pos),
            final(self).inner().meshing_view() == old(self).inner().meshing_view().remove(pos),
            final(self).inner().meshed_view() == old(self).inner().meshed_view().insert(pos),
            LocalChunkTracker::same_generation_sets(old(self).inner(), final(self).inner()),
    {
        self.old.mark_meshed(pos)
    }

    /// See `LocalChunkTracker::is_generated`.
    pub fn is_generated(&self, pos: &ChunkCoord) -> (b: bool)
        ensures
            b == self.inner().generated_view().contains(*pos),
    {
        self.old.is_generated(pos)
    }

    /// See `LocalChunkTracker::get_stats`.
    pub fn get_stats(&self) -> (r: (usize, usize, usize))
        requires
            self.wf(),
        ensures
            r.0 == self.inner().pending_generation_view().len(),
            r.1 == self.inner().generating_view().len(),
            r.2 == self.inner().pending_mesh_view().len(),
    {
        self.old.get_stats()
    }

    /// See `LocalChunkTracker::cleanup_pending_generation_verify`.
    pub fn cleanup_pending_generation_verify<F: Fn(ChunkCoord) -> bool>(&mut self, exists_fn: F)
        requires
            old(self).wf(),
            forall|p: ChunkCoord| call_requires(exists_fn, (p,)),
        ensures
            final(self).wf(),
            forall|p: ChunkCoord| #[trigger] final(self).inner().pending_generation_view().contains(p)
                ==> old(self).inner().pending_generation_view().contains(p) && call_ensures(exists_fn, (p,), true),
            forall|p: ChunkCoord| old(self).inner().pending_generation_view().contains(p)
                && !#[trigger] final(self).inner().pending_generation_view().contains(p) ==> call_ensures(exists_fn, (p,), false),
            final(self).inner().generating_view() == old(self).inner().generating_view(),
            final(self).inner().generated_view() == old(self).inner().generated_view(),
            LocalChunkTracker::same_mesh_sets(old(self).inner(), final(self).inner()),
    {
        self.old.cleanup_pending_generation_verify(exists_fn)
    }

    /// See `LocalChunkTracker::clear_mesh_state`.
    pub fn clear_mesh_state(&mut self, pos: ChunkCoord)
        requires
            old(self).wf(),
        ensures
            final(self).wf(),
            final(self).inner().pending_mesh_view() == old(self).inner().pending_mesh_view().remove(pos),
            final(self).inner().meshing_view() == old(self).inner().meshing_view().remove(pos),
            final(self).inner().meshed_view() == old(self).inner().meshed_view().remove(pos),
            LocalChunkTracker::same_generation_sets(old(self).inner(), final(self).inner()),
    {
        self.old.clear_mesh_state(pos)
    }

    /// See `LocalChunkTracker::mark_pending_mesh_direct`.
    pub fn mark_pending_mesh_direct(&mut self, pos: ChunkCoord)
        requires
            old(self).wf(),
        ensures
            final(self).wf(),
            final(self).inner().pending_mesh_view() == old(self).inner().pending_mesh_view().insert(pos),
            final(self).inner().meshing_view() == old(self).inner().meshing_view(),
            final(self).inner().meshed_view() == old(self).inner().meshed_view(),
            LocalChunkTracker::same_generation_sets(old(self).inner(), final(self).inner()),
    {
        self.old.mark_pending_mesh_direct(pos)
    }

    /// See `LocalChunkTracker::is_generating`.
    pub fn is_generating(&self, pos: &ChunkCoord) -> (b: bool)
        ensures
            b == (self.inner().pending_generation_view().contains(*pos) || self.inner().generating_view().contains(*pos)),
    {
        self.old.is_generating(pos)
    }

    /// See `LocalChunkTracker::is_meshing_or_pending`.
    pub fn is_meshing_or_pending(&self, pos: &ChunkCoord) -> (b: bool)
        ensures
            b == (self.inner().pending_mesh_view().contains(*pos) || self.inner().meshing_view().contains(*pos)),
    {
        self.old.is_meshing_or_pending(pos)
    }
}

/// No duplicate requests: once a generation request for a chunk is
/// accepted, a second request for it is refused until the chunk leaves the
/// generation states.
pub proof fn law_no_duplicate_generation_request(after_first: LocalChunkTracker, pos: ChunkCoord)
    requires
        after_first.pending_generation_view().contains(pos),
    ensures
        !accepts_generation_request(after_first, pos),
{
}

/// A generated chunk is never requested again.
pub proof fn law_generated_not_requested(t: LocalChunkTracker, pos: ChunkCoord)
    requires
        t.generated_view().contains(pos),
    ensures
        !accepts_generation_request(t, pos),
{
}

} // verus!
