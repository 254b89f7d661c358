use vstd::prelude::*;
use crate::renderer::dirty::{ChunkCoord, no_duplicates};
use crate::tracking::chunk_set::{ChunkSet, seq_filter, lemma_seq_filter_contains, lemma_seq_filter_no_duplicates};

verus! {

/// Chunks that need their mesh rebuilt, with an urgent (priority) subset
/// kept apart.
pub struct DirtyChunks {
    dirty: ChunkSet,
    priority: ChunkSet,
}

/// The list `get_dirty_chunks` reports: the priority chunks in order, then
/// the other dirty chunks in order.
pub open spec fn dirty_list(priority: Seq<ChunkCoord>, dirty: Seq<ChunkCoord>) -> Seq<ChunkCoord> {
    priority + seq_filter(dirty, |p: ChunkCoord| !priority.contains(p))
}

impl DirtyChunks {
    pub closed spec fn wf(&self) -> bool {
        self.dirty.wf() && self.priority.wf()
    }

    /// Chunks marked dirty.
    pub closed spec fn dirty_set(&self) -> Set<ChunkCoord> {
        self.dirty.view_set()
    }

    /// Chunks marked as urgent.
    pub closed spec fn priority_set(&self) -> Set<ChunkCoord> {
        self.priority.view_set()
    }

    /// The order in which `get_dirty_chunks` reports them.
    pub closed spec fn ordered(&self) -> Seq<ChunkCoord> {
        dirty_list(self.priority.entries(), self.dirty.entries())
    }

    /// The urgent chunks in the order they were marked.
    pub closed spec fn priority_entries(&self) -> Seq<ChunkCoord> {
        self.priority.entries()
    }

    /// The reported order starts with the urgent chunks.
    pub proof fn lemma_ordered_prefix(&self)
        requires
            self.wf(),
        ensures
            self.priority_entries().len() <= self.ordered().len(),
            forall|k: int| 0 <= k < self.priority_entries().len() ==> #[trigger] self.ordered()[k] == self.priority_entries()[k],
            self.priority_entries().to_set() == self.priority_set(),
            self.priority_entries().len() == self.priority_set().len(),
    {
        self.priority.lemma_entries();
    }

    pub fn new() -> (d: Self)
        ensures
            d.wf(),
            d.dirty_set() == Set::<ChunkCoord>::empty(),
            d.priority_set() == Set::<ChunkCoord>::empty(),
    {
        DirtyChunks { dirty: ChunkSet::new(), priority: ChunkSet::new() }
    }

    /// Marks a chunk as needing a remesh.
    pub fn mark_dirty(&mut self, pos: ChunkCoord)
        requires
            old(self).wf(),
        ensures
            final(self).wf(),
            final(self).dirty_set() == old(self).dirty_set().insert(pos),
            final(self).priority_set() == old(self).priority_set(),
    {
        self.dirty.insert(pos);
    }

    /// Marks a chunk as needing an urgent remesh.
    pub fn mark_priority(&mut self, pos: ChunkCoord)
        requires
            old(self).wf(),
        ensures
            final(self).wf(),
            final(self).dirty_set() == old(self).dirty_set(),
            final(self).priority_set() == old(self).priority_set().insert(pos),
    {
        self.priority.insert(pos);
    }

    /// Marks a chunk as meshed: it leaves both sets.
    pub fn mark_clean(&mut self, pos: ChunkCoord)
        requires
            old(self).wf(),
        ensures
            final(self).wf(),
            final(self).dirty_set() == old(self).dirty_set().remove(pos),
            final(self).priority_set() == old(self).priority_set().remove(pos),
    {
        self.dirty.remove(pos);
        self.priority.remove(pos);
    }

    /// Removes a chunk from both sets; returns whether it was in either.
    pub fn remove(&mut self, pos: ChunkCoord) -> (was: bool)
        requires
            old(self).wf(),
        ensures
            final(self).wf(),
            final(self).dirty_set() == old(self).dirty_set().remove(pos),
            final(self).priority_set() == old(self).priority_set().remove(pos),
            was == (old(self).dirty_set().contains(pos) || old(self).priority_set().contains(pos)),
    {
        let removed = self.dirty.remove(pos);
        let removed_priority = self.priority.remove(pos);
        removed_priority || removed
    }

    /// Every dirty or urgent chunk, once each: the urgent ones first.
    pub fn get_dirty_chunks(&self) -> (r: Vec<ChunkCoord>)
        requires
            self.wf(),
        ensures
            r@ == self.ordered(),
            no_duplicates(r@),
            r@.to_set() == self.dirty_set().union(self.priority_set()),
    {
        let ghost pe = self.priority.entries();
        let ghost de = self.dirty.entries();
        let ghost keep = |p: ChunkCoord| !pe.contains(p);
        let mut result = self.priority.to_vec();
        let n = self.dirty.len();
        let mut i: usize = 0;
        while i < n
            invariant
                self.wf(),
                n == de.len(),
                de == self.dirty.entries(),
                pe == self.priority.entries(),
                keep == (|p: ChunkCoord| !pe.contains(p)),
                i <= n,
                result@ == pe + seq_filter(de.take(i as int), keep),
            decreases n - i,
        {
            let pos = self.dirty.get(i);
            proof {
                assert(de.take(i as int + 1).drop_last() =~= de.take(i as int));
                assert(de.take(i as int + 1).last() == pos);
                self.priority.lemma_entries();
            }
            if !self.priority.contains(pos) {
                result.push(pos);
                proof {
                    assert(pe + seq_filter(de.take(i as int), keep).push(pos) =~= (pe + seq_filter(de.take(i as int), keep)).push(pos));
                }
            }
            i = i + 1;
        }
        proof {
            assert(de.take(n as int) =~= de);
            self.dirty.lemma_entries();
            self.priority.lemma_entries();
            lemma_dirty_list(pe, de);
        }
        result
    }

    /// Whether a chunk is in the (non-urgent) dirty set.
    pub fn is_dirty(&self, pos: ChunkCoord) -> (b: bool)
        ensures
            b == self.dirty_set().contains(pos),
    {
        self.dirty.contains(pos)
    }

    /// Empties both sets.
    pub fn clear_all(&mut self)
        ensures
            final(self).wf(),
            final(self).dirty_set() == Set::<ChunkCoord>::empty(),
            final(self).priority_set() == Set::<ChunkCoord>::empty(),
    {
        self.dirty.clear();
        self.priority.clear();
    }

    /// Marks every chunk of `chunks` as dirty.
    pub fn mark_range_dirty(&mut self, chunks: &[ChunkCoord])
        requires
            old(self).wf(),
        ensures
            final(self).wf(),
            final(self).dirty_set() == old(self).dirty_set().union(chunks@.to_set()),
            final(self).priority_set() == old(self).priority_set(),
    {
        let ghost start = self.dirty_set();
        let mut i: usize = 0;
        while i < chunks.len()
            invariant
                self.wf(),
                i <= chunks@.len(),
                self.dirty_set() == start.union(chunks@.take(i as int).to_set()),
                self.priority_set() == old(self).priority_set(),
            decreases chunks@.len() - i,
        {
            self.dirty.insert(chunks[i]);
            proof {
                assert(chunks@.take(i as int + 1) =~= chunks@.take(i as int).push(chunks@[i as int]));
                lemma_push_to_set(chunks@.take(i as int), chunks@[i as int]);
                assert(start.union(chunks@.take(i as int + 1).to_set()) =~= start.union(chunks@.take(i as int).to_set()).insert(chunks@[i as int]));
            }
            i = i + 1;
        }
        proof {
            assert(chunks@.take(chunks@.len() as int) =~= chunks@);
        }
    }
}

impl Default for DirtyChunks {
    fn default() -> (d: Self)
        ensures
            d.wf(),
            d.dirty_set() == Set::<ChunkCoord>::empty(),
            d.priority_set() == Set::<ChunkCoord>::empty(),
    {
        Self::new()
    }
}

pub proof fn lemma_push_to_set(s: Seq<ChunkCoord>, x: ChunkCoord)
    ensures
        s.push(x).to_set() == s.to_set().insert(x),
{
    assert forall|y: ChunkCoord| s.push(x).to_set().contains(y) <==> s.to_set().insert(x).contains(y) by {
        if s.push(x).contains(y) {
            let k = choose|k: int| 0 <= k < s.push(x).len() && s.push(x)[k] == y;
            if k < s.len() {
                assert(s[k] == y);
                assert(s.contains(y));
            }
        }
        if s.contains(y) {
            let k = choose|k: int| 0 <= k < s.len() && s[k] == y;
            assert(s.push(x)[k] == y);
        }
        if y == x {
            assert(s.push(x)[s.len() as int] == x);
        }
    }
    assert(s.push(x).to_set() =~= s.to_set().insert(x));
}

/// The reported list holds each dirty or urgent chunk exactly once.
pub proof fn lemma_dirty_list(pe: Seq<ChunkCoord>, de: Seq<ChunkCoord>)
    requires
        no_duplicates(pe),
        no_duplicates(de),
    ensures
        no_duplicates(dirty_list(pe, de)),
        dirty_list(pe, de).to_set() == de.to_set().union(pe.to_set()),
{
    let keep = |p: ChunkCoord| !pe.contains(p);
    let f = seq_filter(de, keep);
    lemma_seq_filter_no_duplicates(de, keep);
    let l = pe + f;
    assert forall|i: int, j: int| 0 <= i < j < l.len() implies l[i] != l[j] by {
        if j < pe.len() {
        } else if i >= pe.len() {
            assert(l[i] == f[i - pe.len()]);
            assert(l[j] == f[j - pe.len()]);
        } else {
            assert(l[j] == f[j - pe.len()]);
            assert(f.contains(l[j]));
            lemma_seq_filter_contains(de, keep, l[j]);
            if l[i] == l[j] {
                assert(pe.contains(l[j]));
            }
        }
    }
    assert forall|x: ChunkCoord| l.to_set().contains(x) <==> de.to_set().union(pe.to_set()).contains(x) by {
        lemma_seq_filter_contains(de, keep, x);
        if l.contains(x) {
            let k = choose|k: int| 0 <= k < l.len() && l[k] == x;
            if k < pe.len() {
                assert(pe[k] == x);
                assert(pe.contains(x));
            } else {
                assert(f[k - pe.len()] == x);
                assert(f.contains(x));
            }
        }
        if pe.contains(x) {
            let k = choose|k: int| 0 <= k < pe.len() && pe[k] == x;
            assert(l[k] == x);
        } else if de.contains(x) {
            assert(f.contains(x));
            let k = choose|k: int| 0 <= k < f.len() && f[k] == x;
            assert(l[pe.len() + k] == x);
        }
    }
    assert(l.to_set() =~= de.to_set().union(pe.to_set()));
}

} // verus!
