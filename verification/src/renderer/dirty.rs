use vstd::prelude::*;
use crate::voxel::chunk::CHUNK_SIZE;

verus! {

/// A chunk position (chunk coordinates, not voxel coordinates).
pub type ChunkCoord = (i32, i32, i32);

/// Euclidean division of a world coordinate by the chunk size: the chunk
/// coordinate that holds it.
pub fn chunk_coord_of(v: i32) -> (c: i32)
    ensures
        c == v as int / (CHUNK_SIZE as int),
{
    let q = v / 16;
    let r = v % 16;
    if r < 0 {
        q - 1
    } else {
        q
    }
}

/// Euclidean remainder of a world coordinate by the chunk size: the
/// coordinate within its chunk.
pub fn local_coord_of(v: i32) -> (l: u32)
    ensures
        l == v as int % (CHUNK_SIZE as int),
        l < CHUNK_SIZE,
{
    let r = v % 16;
    if r < 0 {
        (r + 16) as u32
    } else {
        r as u32
    }
}

/// Whether two chunk positions are equal.
pub fn same_coord(a: ChunkCoord, b: ChunkCoord) -> (r: bool)
    ensures
        r == (a == b),
{
    a.0 == b.0 && a.1 == b.1 && a.2 == b.2
}

/// The set of chunks whose meshes must be rebuilt. Each chunk appears once.
#[derive(Clone, Debug)]
pub struct DirtyChunkSet {
    dirty: Vec<ChunkCoord>,
}

/// No chunk is listed twice.
pub open spec fn no_duplicates(s: Seq<ChunkCoord>) -> bool {
    forall|i: int, j: int| 0 <= i < j < s.len() ==> s[i] != s[j]
}

impl DirtyChunkSet {
    /// The dirty chunks.
    pub closed spec fn view_set(&self) -> Set<ChunkCoord> {
        self.dirty@.to_set()
    }

    /// The chunks in the order they were first marked.
    pub closed spec fn entries(&self) -> Seq<ChunkCoord> {
        self.dirty@
    }

    /// Each chunk is listed once.
    pub closed spec fn wf(&self) -> bool {
        no_duplicates(self.dirty@)
    }

    /// The set of dirty chunks is finite.
    pub proof fn lemma_finite(&self)
        ensures
            self.view_set().finite(),
    {
        vstd::seq_lib::seq_to_set_is_finite(self.dirty@);
    }

    pub fn new() -> (s: Self)
        ensures
            s.wf(),
            s.view_set().finite(),
            s.view_set() == Set::<ChunkCoord>::empty(),
            s.entries().len() == 0,
    {
        let s = DirtyChunkSet { dirty: Vec::new() };
        proof {
            assert(s.dirty@.to_set() =~= Set::<ChunkCoord>::empty());
        }
        s
    }

    fn insert(&mut self, c: ChunkCoord)
        requires
            old(self).wf(),
        ensures
            final(self).wf(),
            final(self).view_set().finite(),
            final(self).view_set() == old(self).view_set().insert(c),
            final(self).entries().len() == old(self).entries().len()
                + if old(self).view_set().contains(c) { 0int } else { 1int },
    {
        let ghost s = self.dirty@;
        let mut i: usize = 0;
        while i < self.dirty.len()
            invariant
                self.dirty@ == s,
                no_duplicates(s),
                i <= s.len(),
                forall|j: int| 0 <= j < i ==> s[j] != c,
            decreases s.len() - i,
        {
            if same_coord(self.dirty[i], c) {
                proof {
                    assert(s.contains(c));
                    assert(s.to_set().insert(c) =~= s.to_set());
                }
                return;
            }
            i = i + 1;
        }
        self.dirty.push(c);
        proof {
            assert(!s.contains(c));
            assert(s.push(c).to_set() =~= s.to_set().insert(c)) by {
                assert forall|x: ChunkCoord| s.push(c).to_set().contains(x) <==> s.to_set().insert(c).contains(x) by {
                    if s.push(c).contains(x) {
                        let k = choose|k: int| 0 <= k < s.push(c).len() && s.push(c)[k] == x;
                        if k < s.len() {
                            assert(s.contains(x));
                        }
                    }
                    if s.contains(x) {
                        let k = choose|k: int| 0 <= k < s.len() && s[k] == x;
                        assert(s.push(c)[k] == x);
                    }
                    if x == c {
                        assert(s.push(c)[s.len() as int] == c);
                    }
                }
            }
        }
    }

    /// Marks a chunk dirty.
    pub fn mark_dirty(&mut self, chunk_x: i32, chunk_y: i32, chunk_z: i32)
        requires
            old(self).wf(),
        ensures
            final(self).wf(),
            final(self).view_set().finite(),
            final(self).view_set() == old(self).view_set().insert((chunk_x, chunk_y, chunk_z)),
    {
        self.insert((chunk_x, chunk_y, chunk_z));
    }

    /// Marks dirty the chunk that holds a world voxel coordinate.
    pub fn mark_voxel_dirty(&mut self, world_x: i32, world_y: i32, world_z: i32)
        requires
            old(self).wf(),
        ensures
            final(self).wf(),
            final(self).view_set().finite(),
            final(self).view_set() == old(self).view_set().insert(
                (
                    (world_x as int / 16) as i32,
                    (world_y as int / 16) as i32,
                    (world_z as int / 16) as i32,
                ),
            ),
    {
        let chunk_x = chunk_coord_of(world_x);
        let chunk_y = chunk_coord_of(world_y);
        let chunk_z = chunk_coord_of(world_z);
        self.insert((chunk_x, chunk_y, chunk_z));
    }

    /// Returns every dirty chunk, each once, and empties the set.
    pub fn take_dirty(&mut self) -> (r: Vec<ChunkCoord>)
        requires
            old(self).wf(),
        ensures
            final(self).wf(),
            final(self).view_set().finite(),
            final(self).view_set() == Set::<ChunkCoord>::empty(),
            r@.to_set() == old(self).view_set(),
            no_duplicates(r@),
    {
        let mut r = Vec::new();
        std::mem::swap(&mut r, &mut self.dirty);
        proof {
            assert(self.dirty@.to_set() =~= Set::<ChunkCoord>::empty());
        }
        r
    }

    /// Whether a chunk is dirty.
    pub fn is_dirty(&self, chunk_x: i32, chunk_y: i32, chunk_z: i32) -> (b: bool)
        ensures
            b == self.view_set().contains((chunk_x, chunk_y, chunk_z)),
    {
        let c = (chunk_x, chunk_y, chunk_z);
        let mut i: usize = 0;
        while i < self.dirty.len()
            invariant
                c == (chunk_x, chunk_y, chunk_z),
                i <= self.dirty@.len(),
                forall|j: int| 0 <= j < i ==> self.dirty@[j] != c,
            decreases self.dirty@.len() - i,
        {
            if same_coord(self.dirty[i], c) {
                proof {
                    assert(self.dirty@[i as int] == c);
                    assert(self.dirty@.contains(c));
                    assert(self.dirty@.to_set().contains(c));
                }
                return true;
            }
            i = i + 1;
        }
        proof {
            assert(!self.dirty@.contains(c));
            assert(!self.dirty@.to_set().contains(c));
        }
        false
    }

    /// Number of dirty chunks.
    pub fn len(&self) -> (n: usize)
        requires
            self.wf(),
        ensures
            n == self.view_set().len(),
    {
        proof {
            self.dirty@.unique_seq_to_set();
        }
        self.dirty.len()
    }

    /// Empties the set.
    pub fn clear(&mut self)
        ensures
            final(self).wf(),
            final(self).view_set().finite(),
            final(self).view_set() == Set::<ChunkCoord>::empty(),
    {
        self.dirty.clear();
        proof {
            assert(self.dirty@.to_set() =~= Set::<ChunkCoord>::empty());
        }
    }
}

impl Default for DirtyChunkSet {
    fn default() -> (s: Self)
        ensures
            s.wf(),
            s.view_set().finite(),
            s.view_set() == Set::<ChunkCoord>::empty(),
    {
        Self::new()
    }
}

/// Marking a chunk dirty makes it dirty, leaves every other chunk as it
/// was, and grows the count by one exactly when the chunk was clean;
/// marking it twice is marking it once.
pub proof fn law_mark_dirty(before: DirtyChunkSet, after: DirtyChunkSet, c: ChunkCoord)
    requires
        after.view_set() == before.view_set().insert(c),
    ensures
        after.view_set().contains(c),
        forall|d: ChunkCoord| d != c ==> (after.view_set().contains(d) == before.view_set().contains(d)),
        after.view_set().len() == before.view_set().len() + if before.view_set().contains(c) { 0int } else { 1int },
        after.view_set().insert(c) == after.view_set(),
{
    before.lemma_finite();
    assert(after.view_set().insert(c) =~= after.view_set());
}

} // verus!
