use vstd::prelude::*;

verus! {

/// Edge length of a chunk, in voxels.
pub const CHUNK_SIZE: u32 = 16;

/// Number of voxels in a chunk.
pub const CHUNK_VOLUME: usize = 4096;

/// Total height of the world, in voxels.
pub const WORLD_HEIGHT: u32 = 128;

/// Number of chunks stacked vertically to cover the world height.
pub const VERTICAL_CHUNKS: u32 = 8;

/// Chunk-local voxel id (an index into the chunk's palette).
pub type LocalVoxelId = u16;

/// Global voxel id (0 is air).
pub type GlobalVoxelId = usize;

/// A 16x16x16 block of voxels, each stored as an index into a palette of
/// global ids.
pub struct VoxelChunk {
    voxels: Box<[LocalVoxelId; 4096]>,
    palette: Vec<GlobalVoxelId>,
}

/// Flat storage index of a chunk-local coordinate.
pub open spec fn flat_index(x: int, y: int, z: int) -> int {
    (z * 16 + y) * 16 + x
}

/// Whether a coordinate lies inside the chunk.
pub open spec fn in_chunk(x: u32, y: u32, z: u32) -> bool {
    x < CHUNK_SIZE && y < CHUNK_SIZE && z < CHUNK_SIZE
}

/// The palette slot used for `g`: its first position in `p`, or the end of
/// `p` (where it gets appended) when `p` does not hold it.
pub open spec fn palette_slot(p: Seq<usize>, g: usize) -> int {
    if exists|i: int| 0 <= i < p.len() && p[i] == g {
        choose|i: int| 0 <= i < p.len() && p[i] == g && forall|j: int| 0 <= j < i ==> p[j] != g
    } else {
        p.len() as int
    }
}

/// The palette after making room for `g`.
pub open spec fn palette_with(p: Seq<usize>, g: usize) -> Seq<usize> {
    if p.contains(g) {
        p
    } else {
        p.push(g)
    }
}

/// Looks up a local id in a palette.
pub open spec fn palette_lookup(p: Seq<usize>, local: u16) -> Option<usize> {
    if (local as int) < p.len() {
        Some(p[local as int])
    } else {
        None
    }
}

/// Whether some voxel stores local id `i`.
pub open spec fn slot_used(voxels: Seq<u16>, i: int) -> bool {
    exists|w: int| 0 <= w < voxels.len() && voxels[w] as int == i
}

/// How many of the local ids below `k` some voxel stores.
pub open spec fn used_slots_below(voxels: Seq<u16>, k: int) -> nat
    decreases k,
{
    if k <= 0 {
        0
    } else {
        used_slots_below(voxels, k - 1) + if slot_used(voxels, k - 1) { 1nat } else { 0nat }
    }
}

/// An all-air voxel array.
pub open spec fn all_air(s: Seq<u16>) -> bool {
    s.len() == CHUNK_VOLUME && forall|i: int| 0 <= i < s.len() ==> s[i] == 0
}

proof fn lemma_palette_slot_found(p: Seq<usize>, g: usize, pos: int)
    requires
        0 <= pos < p.len(),
        p[pos] == g,
        forall|j: int| 0 <= j < pos ==> p[j] != g,
    ensures
        palette_slot(p, g) == pos,
        p.contains(g),
{
    assert(p[pos] == g);
    let c = palette_slot(p, g);
    assert(0 <= c < p.len() && p[c] == g && forall|j: int| 0 <= j < c ==> p[j] != g);
    if c < pos {
        assert(p[c] != g);
    }
    if pos < c {
        assert(p[pos] != g);
    }
}

proof fn lemma_palette_slot_missing(p: Seq<usize>, g: usize)
    requires
        forall|j: int| 0 <= j < p.len() ==> p[j] != g,
    ensures
        palette_slot(p, g) == p.len(),
        !p.contains(g),
{
}

/// The slot of `g` is a valid index of the palette that holds it, and that
/// palette maps the slot back to `g`.
pub proof fn lemma_palette_slot_maps_back(p: Seq<usize>, g: usize)
    ensures
        0 <= palette_slot(p, g) < palette_with(p, g).len(),
        palette_with(p, g)[palette_slot(p, g)] == g,
        palette_with(p, g).len() <= p.len() + 1,
        forall|i: int| 0 <= i < p.len() ==> palette_with(p, g)[i] == p[i],
{
    if exists|i: int| 0 <= i < p.len() && p[i] == g {
        let w = choose|i: int| 0 <= i < p.len() && p[i] == g;
        lemma_min_witness(p, g, w);
    }
}

proof fn lemma_min_witness(p: Seq<usize>, g: usize, w: int)
    requires
        0 <= w < p.len(),
        p[w] == g,
    ensures
        exists|i: int| 0 <= i < p.len() && p[i] == g && forall|j: int| 0 <= j < i ==> p[j] != g,
    decreases w,
{
    if exists|j: int| 0 <= j < w && p[j] == g {
        let j = choose|j: int| 0 <= j < w && p[j] == g;
        lemma_min_witness(p, g, j);
    } else {
        assert(forall|j: int| 0 <= j < w ==> p[j] != g);
    }
}

/// The id that `set` stores for `global_id` (`None` is air).
pub open spec fn id_or_air(global_id: Option<GlobalVoxelId>) -> GlobalVoxelId {
    match global_id {
        Some(g) => g,
        None => 0usize,
    }
}

/// What `set(x, y, z, global_id)` does to a chunk: inside the chunk, the id
/// gets a palette slot (appended when new) and the voxel stores that slot,
/// truncated to 16 bits; outside the chunk nothing changes.
pub open spec fn set_effect(
    before: VoxelChunk,
    after: VoxelChunk,
    x: u32,
    y: u32,
    z: u32,
    global_id: Option<GlobalVoxelId>,
) -> bool {
    if in_chunk(x, y, z) {
        let g = id_or_air(global_id);
        &&& after.palette_ids() == palette_with(before.palette_ids(), g)
        &&& after.local_ids() == before.local_ids().update(
            flat_index(x as int, y as int, z as int),
            palette_slot(before.palette_ids(), g) as u16,
        )
    } else {
        &&& after.palette_ids() == before.palette_ids()
        &&& after.local_ids() == before.local_ids()
    }
}

impl VoxelChunk {
    /// The palette index stored for each voxel, in flat order.
    pub closed spec fn local_ids(&self) -> Seq<LocalVoxelId> {
        self.voxels@
    }

    /// The palette: local id to global id.
    pub closed spec fn palette_ids(&self) -> Seq<GlobalVoxelId> {
        self.palette@
    }

    /// The global id at a coordinate, as `get` reports it: `None` outside the
    /// chunk or where the stored local id has no palette entry.
    pub open spec fn global_at(&self, x: u32, y: u32, z: u32) -> Option<GlobalVoxelId> {
        if in_chunk(x, y, z) {
            palette_lookup(self.palette_ids(), self.local_ids()[flat_index(x as int, y as int, z as int)])
        } else {
            None
        }
    }

    /// Every chunk stores exactly one local id per voxel.
    pub proof fn lemma_volume(&self)
        ensures
            self.local_ids().len() == CHUNK_VOLUME,
    {
    }

    /// An empty chunk: every voxel is air and the palette holds only air.
    pub fn new() -> (c: Self)
        ensures
            all_air(c.local_ids()),
            c.palette_ids() == seq![0usize],
    {
        VoxelChunk { voxels: Box::new([0u16; 4096]), palette: vec![0] }
    }

    /// Flat index of a chunk-local coordinate.
    pub fn index(x: u32, y: u32, z: u32) -> (i: usize)
        requires
            in_chunk(x, y, z),
        ensures
            i == flat_index(x as int, y as int, z as int),
            i < CHUNK_VOLUME,
    {
        ((z * CHUNK_SIZE + y) * CHUNK_SIZE + x) as usize
    }

    /// The global id of a voxel, or `None` outside this chunk (x or z beyond
    /// 15, or y beyond 15) or when the stored local id is not in the palette.
    pub fn get(&self, x: u32, y: u32, z: u32) -> (r: Option<GlobalVoxelId>)
        ensures
            r == self.global_at(x, y, z),
    {
        if x >= CHUNK_SIZE || z >= CHUNK_SIZE || y >= WORLD_HEIGHT {
            return None;
        }
        if y >= CHUNK_SIZE {
            return None;
        }
        let local_id = self.voxels[Self::index(x, y, z)];
        if (local_id as usize) < self.palette.len() {
            Some(self.palette[local_id as usize])
        } else {
            None
        }
    }

    /// Sets a voxel (`None` means air); coordinates outside the chunk are
    /// ignored. The global id is appended to the palette when it is new.
    pub fn set(&mut self, x: u32, y: u32, z: u32, global_id: Option<GlobalVoxelId>)
        ensures
            set_effect(*old(self), *final(self), x, y, z, global_id),
    {
        if x < CHUNK_SIZE && y < CHUNK_SIZE && z < CHUNK_SIZE {
            let global_id = match global_id {
                Some(g) => g,
                None => 0,
            };
            let local_id = self.get_or_create_local_id(global_id);
            let i = Self::index(x, y, z);
            self.voxels[i] = local_id;
        }
    }

    /// The local id of `global_id`: its first palette position, appending it
    /// to the palette when absent. The position is truncated to 16 bits.
    fn get_or_create_local_id(&mut self, global_id: GlobalVoxelId) -> (l: LocalVoxelId)
        ensures
            final(self).palette_ids() == palette_with(old(self).palette_ids(), global_id),
            l == palette_slot(old(self).palette_ids(), global_id) as u16,
            final(self).local_ids() == old(self).local_ids(),
    {
        let ghost p = self.palette@;
        let mut i: usize = 0;
        while i < self.palette.len()
            invariant
                self.palette@ == p,
                i <= p.len(),
                forall|j: int| 0 <= j < i ==> p[j] != global_id,
            decreases p.len() - i,
        {
            if self.palette[i] == global_id {
                proof {
                    lemma_palette_slot_found(p, global_id, i as int);
                }
                return #[verifier::truncate] (i as u16);
            }
            i = i + 1;
        }
        proof {
            lemma_palette_slot_missing(p, global_id);
        }
        let local_id = #[verifier::truncate] (self.palette.len() as u16);
        self.palette.push(global_id);
        local_id
    }

    /// The global id of a local id, or air (0) when the palette lacks it.
    pub fn local_to_global(&self, local_id: LocalVoxelId) -> (g: GlobalVoxelId)
        ensures
            g == match palette_lookup(self.palette_ids(), local_id) {
                Some(g) => g,
                None => 0usize,
            },
    {
        if (local_id as usize) < self.palette.len() {
            self.palette[local_id as usize]
        } else {
            0
        }
    }

    /// The palette (local id to global id).
    pub fn palette(&self) -> (p: &[GlobalVoxelId])
        ensures
            p@ == self.palette_ids(),
    {
        self.palette.as_slice()
    }

    /// The number of distinct block types in this chunk: the palette entries
    /// that some voxel uses. An entry stays in the palette after its last
    /// voxel is overwritten; it is not counted then. (A chunk keeps each id
    /// once in its palette, see `chunk_wf`.)
    pub fn palette_size(&self) -> (n: usize)
        ensures
            n == used_slots_below(self.local_ids(), self.palette_ids().len() as int),
    {
        let len = self.palette.len();
        let mut used: Vec<bool> = Vec::new();
        let mut k: usize = 0;
        while k < len
            invariant
                len == self.palette@.len(),
                k <= len,
                used@.len() == k,
                forall|i: int| 0 <= i < k ==> !used@[i],
            decreases len - k,
        {
            used.push(false);
            k = k + 1;
        }
        let mut v: usize = 0;
        while v < 4096
            invariant
                len == self.palette@.len(),
                self.voxels@.len() == 4096,
                v <= 4096,
                used@.len() == len,
                forall|i: int| 0 <= i < len ==> (used@[i] <==> exists|w: int| 0 <= w < v && self.voxels@[w] as int == i),
            decreases 4096 - v,
        {
            let l = self.voxels[v] as usize;
            if l < len {
                used.set(l, true);
            }
            proof {
                assert forall|i: int| 0 <= i < len implies (used@[i] <==> exists|w: int| 0 <= w < v + 1 && self.voxels@[w] as int == i) by {
                    if used@[i] && i != l {
                        let w = choose|w: int| 0 <= w < v && self.voxels@[w] as int == i;
                        assert(0 <= w < v + 1 && self.voxels@[w] as int == i);
                    }
                    if i == l {
                        assert(self.voxels@[v as int] as int == i);
                    }
                    if exists|w: int| 0 <= w < v + 1 && self.voxels@[w] as int == i {
                        let w = choose|w: int| 0 <= w < v + 1 && self.voxels@[w] as int == i;
                        if w < v {
                            assert(exists|w2: int| 0 <= w2 < v && self.voxels@[w2] as int == i);
                        }
                    }
                }
            }
            v = v + 1;
        }
        let mut count: usize = 0;
        let mut j: usize = 0;
        while j < len
            invariant
                len == self.palette@.len(),
                self.voxels@.len() == 4096,
                used@.len() == len,
                forall|i: int| 0 <= i < len ==> (used@[i] <==> slot_used(self.voxels@, i)),
                j <= len,
                count == used_slots_below(self.voxels@, j as int),
                count <= j,
            decreases len - j,
        {
            if used[j] {
                count = count + 1;
            }
            j = j + 1;
        }
        count
    }

    /// Same as `get`.
    pub fn get_unchecked(&self, x: u32, y: u32, z: u32) -> (r: Option<GlobalVoxelId>)
        ensures
            r == self.global_at(x, y, z),
    {
        self.get(x, y, z)
    }

    /// Same as `set`.
    pub fn set_unchecked(&mut self, x: u32, y: u32, z: u32, global_id: Option<GlobalVoxelId>)
        ensures
            set_effect(*old(self), *final(self), x, y, z, global_id),
    {
        self.set(x, y, z, global_id)
    }

    /// Resets the chunk: every voxel becomes air and the palette holds only air.
    pub fn clear(&mut self)
        ensures
            all_air(final(self).local_ids()),
            final(self).palette_ids() == seq![0usize],
    {
        self.voxels = Box::new([0u16; 4096]);
        self.palette = vec![0];
    }

    /// An empty chunk (same as `new`).
    pub fn empty() -> (c: Self)
        ensures
            all_air(c.local_ids()),
            c.palette_ids() == seq![0usize],
    {
        Self::new()
    }

    /// Copies out the voxel array and the palette.
    pub fn extract_data(&self) -> (r: (Box<[LocalVoxelId; 4096]>, Vec<GlobalVoxelId>))
        ensures
            r.0@ == self.local_ids(),
            r.1@ == self.palette_ids(),
    {
        let voxels: [LocalVoxelId; 4096] = *self.voxels;
        (Box::new(voxels), self.palette.clone())
    }

    /// Rebuilds a chunk from a voxel array and a palette.
    pub fn from_data(voxels: Box<[LocalVoxelId; 4096]>, palette: Vec<GlobalVoxelId>) -> (c: Self)
        ensures
            c.local_ids() == voxels@,
            c.palette_ids() == palette@,
    {
        VoxelChunk { voxels, palette }
    }
}

impl Default for VoxelChunk {
    /// An empty chunk (same as `new`).
    fn default() -> (c: Self)
        ensures
            all_air(c.local_ids()),
            c.palette_ids() == seq![0usize],
    {
        Self::new()
    }
}

/// Every stored local id has a palette entry.
pub open spec fn palette_consistent(c: VoxelChunk) -> bool {
    forall|i: int| 0 <= i < c.local_ids().len() ==> (c.local_ids()[i] as int) < c.palette_ids().len()
}

proof fn lemma_flat_index_bounds(x: u32, y: u32, z: u32)
    requires
        in_chunk(x, y, z),
    ensures
        0 <= flat_index(x as int, y as int, z as int) < 4096,
{
}

proof fn lemma_flat_index_injective(x: u32, y: u32, z: u32, a: u32, b: u32, c: u32)
    requires
        in_chunk(x, y, z),
        in_chunk(a, b, c),
        flat_index(x as int, y as int, z as int) == flat_index(a as int, b as int, c as int),
    ensures
        x == a && y == b && z == c,
{
}

/// Reading back: after `set` at a coordinate inside the chunk, `get` at that
/// coordinate reports the id that was set (air for `None`), provided the
/// palette had fewer than 65536 entries (beyond that, local ids wrap).
pub proof fn law_get_after_set(
    before: VoxelChunk,
    after: VoxelChunk,
    x: u32,
    y: u32,
    z: u32,
    global_id: Option<GlobalVoxelId>,
)
    requires
        set_effect(before, after, x, y, z, global_id),
        in_chunk(x, y, z),
        before.palette_ids().len() < 65536,
    ensures
        after.global_at(x, y, z) == Some(id_or_air(global_id)),
{
    let g = id_or_air(global_id);
    lemma_palette_slot_maps_back(before.palette_ids(), g);
    lemma_flat_index_bounds(x, y, z);
    before.lemma_volume();
}

/// Locality: `set` at one coordinate leaves what `get` reports at every
/// other coordinate unchanged, for a chunk whose local ids all name palette
/// entries (a dangling local id could come to name the appended entry).
pub proof fn law_set_preserves_others(
    before: VoxelChunk,
    after: VoxelChunk,
    x: u32,
    y: u32,
    z: u32,
    global_id: Option<GlobalVoxelId>,
    a: u32,
    b: u32,
    c: u32,
)
    requires
        set_effect(before, after, x, y, z, global_id),
        !(a == x && b == y && c == z),
        palette_consistent(before),
    ensures
        after.global_at(a, b, c) == before.global_at(a, b, c),
{
    let g = id_or_air(global_id);
    lemma_palette_slot_maps_back(before.palette_ids(), g);
    before.lemma_volume();
    if in_chunk(x, y, z) && in_chunk(a, b, c) {
        lemma_flat_index_bounds(a, b, c);
        if flat_index(x as int, y as int, z as int) == flat_index(a as int, b as int, c as int) {
            lemma_flat_index_injective(x, y, z, a, b, c);
        }
    }
}

/// A chunk whose local ids all name palette entries keeps that property
/// through `set`, as long as the palette stays within 65536 entries.
pub proof fn law_set_keeps_palette_consistent(
    before: VoxelChunk,
    after: VoxelChunk,
    x: u32,
    y: u32,
    z: u32,
    global_id: Option<GlobalVoxelId>,
)
    requires
        set_effect(before, after, x, y, z, global_id),
        palette_consistent(before),
        before.palette_ids().len() < 65536,
    ensures
        palette_consistent(after),
        after.palette_ids().len() <= before.palette_ids().len() + 1,
        forall|i: int| 0 <= i < before.palette_ids().len() ==> after.palette_ids()[i] == before.palette_ids()[i],
{
    let g = id_or_air(global_id);
    lemma_palette_slot_maps_back(before.palette_ids(), g);
    before.lemma_volume();
    after.lemma_volume();
}

/// A new chunk reads as air everywhere inside it.
pub proof fn law_new_chunk_is_air(c: VoxelChunk, x: u32, y: u32, z: u32)
    requires
        all_air(c.local_ids()),
        c.palette_ids() == seq![0usize],
        in_chunk(x, y, z),
    ensures
        c.global_at(x, y, z) == Some(0usize),
        palette_consistent(c),
{
    lemma_flat_index_bounds(x, y, z);
}

/// Rebuilding a chunk from what `extract_data` copied out gives back the
/// same voxels and palette.
pub proof fn law_extract_then_rebuild(
    original: VoxelChunk,
    voxels: Seq<LocalVoxelId>,
    palette: Seq<GlobalVoxelId>,
    rebuilt: VoxelChunk,
)
    requires
        voxels == original.local_ids(),
        palette == original.palette_ids(),
        rebuilt.local_ids() == voxels,
        rebuilt.palette_ids() == palette,
    ensures
        forall|x: u32, y: u32, z: u32| #[trigger] rebuilt.global_at(x, y, z) == original.global_at(x, y, z),
{
}


/// One `set` inside the chunk, on a chunk whose local ids all name palette
/// entries: the set coordinate reads back the id, every other coordinate is
/// unchanged, the palette keeps its entries and gains at most the id (none
/// when it held it already).
pub proof fn lemma_set_step(
    before: VoxelChunk,
    after: VoxelChunk,
    x: u32,
    y: u32,
    z: u32,
    global_id: Option<GlobalVoxelId>,
)
    requires
        set_effect(before, after, x, y, z, global_id),
        in_chunk(x, y, z),
        palette_consistent(before),
        before.palette_ids().len() < 65536,
    ensures
        palette_consistent(after),
        after.global_at(x, y, z) == Some(id_or_air(global_id)),
        forall|a: u32, b: u32, c: u32| !(a == x && b == y && c == z)
            ==> #[trigger] after.global_at(a, b, c) == before.global_at(a, b, c),
        after.palette_ids() == palette_with(before.palette_ids(), id_or_air(global_id)),
        after.palette_ids().contains(id_or_air(global_id)),
{
    law_get_after_set(before, after, x, y, z, global_id);
    law_set_keeps_palette_consistent(before, after, x, y, z, global_id);
    assert forall|a: u32, b: u32, c: u32| !(a == x && b == y && c == z)
        implies #[trigger] after.global_at(a, b, c) == before.global_at(a, b, c) by {
        law_set_preserves_others(before, after, x, y, z, global_id, a, b, c);
    }
    let g = id_or_air(global_id);
    lemma_palette_slot_maps_back(before.palette_ids(), g);
    assert(palette_with(before.palette_ids(), g)[palette_slot(before.palette_ids(), g)] == g);
}

/// No id appears twice in a palette.
pub open spec fn no_duplicate_ids(p: Seq<GlobalVoxelId>) -> bool {
    forall|i: int, j: int| 0 <= i < j < p.len() ==> p[i] != p[j]
}

/// The invariant of a chunk built by `new`, `empty` or `clear` and changed
/// by `set`: every local id names a palette entry, entry 0 is air, no id
/// appears twice, and the palette has at most 65536 entries (local ids are
/// 16 bits).
pub open spec fn chunk_wf(c: VoxelChunk) -> bool {
    &&& palette_consistent(c)
    &&& 1 <= c.palette_ids().len() <= 65536
    &&& c.palette_ids()[0] == 0
    &&& no_duplicate_ids(c.palette_ids())
}

/// A chunk as `new`, `empty` and `clear` leave it: all air, palette `[0]`.
pub open spec fn fresh_chunk(c: VoxelChunk) -> bool {
    all_air(c.local_ids()) && c.palette_ids() == seq![0usize]
}

/// `set` may store `g` when the palette holds it or has room for one more
/// entry.
pub open spec fn set_allowed(c: VoxelChunk, g: GlobalVoxelId) -> bool {
    c.palette_ids().contains(g) || c.palette_ids().len() < 65536
}

/// A fresh chunk satisfies the chunk invariant.
pub proof fn law_fresh_chunk_wf(c: VoxelChunk)
    requires
        fresh_chunk(c),
    ensures
        chunk_wf(c),
{
}

/// `set` keeps the chunk invariant when it may store the id; inside the
/// chunk the coordinate then reads back the id and every other coordinate
/// is unchanged; outside the chunk nothing changes at all.
pub proof fn law_set_keeps_chunk_wf(
    before: VoxelChunk,
    after: VoxelChunk,
    x: u32,
    y: u32,
    z: u32,
    global_id: Option<GlobalVoxelId>,
)
    requires
        chunk_wf(before),
        set_effect(before, after, x, y, z, global_id),
        set_allowed(before, id_or_air(global_id)),
    ensures
        chunk_wf(after),
        in_chunk(x, y, z) ==> after.global_at(x, y, z) == Some(id_or_air(global_id)),
        forall|a: u32, b: u32, c: u32| !(a == x && b == y && c == z)
            ==> #[trigger] after.global_at(a, b, c) == before.global_at(a, b, c),
        !in_chunk(x, y, z) ==> after.palette_ids() == before.palette_ids(),
{
    let g = id_or_air(global_id);
    let p = before.palette_ids();
    lemma_palette_slot_maps_back(p, g);
    before.lemma_volume();
    after.lemma_volume();
    assert forall|a: u32, b: u32, c: u32| !(a == x && b == y && c == z)
        implies #[trigger] after.global_at(a, b, c) == before.global_at(a, b, c) by {
        law_set_preserves_others(before, after, x, y, z, global_id, a, b, c);
    }
    if in_chunk(x, y, z) {
        let q = palette_with(p, g);
        let slot = palette_slot(p, g);
        if !p.contains(g) {
            assert(q == p.push(g));
            assert forall|i: int, j: int| 0 <= i < j < q.len() implies q[i] != q[j] by {
                if j == p.len() {
                    assert(q[i] == p[i]);
                    assert(p.contains(p[i]));
                }
            }
        }
        assert(slot < 65536);
        assert((slot as u16) as int == slot);
        lemma_flat_index_bounds(x, y, z);
        assert forall|i: int| 0 <= i < after.local_ids().len() implies (after.local_ids()[i] as int) < after.palette_ids().len() by {
            if i != flat_index(x as int, y as int, z as int) {
                assert(after.local_ids()[i] == before.local_ids()[i]);
            }
        }
    }
}

/// Over any run of `new`/`clear` and allowed `set` calls, the chunk keeps
/// its invariant: entry 0 of the palette is air, no id appears twice, and
/// every voxel inside the chunk reads as an id of the palette.
pub proof fn law_palette_over_runs(chunks: Seq<VoxelChunk>, ops: Seq<(u32, u32, u32, Option<GlobalVoxelId>)>)
    requires
        chunks.len() == ops.len() + 1,
        fresh_chunk(chunks[0]),
        forall|i: int| 0 <= i < ops.len() ==> fresh_chunk(#[trigger] chunks[i + 1]) || (
            set_effect(chunks[i], chunks[i + 1], ops[i].0, ops[i].1, ops[i].2, ops[i].3)
            && set_allowed(chunks[i], id_or_air(ops[i].3))),
    ensures
        forall|i: int| 0 <= i < chunks.len() ==> chunk_wf(#[trigger] chunks[i]),
        forall|i: int, x: u32, y: u32, z: u32| 0 <= i < chunks.len() && in_chunk(x, y, z) ==> {
            &&& (#[trigger] chunks[i].global_at(x, y, z)) is Some
            &&& chunks[i].palette_ids().contains(chunks[i].global_at(x, y, z)->0)
        },
    decreases ops.len(),
{
    if ops.len() > 0 {
        let n = ops.len() - 1;
        law_palette_over_runs(chunks.take(n + 1), ops.take(n));
        assert(chunks.take(n + 1)[n] == chunks[n]);
        assert(chunk_wf(chunks[n]));
        if !fresh_chunk(chunks[n + 1]) {
            law_set_keeps_chunk_wf(chunks[n], chunks[n + 1], ops[n].0, ops[n].1, ops[n].2, ops[n].3);
        }
        assert forall|i: int| 0 <= i < chunks.len() implies chunk_wf(#[trigger] chunks[i]) by {
            if i <= n {
                assert(chunks.take(n + 1)[i] == chunks[i]);
            }
        }
    }
    assert forall|i: int, x: u32, y: u32, z: u32| 0 <= i < chunks.len() && in_chunk(x, y, z) implies {
        &&& (#[trigger] chunks[i].global_at(x, y, z)) is Some
        &&& chunks[i].palette_ids().contains(chunks[i].global_at(x, y, z)->0)
    } by {
        assert(chunk_wf(chunks[i]));
        chunks[i].lemma_volume();
        lemma_flat_index_bounds(x, y, z);
        let l = chunks[i].local_ids()[flat_index(x as int, y as int, z as int)];
        assert(chunks[i].palette_ids()[l as int] == chunks[i].global_at(x, y, z)->0);
    }
}

} // verus!
