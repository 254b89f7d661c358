use vstd::prelude::*;
use crate::voxel::chunk::{
    VoxelChunk, GlobalVoxelId, in_chunk, palette_consistent, lemma_set_step, id_or_air,
};
use crate::voxel::registry::{VoxelRegistry, id_of_string};
use crate::worldgen::plan::{VoxelWrite, plan_index, planned_at, apply_plan, places_at, plan_places, palette_grown_by};

verus! {

/// The biomes of the terrain generator.
#[derive(Clone, Copy, PartialEq, Eq, Debug, Structural)]
pub enum TerrainBiome {
    Plains,
    Forest,
    Desert,
    Mountains,
    Snow,
}

/// The name of a biome's surface block.
pub open spec fn surface_name(b: TerrainBiome) -> Seq<char> {
    match b {
        TerrainBiome::Plains | TerrainBiome::Forest => "grass"@,
        TerrainBiome::Desert => "sand"@,
        TerrainBiome::Mountains | TerrainBiome::Snow => "stone"@,
    }
}

/// The name of the block under a biome's surface.
pub open spec fn subsurface_name(b: TerrainBiome) -> Seq<char> {
    match b {
        TerrainBiome::Plains | TerrainBiome::Forest | TerrainBiome::Snow => "dirt"@,
        TerrainBiome::Desert => "sand"@,
        TerrainBiome::Mountains => "stone"@,
    }
}

impl TerrainBiome {
    /// The id of the surface block in the registry.
    pub fn surface_block(&self, registry: &VoxelRegistry) -> (r: Option<GlobalVoxelId>)
        ensures
            match r {
                Some(id) => id_of_string(registry.defs(), surface_name(*self)) == Some(id as int),
                None => id_of_string(registry.defs(), surface_name(*self)) is None,
            },
    {
        match self {
            TerrainBiome::Plains | TerrainBiome::Forest => registry.get_id_by_string("grass"),
            TerrainBiome::Desert => registry.get_id_by_string("sand"),
            TerrainBiome::Mountains | TerrainBiome::Snow => registry.get_id_by_string("stone"),
        }
    }

    /// The id of the block under the surface in the registry.
    pub fn subsurface_block(&self, registry: &VoxelRegistry) -> (r: Option<GlobalVoxelId>)
        ensures
            match r {
                Some(id) => id_of_string(registry.defs(), subsurface_name(*self)) == Some(id as int),
                None => id_of_string(registry.defs(), subsurface_name(*self)) is None,
            },
    {
        match self {
            TerrainBiome::Plains | TerrainBiome::Forest | TerrainBiome::Snow => registry.get_id_by_string("dirt"),
            TerrainBiome::Desert => registry.get_id_by_string("sand"),
            TerrainBiome::Mountains => registry.get_id_by_string("stone"),
        }
    }
}

/// How many voxels of a column the terrain fills in a chunk spanning
/// `base..top`: all when the terrain reaches the top, up to the terrain
/// when it ends inside, none when it ends below. The bounds are compared as
/// unsigned numbers, so chunks below zero get none.
pub open spec fn fill_end(h: u32, base: i32, top: i32) -> u32 {
    if h >= top as u32 {
        16
    } else if h > base as u32 {
        (h - base as u32) as u32
    } else {
        0
    }
}

/// What the terrain writes at height `gy` of a column whose terrain
/// reaches `h`: nothing in caves or above the terrain; bedrock at 0; the
/// surface block on top; the under block for the three blocks below; then
/// the ore found there, else stone.
pub open spec fn terrain_write(
    gy: i32,
    h: u32,
    cave: bool,
    surface: Option<GlobalVoxelId>,
    subsurface: Option<GlobalVoxelId>,
    ore: Option<GlobalVoxelId>,
    stone: GlobalVoxelId,
    bedrock: GlobalVoxelId,
) -> VoxelWrite {
    if cave {
        VoxelWrite::Skip
    } else if gy == 0 {
        VoxelWrite::Place(Some(bedrock))
    } else if gy as u32 >= h {
        VoxelWrite::Skip
    } else if gy as u32 == h - 1 {
        VoxelWrite::Place(surface)
    } else if gy as u32 >= h - 4 {
        VoxelWrite::Place(subsurface)
    } else {
        match ore {
            Some(o) => VoxelWrite::Place(Some(o)),
            None => VoxelWrite::Place(Some(stone)),
        }
    }
}

/// What the terrain generator knows of one column: terrain height, surface
/// and under blocks of its biome, whether a tree may grow there (the biome
/// allows trees and the roll passed), and the height of that tree.
#[derive(Clone, Copy, PartialEq, Eq, Debug, Structural)]
pub struct TerrainColumn {
    pub height: u32,
    pub surface: Option<GlobalVoxelId>,
    pub subsurface: Option<GlobalVoxelId>,
    pub tree_roll: bool,
    pub tree_height: u32,
}

/// The write at plan position (x, z, y) of a terrain chunk.
pub open spec fn terrain_plan_at(
    base: i32,
    top: i32,
    col: TerrainColumn,
    cave: bool,
    ore: Option<GlobalVoxelId>,
    stone: GlobalVoxelId,
    bedrock: GlobalVoxelId,
    y: int,
) -> VoxelWrite {
    if y < fill_end(col.height, base, top) {
        terrain_write((base + y) as i32, col.height, cave, col.surface, col.subsurface, ore, stone, bedrock)
    } else {
        VoxelWrite::Skip
    }
}

/// The plan of a terrain chunk whose voxels span `base..top` (top at most
/// `base + 16`): columns by x then z, caves and ores by plan position.
pub fn plan_terrain_chunk(
    base: i32,
    top: i32,
    columns: &Vec<TerrainColumn>,
    caves: &Vec<bool>,
    ores: &Vec<Option<GlobalVoxelId>>,
    stone: GlobalVoxelId,
    bedrock: GlobalVoxelId,
) -> (plan: Vec<VoxelWrite>)
    requires
        columns.len() == 256,
        caves.len() == 4096,
        ores.len() == 4096,
        base + 16 <= i32::MAX,
        forall|i: int| 0 <= i < 256 ==> 5 <= (#[trigger] columns@[i]).height <= 128,
    ensures
        plan.len() == 4096,
        forall|x: int, z: int, y: int| 0 <= x < 16 && 0 <= z < 16 && 0 <= y < 16 ==>
            #[trigger] plan@[plan_index(x, z, y)] == terrain_plan_at(
                base,
                top,
                columns@[x * 16 + z],
                caves@[plan_index(x, z, y)],
                ores@[plan_index(x, z, y)],
                stone,
                bedrock,
                y,
            ),
{
    let mut plan: Vec<VoxelWrite> = Vec::new();
    let mut i: usize = 0;
    while i < 4096
        invariant
            i <= 4096,
            plan.len() == i,
            columns.len() == 256,
            caves.len() == 4096,
            ores.len() == 4096,
            base + 16 <= i32::MAX,
            forall|k: int| 0 <= k < 256 ==> 5 <= (#[trigger] columns@[k]).height <= 128,
            forall|x: int, z: int, y: int| 0 <= x < 16 && 0 <= z < 16 && 0 <= y < 16 && plan_index(x, z, y) < i ==>
                #[trigger] plan@[plan_index(x, z, y)] == terrain_plan_at(
                    base,
                    top,
                    columns@[x * 16 + z],
                    caves@[plan_index(x, z, y)],
                    ores@[plan_index(x, z, y)],
                    stone,
                    bedrock,
                    y,
                ),
        decreases 4096 - i,
    {
        let col_index = i / 16;
        let y = i % 16;
        let col = columns[col_index];
        let h = col.height;
        #[verifier::truncate]
        let top_u = top as u32;
        #[verifier::truncate]
        let base_u = base as u32;
        let end: u32 = if h >= top_u { 16 } else if h > base_u { h - base_u } else { 0 };
        let w = if (y as u32) < end {
            let gy = base + y as i32;
            if caves[i] {
                VoxelWrite::Skip
            } else if gy == 0 {
                VoxelWrite::Place(Some(bedrock))
            } else {
                #[verifier::truncate]
                let gyu = gy as u32;
                if gyu >= h {
                    VoxelWrite::Skip
                } else if gyu == h - 1 {
                    VoxelWrite::Place(col.surface)
                } else if gyu >= h - 4 {
                    VoxelWrite::Place(col.subsurface)
                } else {
                    match ores[i] {
                        Some(o) => VoxelWrite::Place(Some(o)),
                        None => VoxelWrite::Place(Some(stone)),
                    }
                }
            }
        } else {
            VoxelWrite::Skip
        };
        plan.push(w);
        proof {
            assert forall|x: int, z: int, yy: int| 0 <= x < 16 && 0 <= z < 16 && 0 <= yy < 16 && plan_index(x, z, yy) < i + 1 implies
                #[trigger] plan@[plan_index(x, z, yy)] == terrain_plan_at(
                    base,
                    top,
                    columns@[x * 16 + z],
                    caves@[plan_index(x, z, yy)],
                    ores@[plan_index(x, z, yy)],
                    stone,
                    bedrock,
                    yy,
                ) by {
                if plan_index(x, z, yy) == i {
                    assert(x * 16 + z == col_index && yy == y) by (nonlinear_arith)
                        requires
                            (x * 16 + z) * 16 + yy == i,
                            col_index == i / 16,
                            y == i % 16,
                            0 <= x < 16,
                            0 <= z < 16,
                            0 <= yy < 16,
                    ;
                }
            }
        }
        i = i + 1;
    }
    plan
}

/// Whether a column can take a tree: the terrain ends inside the chunk,
/// the voxel below the surface reads as a block, the surface is at least
/// six voxels below the top of the chunk, and the roll passed.
pub open spec fn tree_eligible(col: TerrainColumn, base: i32, top: i32, below: Option<GlobalVoxelId>) -> bool {
    &&& col.height >= base as u32
    &&& col.height < top as u32
    &&& (col.height - base as u32) > 0
    &&& below is Some
    &&& (col.height - base as u32) < 10
    &&& col.tree_roll
}

/// The leaf radius of a tree of height `h`: 2, plus a third of the height
/// up to 2.
pub open spec fn leaf_radius(h: u32) -> int {
    2 + if h / 3 < 2 { (h / 3) as int } else { 2 }
}

/// Whether a voxel is a leaf of the tree whose trunk starts at
/// `(lx, ly, lz)` and is `h` high: a layer two below the top to one above
/// it, round within a radius that is wider below the top and narrower
/// above (squares of distances compared to 1.44, 1 and 0.36 times the
/// squared radius), the trunk's own column left out below the top; plus
/// the voxel one above the top of the leaves.
pub open spec fn leaf_at(lx: u32, ly: u32, lz: u32, h: u32, a: u32, b: u32, c: u32) -> bool {
    let top = ly + h;
    let r = leaf_radius(h);
    let dx = a - lx;
    let dy = b - top;
    let dz = c - lz;
    let d2 = dx * dx + dz * dz;
    ||| (a == lx && b == top + 1 && c == lz)
    ||| {
        &&& -2 <= dy <= 1
        &&& -r <= dx <= r
        &&& -r <= dz <= r
        &&& (if dy < 0 { 25 * d2 < 36 * (r * r) } else if dy == 0 { d2 < r * r } else { 25 * d2 < 9 * (r * r) })
        &&& (dx != 0 || dz != 0 || dy >= 0)
    }
}

/// Whether a voxel is part of the trunk.
pub open spec fn trunk_at(lx: u32, ly: u32, lz: u32, h: u32, a: u32, b: u32, c: u32) -> bool {
    a == lx && c == lz && ly <= b < ly + h
}

/// The leaves plan of a tree.
fn leaves_plan(lx: u32, ly: u32, lz: u32, h: u32, leaves: GlobalVoxelId) -> (plan: Vec<VoxelWrite>)
    requires
        lx < 16 && ly < 16 && lz < 16 && h <= 64,
    ensures
        plan.len() == 4096,
        forall|x: int, z: int, y: int| 0 <= x < 16 && 0 <= z < 16 && 0 <= y < 16 ==>
            #[trigger] plan@[plan_index(x, z, y)] == if leaf_at(lx, ly, lz, h, x as u32, y as u32, z as u32) {
                VoxelWrite::Place(Some(leaves))
            } else {
                VoxelWrite::Skip
            },
{
    let top: i32 = (ly + h) as i32;
    let r: i32 = 2 + if h / 3 < 2 { (h / 3) as i32 } else { 2 };
    let mut plan: Vec<VoxelWrite> = Vec::new();
    let mut i: usize = 0;
    while i < 4096
        invariant
            i <= 4096,
            plan.len() == i,
            lx < 16 && ly < 16 && lz < 16 && h <= 64,
            top == ly + h,
            r == leaf_radius(h),
            forall|x: int, z: int, y: int| 0 <= x < 16 && 0 <= z < 16 && 0 <= y < 16 && plan_index(x, z, y) < i ==>
                #[trigger] plan@[plan_index(x, z, y)] == if leaf_at(lx, ly, lz, h, x as u32, y as u32, z as u32) {
                    VoxelWrite::Place(Some(leaves))
                } else {
                    VoxelWrite::Skip
                },
        decreases 4096 - i,
    {
        assert(i / 256 < 16);
        let x: i32 = (i / 256) as i32;
        let z: i32 = ((i / 16) % 16) as i32;
        let y: i32 = (i % 16) as i32;
        assert(0 <= x < 16 && 0 <= z < 16 && 0 <= y < 16);
        let dx = x - lx as i32;
        let dy = y - top;
        let dz = z - lz as i32;
        assert(-16 < dx < 16 && -16 < dz < 16);
        assert(0 <= dx * dx <= 256 && 0 <= dz * dz <= 256) by (nonlinear_arith)
            requires
                -16 < dx < 16,
                -16 < dz < 16,
        ;
        assert(2 <= r <= 4);
        assert(4 <= r * r <= 16) by (nonlinear_arith)
            requires
                2 <= r <= 4,
        ;
        let d2 = dx * dx + dz * dz;
        let in_layer = if dy < 0 { 25 * d2 < 36 * (r * r) } else if dy == 0 { d2 < r * r } else { 25 * d2 < 9 * (r * r) };
        let is_leaf = (x == lx as i32 && y == top + 1 && z == lz as i32)
            || (-2 <= dy && dy <= 1 && -r <= dx && dx <= r && -r <= dz && dz <= r && in_layer
                && (dx != 0 || dz != 0 || dy >= 0));
        plan.push(if is_leaf { VoxelWrite::Place(Some(leaves)) } else { VoxelWrite::Skip });
        proof {
            assert forall|xx: int, zz: int, yy: int| 0 <= xx < 16 && 0 <= zz < 16 && 0 <= yy < 16 && plan_index(xx, zz, yy) < i + 1 implies
                #[trigger] plan@[plan_index(xx, zz, yy)] == if leaf_at(lx, ly, lz, h, xx as u32, yy as u32, zz as u32) {
                    VoxelWrite::Place(Some(leaves))
                } else {
                    VoxelWrite::Skip
                } by {
                if plan_index(xx, zz, yy) == i {
                    assert(xx == x && zz == z && yy == y) by (nonlinear_arith)
                        requires
                            (xx * 16 + zz) * 16 + yy == i,
                            x == i / 256,
                            z == (i / 16) % 16,
                            y == i % 16,
                            0 <= xx < 16,
                            0 <= zz < 16,
                            0 <= yy < 16,
                    ;
                }
            }
        }
        i = i + 1;
    }
    plan
}

proof fn lemma_single_growth(before: Seq<GlobalVoxelId>, after: Seq<GlobalVoxelId>, plan: Seq<VoxelWrite>, v: GlobalVoxelId)
    requires
        palette_grown_by(before, after, plan),
        forall|k: int, w: GlobalVoxelId| 0 <= k < plan.len() && #[trigger] places_at(plan[k], w) ==> w == v,
    ensures
        after.len() <= before.len() + 1,
{
    if after.len() >= before.len() + 2 {
        let k1 = before.len() as int;
        let k2 = before.len() as int + 1;
        assert(plan_places(plan, after[k1]));
        assert(plan_places(plan, after[k2]));
        let i1 = choose|i: int| 0 <= i < plan.len() && places_at(#[trigger] plan[i], after[k1]);
        let i2 = choose|i: int| 0 <= i < plan.len() && places_at(#[trigger] plan[i], after[k2]);
        assert(after[k1] == v);
        assert(after[k2] == v);
        assert(after[k1] != after[k2]);
    }
}

/// Grows a tree whose trunk starts at `(lx, ly, lz)` and is `h` high: the
/// trunk of logs inside the chunk, then the leaves (see `leaf_at`), which
/// win over the trunk. When the chunk's local ids all name palette entries
/// and its palette has room, each voxel then reads leaves, log, or what it
/// read before.
pub fn generate_tree(
    chunk: &mut VoxelChunk,
    lx: u32,
    ly: u32,
    lz: u32,
    h: u32,
    log: GlobalVoxelId,
    leaves: GlobalVoxelId,
)
    requires
        lx < 16 && ly < 16 && lz < 16 && h <= 64,
    ensures
        palette_consistent(*old(chunk)) && old(chunk).palette_ids().len() + 4200 < 65536 ==> {
            &&& palette_consistent(*final(chunk))
            &&& final(chunk).palette_ids().len() <= old(chunk).palette_ids().len() + 2
            &&& forall|a: u32, b: u32, c: u32| in_chunk(a, b, c) ==> #[trigger] final(chunk).global_at(a, b, c)
                == if leaf_at(lx, ly, lz, h, a, b, c) {
                    Some(leaves)
                } else if trunk_at(lx, ly, lz, h, a, b, c) {
                    Some(log)
                } else {
                    old(chunk).global_at(a, b, c)
                }
        },
{
    let ghost start = *chunk;
    let ghost ok = palette_consistent(start) && start.palette_ids().len() + 4200 < 65536;
    let mut dy: u32 = 0;
    while dy < h
        invariant
            dy <= h,
            lx < 16 && ly < 16 && lz < 16 && h <= 64,
            ok == (palette_consistent(start) && start.palette_ids().len() + 4200 < 65536),
            ok ==> palette_consistent(*chunk),
            ok ==> chunk.palette_ids().len() <= start.palette_ids().len() + 1,
            ok ==> (dy > 0 && ly < 16 ==> chunk.palette_ids().contains(log)),
            ok ==> (!(dy > 0 && ly < 16) ==> chunk.palette_ids() == start.palette_ids()),
            ok ==> forall|a: u32, b: u32, c: u32| in_chunk(a, b, c) ==> #[trigger] chunk.global_at(a, b, c)
                == if a == lx && c == lz && ly <= b < ly + dy { Some(log) } else { start.global_at(a, b, c) },
        decreases h - dy,
    {
        if ly + dy < 16 {
            let ghost before = *chunk;
            let yy = ly + dy;
            chunk.set(lx, yy, lz, Some(log));
            proof {
                if ok {
                    lemma_set_step(before, *chunk, lx, yy, lz, Some(log));
                    if before.palette_ids().contains(log) {
                        assert(chunk.palette_ids() == before.palette_ids());
                    }
                }
            }
        }
        dy = dy + 1;
    }
    let ghost after_trunk = *chunk;
    let plan = leaves_plan(lx, ly, lz, h, leaves);
    apply_plan(chunk, &plan);
    proof {
        if ok {
            assert forall|k: int, w: GlobalVoxelId| 0 <= k < plan@.len() && #[trigger] places_at(plan@[k], w) implies w == leaves by {
                let x = k / 256;
                let z = (k / 16) % 16;
                let y = k % 16;
                assert(plan_index(x, z, y) == k) by (nonlinear_arith)
                    requires
                        0 <= k < 4096,
                        x == k / 256,
                        z == (k / 16) % 16,
                        y == k % 16,
                ;
                assert(0 <= x < 16 && 0 <= z < 16 && 0 <= y < 16) by (nonlinear_arith)
                    requires
                        0 <= k < 4096,
                        x == k / 256,
                        z == (k / 16) % 16,
                        y == k % 16,
                ;
            }
            lemma_single_growth(after_trunk.palette_ids(), chunk.palette_ids(), plan@, leaves);
            assert forall|a: u32, b: u32, c: u32| in_chunk(a, b, c) implies #[trigger] chunk.global_at(a, b, c)
                == if leaf_at(lx, ly, lz, h, a, b, c) {
                    Some(leaves)
                } else if trunk_at(lx, ly, lz, h, a, b, c) {
                    Some(log)
                } else {
                    start.global_at(a, b, c)
                } by {
                assert(plan@[plan_index(a as int, c as int, b as int)] == if leaf_at(lx, ly, lz, h, a, b, c) {
                    VoxelWrite::Place(Some(leaves))
                } else {
                    VoxelWrite::Skip
                });
            }
        }
    }
}


/// The surface height of a column that can take a tree (see
/// `tree_eligible`), reading the voxel below the surface from `chunk`.
pub open spec fn column_site(chunk: VoxelChunk, col: TerrainColumn, x: u32, z: u32, base: i32, top: i32) -> Option<u32> {
    if col.height >= base as u32 && col.height < top as u32 {
        let sy = (col.height - base as u32) as u32;
        if sy > 0 && chunk.global_at(x, (sy - 1) as u32, z) is Some && sy < 10 && col.tree_roll {
            Some(sy)
        } else {
            None
        }
    } else {
        None
    }
}

/// Whether a site lies in the same 4x4 cell of the chunk as `(x, z)`.
pub open spec fn same_cell(site: (u32, u32, u32), x: u32, z: u32) -> bool {
    site.0 / 4 == x / 4 && site.2 / 4 == z / 4
}

/// The tree sites among the first `n` columns (by x then z): each column
/// that can take a tree, unless an earlier site lies in its 4x4 cell.
pub open spec fn sites_upto(chunk: VoxelChunk, columns: Seq<TerrainColumn>, base: i32, top: i32, n: nat) -> Seq<(u32, u32, u32)>
    decreases n,
{
    if n == 0 {
        Seq::empty()
    } else {
        let prev = sites_upto(chunk, columns, base, top, (n - 1) as nat);
        let x = ((n - 1) / 16) as u32;
        let z = ((n - 1) % 16) as u32;
        match column_site(chunk, columns[n - 1], x, z, base, top) {
            Some(sy) => if exists|k: int| 0 <= k < prev.len() && same_cell(#[trigger] prev[k], x, z) {
                prev
            } else {
                prev.push((x, sy, z))
            },
            None => prev,
        }
    }
}

/// Where trees grow in a chunk filled with terrain: at most one per 4x4
/// cell, the first eligible column of the cell (by x then z) winning; each
/// site is (x, surface height, z).
pub fn tree_sites(chunk: &VoxelChunk, columns: &Vec<TerrainColumn>, base: i32, top: i32) -> (sites: Vec<(u32, u32, u32)>)
    requires
        columns.len() == 256,
    ensures
        sites@ == sites_upto(*chunk, columns@, base, top, 256),
{
    let mut grid: Vec<bool> = Vec::new();
    let mut g: usize = 0;
    while g < 16
        invariant
            g <= 16,
            grid.len() == g,
            forall|k: int| 0 <= k < g ==> !(#[trigger] grid@[k]),
        decreases 16 - g,
    {
        grid.push(false);
        g = g + 1;
    }
    let mut sites: Vec<(u32, u32, u32)> = Vec::new();
    let mut n: usize = 0;
    while n < 256
        invariant
            n <= 256,
            columns.len() == 256,
            grid.len() == 16,
            sites@ == sites_upto(*chunk, columns@, base, top, n as nat),
            forall|cx: u32, cz: u32| cx < 4 && cz < 4 ==> (#[trigger] grid@[(cx * 4 + cz) as int]
                <==> exists|k: int| 0 <= k < sites@.len() && sites@[k].0 / 4 == cx && sites@[k].2 / 4 == cz),
            forall|k: int| 0 <= k < sites@.len() ==> (#[trigger] sites@[k]).0 < 16 && sites@[k].2 < 16,
        decreases 256 - n,
    {
        let x = (n / 16) as u32;
        let z = (n % 16) as u32;
        let col = columns[n];
        #[verifier::truncate]
        let base_u = base as u32;
        #[verifier::truncate]
        let top_u = top as u32;
        let mut site: Option<u32> = None;
        if col.height >= base_u && col.height < top_u {
            let sy = col.height - base_u;
            let below = if sy > 0 { chunk.get(x, sy - 1, z) } else { None };
            if below.is_some() && sy < 10 && col.tree_roll {
                site = Some(sy);
            }
        }
        assert(site == column_site(*chunk, columns@[n as int], x, z, base, top));
        let ghost prev = sites@;
        match site {
            Some(sy) => {
                let cell = ((x / 4) * 4 + z / 4) as usize;
                assert(cell == ((x / 4) * 4 + z / 4) as int);
                if !grid[cell] {
                    proof {
                        assert(!exists|k: int| 0 <= k < prev.len() && same_cell(#[trigger] prev[k], x, z)) by {
                            if exists|k: int| 0 <= k < prev.len() && same_cell(#[trigger] prev[k], x, z) {
                                let k = choose|k: int| 0 <= k < prev.len() && same_cell(#[trigger] prev[k], x, z);
                                assert(grid@[((x / 4) * 4 + z / 4) as int]);
                            }
                        }
                    }
                    grid.set(cell, true);
                    sites.push((x, sy, z));
                    proof {
                        assert forall|cx: u32, cz: u32| cx < 4 && cz < 4 implies (#[trigger] grid@[(cx * 4 + cz) as int]
                            <==> exists|k: int| 0 <= k < sites@.len() && sites@[k].0 / 4 == cx && sites@[k].2 / 4 == cz) by {
                            if cx == x / 4 && cz == z / 4 {
                                assert(sites@[prev.len() as int] == (x, sy, z));
                            } else {
                                assert((cx * 4 + cz) as int != cell);
                                if exists|k: int| 0 <= k < sites@.len() && sites@[k].0 / 4 == cx && sites@[k].2 / 4 == cz {
                                    let k = choose|k: int| 0 <= k < sites@.len() && sites@[k].0 / 4 == cx && sites@[k].2 / 4 == cz;
                                    assert(k < prev.len());
                                    assert(prev[k] == sites@[k]);
                                }
                                if exists|k: int| 0 <= k < prev.len() && prev[k].0 / 4 == cx && prev[k].2 / 4 == cz {
                                    let k = choose|k: int| 0 <= k < prev.len() && prev[k].0 / 4 == cx && prev[k].2 / 4 == cz;
                                    assert(sites@[k] == prev[k]);
                                }
                            }
                        }
                    }
                } else {
                    proof {
                        let k = choose|k: int| 0 <= k < prev.len() && prev[k].0 / 4 == x / 4 && prev[k].2 / 4 == z / 4;
                        assert(same_cell(prev[k], x, z));
                    }
                }
            },
            None => {},
        }
        n = n + 1;
    }
    sites
}

/// Fills the chunk with stone from the bottom up to `height` (at most the
/// whole chunk), columns by x then z.
pub fn fill_solid(chunk: &mut VoxelChunk, height: u32, stone: GlobalVoxelId)
    ensures
        palette_consistent(*old(chunk)) && old(chunk).palette_ids().len() + 4096 < 65536 ==> {
            &&& palette_consistent(*final(chunk))
            &&& forall|a: u32, b: u32, c: u32| in_chunk(a, b, c) ==> #[trigger] final(chunk).global_at(a, b, c)
                == if b < height { Some(stone) } else { old(chunk).global_at(a, b, c) }
        },
{
    let mut plan: Vec<VoxelWrite> = Vec::new();
    let mut i: usize = 0;
    while i < 4096
        invariant
            i <= 4096,
            plan.len() == i,
            forall|k: int| 0 <= k < i ==> #[trigger] plan@[k] == if ((k % 16) as u32) < height {
                VoxelWrite::Place(Some(stone))
            } else {
                VoxelWrite::Skip
            },
        decreases 4096 - i,
    {
        let y = (i % 16) as u32;
        plan.push(if y < height { VoxelWrite::Place(Some(stone)) } else { VoxelWrite::Skip });
        i = i + 1;
    }
    apply_plan(chunk, &plan);
    proof {
        assert forall|a: u32, b: u32, c: u32| in_chunk(a, b, c) implies plan@[plan_index(a as int, c as int, b as int)]
            == if b < height { VoxelWrite::Place(Some(stone)) } else { VoxelWrite::Skip } by {
            let k = plan_index(a as int, c as int, b as int);
            assert(k % 16 == b) by (nonlinear_arith)
                requires
                    k == (a * 16 + c) * 16 + b,
                    0 <= b < 16,
                    0 <= a < 16,
                    0 <= c < 16,
            ;
            assert(0 <= k < 4096) by (nonlinear_arith)
                requires
                    k == (a * 16 + c) * 16 + b,
                    0 <= b < 16,
                    0 <= a < 16,
                    0 <= c < 16,
            ;
        }
    }
}


/// A terrain column is, from the bottom: bedrock at height 0, then stone
/// or ore, then three under blocks, then the surface block at the top of
/// the terrain, and nothing above; caves cut through all of it.
pub proof fn law_terrain_layers(gy: i32, h: u32, cave: bool, surface: Option<GlobalVoxelId>, subsurface: Option<GlobalVoxelId>, ore: Option<GlobalVoxelId>, stone: GlobalVoxelId, bedrock: GlobalVoxelId)
    requires
        5 <= h,
    ensures
        !cave ==> terrain_write(0, h, cave, surface, subsurface, ore, stone, bedrock) == VoxelWrite::Place(Some(bedrock)),
        cave ==> terrain_write(gy, h, cave, surface, subsurface, ore, stone, bedrock) == VoxelWrite::Skip,
        !cave && 0 < gy && gy >= h ==> terrain_write(gy, h, cave, surface, subsurface, ore, stone, bedrock) == VoxelWrite::Skip,
        !cave && 0 < gy && gy == h - 1 ==> terrain_write(gy, h, cave, surface, subsurface, ore, stone, bedrock) == VoxelWrite::Place(surface),
        !cave && 0 < gy && h - 4 <= gy && gy < h - 1
            ==> terrain_write(gy, h, cave, surface, subsurface, ore, stone, bedrock) == VoxelWrite::Place(subsurface),
        !cave && 0 < gy && gy < h - 4
            ==> terrain_write(gy, h, cave, surface, subsurface, ore, stone, bedrock) == VoxelWrite::Place(Some(
                match ore {
                    Some(o) => o,
                    None => stone,
                },
            )),
{
}

/// No two trees of a chunk share a 4x4 cell.
pub proof fn law_one_tree_per_cell(chunk: VoxelChunk, columns: Seq<TerrainColumn>, base: i32, top: i32, n: nat)
    ensures
        forall|i: int, j: int| 0 <= i < j < sites_upto(chunk, columns, base, top, n).len() ==>
            !same_cell(#[trigger] sites_upto(chunk, columns, base, top, n)[i],
                (#[trigger] sites_upto(chunk, columns, base, top, n)[j]).0,
                sites_upto(chunk, columns, base, top, n)[j].2),
    decreases n,
{
    if n > 0 {
        law_one_tree_per_cell(chunk, columns, base, top, (n - 1) as nat);
        let prev = sites_upto(chunk, columns, base, top, (n - 1) as nat);
        let cur = sites_upto(chunk, columns, base, top, n);
        assert forall|i: int, j: int| 0 <= i < j < cur.len() implies !same_cell(#[trigger] cur[i], (#[trigger] cur[j]).0, cur[j].2) by {
            if j < prev.len() {
                assert(cur[i] == prev[i] && cur[j] == prev[j]);
                assert(!same_cell(prev[i], prev[j].0, prev[j].2));
            } else {
                assert(cur[i] == prev[i]);
                if same_cell(prev[i], cur[j].0, cur[j].2) {
                    assert(same_cell(prev[i], ((n - 1) / 16) as u32, ((n - 1) % 16) as u32));
                }
            }
        }
    }
}


/// Caves never come near the bottom or the surface: only heights 5 to 50
/// may be carved.
pub fn cave_height_allowed(wy: i32) -> (b: bool)
    ensures
        b == (5 <= wy && wy <= 50),
{
    5 <= wy && wy <= 50
}

/// The ores of the terrain, most common first.
#[derive(PartialEq, Eq, Structural, Clone, Copy, Debug)]
pub enum Ore {
    Coal,
    Iron,
    Gold,
    Diamond,
}

/// The depths at which an ore may appear, both ends included: coal 5 to
/// 60, iron 5 to 40, gold 10 to 30, diamond 5 to 20.
pub open spec fn ore_depths(ore: Ore) -> (u32, u32) {
    match ore {
        Ore::Coal => (5u32, 60u32),
        Ore::Iron => (5u32, 40u32),
        Ore::Gold => (10u32, 30u32),
        Ore::Diamond => (5u32, 20u32),
    }
}

/// Whether `depth` lies in the ore's band.
pub open spec fn ore_fits(ore: Ore, depth: u32) -> bool {
    ore_depths(ore).0 <= depth && depth <= ore_depths(ore).1
}

/// The ore found at a depth: the first of coal, iron, gold and diamond
/// whose band holds the depth and whose roll (`rolls`, in that order)
/// passed.
pub open spec fn ore_choice(depth: u32, rolls: [bool; 4]) -> Option<Ore> {
    if ore_fits(Ore::Coal, depth) && rolls@[0] {
        Some(Ore::Coal)
    } else if ore_fits(Ore::Iron, depth) && rolls@[1] {
        Some(Ore::Iron)
    } else if ore_fits(Ore::Gold, depth) && rolls@[2] {
        Some(Ore::Gold)
    } else if ore_fits(Ore::Diamond, depth) && rolls@[3] {
        Some(Ore::Diamond)
    } else {
        None
    }
}

impl Ore {
    /// The depths at which the ore may appear (see `ore_depths`).
    pub fn depths(self) -> (r: (u32, u32))
        ensures
            r == ore_depths(self),
    {
        match self {
            Ore::Coal => (5, 60),
            Ore::Iron => (5, 40),
            Ore::Gold => (10, 30),
            Ore::Diamond => (5, 20),
        }
    }

    /// The block id name of the ore.
    pub fn block_name(self) -> (s: &'static str)
        ensures
            s@ == match self {
                Ore::Coal => "coal_ore"@,
                Ore::Iron => "iron_ore"@,
                Ore::Gold => "gold_ore"@,
                Ore::Diamond => "diamond_ore"@,
            },
    {
        match self {
            Ore::Coal => "coal_ore",
            Ore::Iron => "iron_ore",
            Ore::Gold => "gold_ore",
            Ore::Diamond => "diamond_ore",
        }
    }
}

/// Picks the ore at a depth from the rolls of the four ores (see
/// `ore_choice`).
pub fn pick_ore(depth: u32, rolls: [bool; 4]) -> (r: Option<Ore>)
    ensures
        r == ore_choice(depth, rolls),
{
    let ores: [Ore; 4] = [Ore::Coal, Ore::Iron, Ore::Gold, Ore::Diamond];
    let mut i: usize = 0;
    while i < 4
        invariant
            i <= 4,
            ores@ == seq![Ore::Coal, Ore::Iron, Ore::Gold, Ore::Diamond],
            forall|j: int| 0 <= j < i ==> !(ore_fits(ores@[j], depth) && rolls@[j]),
        decreases 4 - i,
    {
        let (lo, hi) = ores[i].depths();
        if lo <= depth && depth <= hi && rolls[i] {
            return Some(ores[i]);
        }
        i = i + 1;
    }
    None
}

/// The seed of the default world.
pub const DEFAULT_TERRAIN_SEED: u32 = 12345;

/// The largest world seed whose noise-layer seeds (up to `seed + 200`) fit
/// in a `u32`.
pub const MAX_TERRAIN_SEED: u32 = 4294967095;

/// The terrain generator: one world seed, from which each noise layer
/// (height, temperature, humidity, caves, structures) takes its own seed.
pub struct TerrainGenerator {
    seed: u32,
}

impl TerrainGenerator {
    #[verifier::type_invariant]
    spec fn seed_fits(self) -> bool {
        self.seed <= MAX_TERRAIN_SEED
    }

    /// The world seed.
    pub closed spec fn seed_view(self) -> u32 {
        self.seed
    }

    /// A generator for the default seed.
    pub fn new() -> (g: TerrainGenerator)
        ensures
            g.seed_view() == DEFAULT_TERRAIN_SEED,
    {
        TerrainGenerator { seed: DEFAULT_TERRAIN_SEED }
    }

    /// A generator for `seed`.
    pub fn with_seed(seed: u32) -> (g: TerrainGenerator)
        requires
            seed <= MAX_TERRAIN_SEED,
        ensures
            g.seed_view() == seed,
    {
        TerrainGenerator { seed }
    }

    /// The world seed.
    pub fn seed(&self) -> (s: u32)
        ensures
            s == self.seed_view(),
            s <= MAX_TERRAIN_SEED,
    {
        proof { use_type_invariant(self); }
        self.seed
    }

    /// The seed of the terrain-height noise.
    pub fn height_noise_seed(&self) -> (s: u32)
        ensures
            s == self.seed_view() + 1,
    {
        proof { use_type_invariant(self); }
        self.seed + 1
    }

    /// The seed of the temperature noise.
    pub fn temperature_noise_seed(&self) -> (s: u32)
        ensures
            s == self.seed_view() + 10,
    {
        proof { use_type_invariant(self); }
        self.seed + 10
    }

    /// The seed of the humidity noise.
    pub fn humidity_noise_seed(&self) -> (s: u32)
        ensures
            s == self.seed_view() + 20,
    {
        proof { use_type_invariant(self); }
        self.seed + 20
    }

    /// The seed of the cave noise.
    pub fn cave_noise_seed(&self) -> (s: u32)
        ensures
            s == self.seed_view() + 100,
    {
        proof { use_type_invariant(self); }
        self.seed + 100
    }

    /// The seed of the structure noise (trees, ores).
    pub fn structure_noise_seed(&self) -> (s: u32)
        ensures
            s == self.seed_view() + 200,
    {
        proof { use_type_invariant(self); }
        self.seed + 200
    }

    /// The chunks of the test world, in generation order: ten by ten columns
    /// (x then z from -5 to 4), each from the bottom chunk to the top one.
    pub fn test_world_chunks(&self) -> (r: Vec<(i32, i32, i32)>)
        ensures
            r.len() == 800,
            forall|i: int| 0 <= i < 800 ==> #[trigger] r@[i] == test_world_chunk_at(i),
    {
        let mut r: Vec<(i32, i32, i32)> = Vec::new();
        let mut cx: i32 = -5;
        while cx <= 4
            invariant
                -5 <= cx <= 5,
                r.len() == (cx + 5) * 80,
                forall|i: int| 0 <= i < r.len() ==> #[trigger] r@[i] == test_world_chunk_at(i),
            decreases 5 - cx,
        {
            let mut cz: i32 = -5;
            while cz <= 4
                invariant
                    -5 <= cx <= 4,
                    -5 <= cz <= 5,
                    r.len() == (cx + 5) * 80 + (cz + 5) * 8,
                    forall|i: int| 0 <= i < r.len() ==> #[trigger] r@[i] == test_world_chunk_at(i),
                decreases 5 - cz,
            {
                let mut cy: i32 = 0;
                while cy < 8
                    invariant
                        -5 <= cx <= 4,
                        -5 <= cz <= 4,
                        0 <= cy <= 8,
                        r.len() == (cx + 5) * 80 + (cz + 5) * 8 + cy,
                        forall|i: int| 0 <= i < r.len() ==> #[trigger] r@[i] == test_world_chunk_at(i),
                    decreases 8 - cy,
                {
                    proof {
                        let i = (cx + 5) * 80 + (cz + 5) * 8 + cy;
                        assert(i / 80 == cx + 5 && (i / 8) % 10 == cz + 5 && i % 8 == cy) by (nonlinear_arith)
                            requires
                                i == (cx + 5) * 80 + (cz + 5) * 8 + cy,
                                0 <= cx + 5 < 10,
                                0 <= cz + 5 < 10,
                                0 <= cy < 8,
                        ;
                    }
                    r.push((cx, cy, cz));
                    cy = cy + 1;
                }
                cz = cz + 1;
            }
            cx = cx + 1;
        }
        r
    }

    /// Generates the test world: each chunk of `test_world_chunks`, in that
    /// order, paired with what `generate_chunk` made for its coordinates.
    pub fn generate_test_world<F: Fn(i32, i32, i32) -> VoxelChunk>(&self, generate_chunk: F) -> (r: Vec<((i32, i32, i32), VoxelChunk)>)
        requires
            forall|x: i32, y: i32, z: i32| #[trigger] generate_chunk.requires((x, y, z)),
        ensures
            r.len() == 800,
            forall|i: int| 0 <= i < 800 ==> #[trigger] r@[i].0 == test_world_chunk_at(i),
            forall|i: int| 0 <= i < 800 ==> generate_chunk.ensures((r@[i].0.0, r@[i].0.1, r@[i].0.2), #[trigger] r@[i].1),
    {
        let coords = self.test_world_chunks();
        let mut r: Vec<((i32, i32, i32), VoxelChunk)> = Vec::new();
        let mut k: usize = 0;
        while k < coords.len()
            invariant
                coords.len() == 800,
                forall|i: int| 0 <= i < 800 ==> #[trigger] coords@[i] == test_world_chunk_at(i),
                forall|x: i32, y: i32, z: i32| #[trigger] generate_chunk.requires((x, y, z)),
                k <= 800,
                r.len() == k,
                forall|i: int| 0 <= i < k ==> #[trigger] r@[i].0 == coords@[i],
                forall|i: int| 0 <= i < k ==> generate_chunk.ensures((r@[i].0.0, r@[i].0.1, r@[i].0.2), #[trigger] r@[i].1),
            decreases 800 - k,
        {
            let (x, y, z) = coords[k];
            let chunk = generate_chunk(x, y, z);
            r.push(((x, y, z), chunk));
            k = k + 1;
        }
        r
    }

    /// Fills the chunk with the registry's stone (id 0 when it has none)
    /// up to `height` (see `fill_solid`).
    pub fn fill_solid(&self, chunk: &mut VoxelChunk, height: u32, registry: &VoxelRegistry)
        ensures
            palette_consistent(*old(chunk)) && old(chunk).palette_ids().len() + 4096 < 65536 ==> {
                &&& palette_consistent(*final(chunk))
                &&& forall|a: u32, b: u32, c: u32| in_chunk(a, b, c) ==> #[trigger] final(chunk).global_at(a, b, c)
                    == if b < height {
                        Some(id_or_zero(id_of_string(registry.defs(), "stone"@)))
                    } else {
                        old(chunk).global_at(a, b, c)
                    }
            },
    {
        let stone = match registry.get_id_by_string("stone") {
            Some(id) => id,
            None => 0,
        };
        fill_solid(chunk, height, stone);
    }
}

/// The id, or 0 when there is none.
pub open spec fn id_or_zero(id: Option<int>) -> GlobalVoxelId {
    match id {
        Some(v) => v as GlobalVoxelId,
        None => 0,
    }
}

/// The `i`-th chunk of the test world (see `TerrainGenerator::test_world_chunks`).
pub open spec fn test_world_chunk_at(i: int) -> (i32, i32, i32) {
    ((i / 80 - 5) as i32, (i % 8) as i32, ((i / 8) % 10 - 5) as i32)
}

impl Default for TerrainGenerator {
    fn default() -> (g: TerrainGenerator)
        ensures
            g.seed_view() == DEFAULT_TERRAIN_SEED,
    {
        TerrainGenerator::new()
    }
}

} // verus!
