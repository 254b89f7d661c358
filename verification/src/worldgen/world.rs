use vstd::prelude::*;
use crate::voxel::chunk::GlobalVoxelId;
use crate::voxel::registry::{VoxelRegistry, id_of_string};
use crate::worldgen::config::SurfaceRule;
use crate::worldgen::plan::{VoxelWrite, plan_index};
use crate::util::text::{owned, str_eq};

verus! {

/// The block names looked up for every world, in order.
pub open spec fn base_block_names() -> Seq<Seq<char>> {
    seq![
        "air"@, "stone"@, "grass"@, "dirt"@, "bedrock"@, "water"@, "sand"@, "sandstone"@, "coal_ore"@,
        "iron_ore"@, "copper_ore"@, "gold_ore"@, "diamond_ore"@,
    ]
}

/// The names a surface rule adds: its top material, then its under
/// material when it has one.
pub open spec fn rule_names(r: SurfaceRule) -> Seq<Seq<char>> {
    match r.under_material {
        Some(u) => seq![r.top_material@, u@],
        None => seq![r.top_material@],
    }
}

/// The names the rules add, rule by rule.
pub open spec fn rules_names(rules: Seq<SurfaceRule>) -> Seq<Seq<char>>
    decreases rules.len(),
{
    if rules.len() == 0 {
        Seq::empty()
    } else {
        rules_names(rules.drop_last()) + rule_names(rules.last())
    }
}

/// The entries recorded for names: each name the registry knows, with the
/// id registered last under it, in order.
pub open spec fn resolved_entries(defs: Seq<crate::voxel::registry::VoxelDefinition>, names: Seq<Seq<char>>) -> Seq<(Seq<char>, usize)> {
    names.filter_map(|n: Seq<char>| match id_of_string(defs, n) {
        Some(i) => Some((n, i as usize)),
        None => None,
    })
}

/// The id recorded last for a name.
pub open spec fn last_entry(entries: Seq<(Seq<char>, usize)>, name: Seq<char>) -> Option<usize>
    decreases entries.len(),
{
    if entries.len() == 0 {
        None
    } else if entries.last().0 == name {
        Some(entries.last().1)
    } else {
        last_entry(entries.drop_last(), name)
    }
}

/// The ids of the blocks that world generation uses, by name.
pub struct BlockIds {
    entries: Vec<(String, usize)>,
}

impl BlockIds {
    /// The recorded entries, oldest first.
    pub closed spec fn entries(&self) -> Seq<(Seq<char>, usize)> {
        self.entries@.map_values(|e: (String, usize)| (e.0@, e.1))
    }

    /// The id of a block by name: the air is always 0; other names give the
    /// id recorded last for them.
    pub open spec fn id_of(&self, name: Seq<char>) -> Option<usize> {
        if name == "air"@ { Some(0usize) } else { last_entry(self.entries(), name) }
    }

    /// No entry.
    pub fn new() -> (b: BlockIds)
        ensures
            b.entries() == Seq::<(Seq<char>, usize)>::empty(),
    {
        let b = BlockIds { entries: Vec::new() };
        assert(b.entries() =~= Seq::<(Seq<char>, usize)>::empty());
        b
    }

    /// Records the ids of the base blocks and of the blocks the surface
    /// rules name, as the registry gives them; names it does not know are
    /// left out.
    pub fn init_block_ids(&mut self, registry: &VoxelRegistry, rules: &Vec<SurfaceRule>)
        ensures
            final(self).entries() == resolved_entries(registry.defs(), base_block_names() + rules_names(rules@)),
    {
        self.entries = Vec::new();
        let base: [&str; 13] = [
            "air", "stone", "grass", "dirt", "bedrock", "water", "sand", "sandstone", "coal_ore", "iron_ore",
            "copper_ore", "gold_ore", "diamond_ore",
        ];
        proof {
            reveal_strlit("air");
        }
        let ghost defs = registry.defs();
        let ghost all = base_block_names() + rules_names(rules@);
        assert(self.entries() =~= resolved_entries(defs, all.take(0)));
        let mut i: usize = 0;
        while i < 13
            invariant
                i <= 13,
                defs == registry.defs(),
                all == base_block_names() + rules_names(rules@),
                base@.map_values(|s: &str| s@) == base_block_names(),
                self.entries() == resolved_entries(defs, all.take(i as int)),
            decreases 13 - i,
        {
            assert(all[i as int] == base@[i as int]@);
            self.record(registry, base[i], Ghost(all.take(i as int)));
            proof {
                assert(all.take(i as int + 1) =~= all.take(i as int).push(base@[i as int]@));
            }
            i = i + 1;
        }
        proof {
            assert(rules@.take(0) =~= Seq::<SurfaceRule>::empty());
            assert(rules_names(rules@.take(0)) =~= Seq::<Seq<char>>::empty());
            assert(all.take(13) =~= base_block_names() + rules_names(rules@.take(0)));
        }
        let mut k: usize = 0;
        while k < rules.len()
            invariant
                k <= rules.len(),
                defs == registry.defs(),
                all == base_block_names() + rules_names(rules@),
                self.entries() == resolved_entries(defs, base_block_names() + rules_names(rules@.take(k as int))),
            decreases rules.len() - k,
        {
            let ghost prefix = base_block_names() + rules_names(rules@.take(k as int));
            proof {
                assert(rules@.take(k as int + 1).drop_last() =~= rules@.take(k as int));
                assert(rules@.take(k as int + 1).last() == rules@[k as int]);
            }
            let rule = &rules[k];
            self.record(registry, rule.top_material.as_str(), Ghost(prefix));
            match &rule.under_material {
                Some(u) => {
                    self.record(registry, u.as_str(), Ghost(prefix.push(rule.top_material@)));
                    proof {
                        assert(base_block_names() + rules_names(rules@.take(k as int + 1))
                            =~= prefix.push(rule.top_material@).push(u@));
                    }
                },
                None => {
                    proof {
                        assert(base_block_names() + rules_names(rules@.take(k as int + 1)) =~= prefix.push(rule.top_material@));
                    }
                },
            }
            k = k + 1;
        }
        proof {
            assert(rules@.take(rules.len() as int) =~= rules@);
        }
    }

    fn record(&mut self, registry: &VoxelRegistry, name: &str, Ghost(names): Ghost<Seq<Seq<char>>>)
        requires
            old(self).entries() == resolved_entries(registry.defs(), names),
        ensures
            final(self).entries() == resolved_entries(registry.defs(), names.push(name@)),
    {
        proof {
            assert(names.push(name@).drop_last() =~= names);
        }
        match registry.get_id_by_string(name) {
            Some(id) => {
                let ghost before = self.entries();
                self.entries.push((owned(name), id));
                assert(self.entries() =~= before + seq![(name@, id)]);
            },
            None => {},
        }
    }

    /// The id of a block by name (see `id_of`).
    pub fn get_block_id(&self, name: &str) -> (r: Option<GlobalVoxelId>)
        ensures
            r == self.id_of(name@),
    {
        if str_eq(name, "air") {
            return Some(0);
        }
        let mut i: usize = self.entries.len();
        let ghost ev = self.entries();
        assert(ev.take(i as int) =~= ev);
        while i > 0
            invariant
                i <= self.entries.len(),
                ev == self.entries(),
                name@ != "air"@,
                last_entry(ev, name@) == last_entry(ev.take(i as int), name@),
            decreases i,
        {
            proof {
                assert(ev.take(i as int).drop_last() =~= ev.take(i as int - 1));
                assert(ev[i - 1] == (self.entries@[i - 1].0@, self.entries@[i - 1].1));
                assert(ev.take(i as int).last() == ev[i - 1]);
            }
            if str_eq(self.entries[i - 1].0.as_str(), name) {
                return Some(self.entries[i - 1].1);
            }
            i = i - 1;
        }
        None
    }
}

/// The ids a world column uses when its biome has no definition, and the
/// ids of bedrock, water and air.
#[derive(Clone, Copy, PartialEq, Eq, Debug, Structural)]
pub struct WorldIds {
    pub bedrock: Option<GlobalVoxelId>,
    pub water: Option<GlobalVoxelId>,
    pub air: Option<GlobalVoxelId>,
    pub grass: Option<GlobalVoxelId>,
    pub dirt: Option<GlobalVoxelId>,
    pub stone: Option<GlobalVoxelId>,
}

/// The ground of a column whose biome is defined: top block, under block
/// (the biome's, or dirt), and depth of the under layer.
#[derive(Clone, Copy, PartialEq, Eq, Debug, Structural)]
pub struct ColumnGround {
    pub top: Option<GlobalVoxelId>,
    pub under: Option<GlobalVoxelId>,
    pub depth: u32,
}

/// What world generation writes at height `wy` of a column whose terrain
/// reaches `h`: bedrock at 0; nothing above both the terrain and the sea,
/// nor in caves; water above the terrain up to the sea; under the terrain,
/// the top block at the surface, then the under layer, then stone (with
/// grass, dirt to depth 4, then stone when the biome is not defined). A
/// block whose id is unknown is not written.
pub open spec fn world_write(wy: int, h: int, sea: int, cave: bool, ids: WorldIds, ground: Option<ColumnGround>) -> VoxelWrite {
    if wy == 0 {
        VoxelWrite::Place(ids.bedrock)
    } else if wy > h && wy > sea {
        VoxelWrite::Skip
    } else if cave {
        VoxelWrite::Skip
    } else {
        let block = if wy > h {
            if wy <= sea { ids.water } else { ids.air }
        } else {
            let depth = h - wy;
            match ground {
                Some(g) => if depth == 0 { g.top } else if depth < (g.depth as i32) as int { g.under } else { ids.stone },
                None => if depth == 0 { ids.grass } else if depth < 4 { ids.dirt } else { ids.stone },
            }
        };
        match block {
            Some(b) => VoxelWrite::Place(Some(b)),
            None => VoxelWrite::Skip,
        }
    }
}

/// In the multi-noise world, caves are carved only at heights 15 to 55.
pub fn world_cave_height_allowed(wy: i32) -> (b: bool)
    ensures
        b == (15 <= wy && wy <= 55),
{
    15 <= wy && wy <= 55
}

/// The write for one voxel (see `world_write`).
pub fn world_voxel_write(wy: i32, h: i32, sea: i32, cave: bool, ids: WorldIds, ground: Option<ColumnGround>) -> (w: VoxelWrite)
    requires
        wy <= h ==> h - wy <= i32::MAX,
    ensures
        w == world_write(wy as int, h as int, sea as int, cave, ids, ground),
{
    if wy == 0 {
        return VoxelWrite::Place(ids.bedrock);
    }
    if wy > h && wy > sea {
        return VoxelWrite::Skip;
    }
    if cave {
        return VoxelWrite::Skip;
    }
    let block = if wy > h {
        if wy <= sea { ids.water } else { ids.air }
    } else {
        let depth = h - wy;
        match ground {
            Some(g) => {
                #[verifier::truncate]
                let d = g.depth as i32;
                if depth == 0 { g.top } else if depth < d { g.under } else { ids.stone }
            },
            None => if depth == 0 { ids.grass } else if depth < 4 { ids.dirt } else { ids.stone },
        }
    };
    match block {
        Some(b) => VoxelWrite::Place(Some(b)),
        None => VoxelWrite::Skip,
    }
}

/// The plan of a world chunk whose lowest voxel is at `base_y`: for each
/// column (by x then z) its terrain height and ground, and for each voxel
/// whether it lies in a cave, in plan order.
pub fn plan_world_chunk(
    base_y: i32,
    heights: &Vec<i32>,
    grounds: &Vec<Option<ColumnGround>>,
    caves: &Vec<bool>,
    ids: WorldIds,
    sea_level: i32,
) -> (plan: Vec<VoxelWrite>)
    requires
        heights.len() == 256,
        grounds.len() == 256,
        caves.len() == 4096,
        base_y + 15 <= i32::MAX,
        forall|i: int| 0 <= i < 256 ==> heights@[i] - base_y <= i32::MAX,
    ensures
        plan.len() == 4096,
        forall|x: int, z: int, y: int| 0 <= x < 16 && 0 <= z < 16 && 0 <= y < 16 ==>
            #[trigger] plan@[plan_index(x, z, y)] == world_write(
                base_y + y,
                heights@[x * 16 + z] as int,
                sea_level as int,
                caves@[plan_index(x, z, y)],
                ids,
                grounds@[x * 16 + z],
            ),
{
    let mut plan: Vec<VoxelWrite> = Vec::new();
    let mut x: usize = 0;
    while x < 16
        invariant
            x <= 16,
            heights.len() == 256,
            grounds.len() == 256,
            caves.len() == 4096,
            base_y + 15 <= i32::MAX,
            forall|i: int| 0 <= i < 256 ==> heights@[i] - base_y <= i32::MAX,
            plan.len() == x * 256,
            forall|xx: int, z: int, y: int| 0 <= xx < x && 0 <= z < 16 && 0 <= y < 16 ==>
                #[trigger] plan@[plan_index(xx, z, y)] == world_write(
                    base_y + y,
                    heights@[xx * 16 + z] as int,
                    sea_level as int,
                    caves@[plan_index(xx, z, y)],
                    ids,
                    grounds@[xx * 16 + z],
                ),
        decreases 16 - x,
    {
        let mut z: usize = 0;
        while z < 16
            invariant
                x < 16,
                z <= 16,
                heights.len() == 256,
                grounds.len() == 256,
                caves.len() == 4096,
                base_y + 15 <= i32::MAX,
                forall|i: int| 0 <= i < 256 ==> heights@[i] - base_y <= i32::MAX,
                plan.len() == x * 256 + z * 16,
                forall|xx: int, zz: int, y: int| 0 <= xx < 16 && 0 <= zz < 16 && 0 <= y < 16
                    && (xx < x || (xx == x && zz < z)) ==>
                    #[trigger] plan@[plan_index(xx, zz, y)] == world_write(
                        base_y + y,
                        heights@[xx * 16 + zz] as int,
                        sea_level as int,
                        caves@[plan_index(xx, zz, y)],
                        ids,
                        grounds@[xx * 16 + zz],
                    ),
            decreases 16 - z,
        {
            let col = x * 16 + z;
            let h = heights[col];
            let ground = grounds[col];
            let mut y: usize = 0;
            while y < 16
                invariant
                    x < 16,
                    z < 16,
                    y <= 16,
                    col == x * 16 + z,
                    h == heights@[col as int],
                    ground == grounds@[col as int],
                    heights.len() == 256,
                    grounds.len() == 256,
                    caves.len() == 4096,
                    base_y + 15 <= i32::MAX,
                    h - base_y <= i32::MAX,
                    plan.len() == x * 256 + z * 16 + y,
                    forall|xx: int, zz: int, yy: int| 0 <= xx < 16 && 0 <= zz < 16 && 0 <= yy < 16
                        && (xx < x || (xx == x && zz < z) || (xx == x && zz == z && yy < y)) ==>
                        #[trigger] plan@[plan_index(xx, zz, yy)] == world_write(
                            base_y + yy,
                            heights@[xx * 16 + zz] as int,
                            sea_level as int,
                            caves@[plan_index(xx, zz, yy)],
                            ids,
                            grounds@[xx * 16 + zz],
                        ),
                decreases 16 - y,
            {
                let wy = base_y + y as i32;
                let i = col * 16 + y;
                assert(i == plan_index(x as int, z as int, y as int));
                let w = world_voxel_write(wy, h, sea_level, caves[i], ids, ground);
                plan.push(w);
                y = y + 1;
            }
            z = z + 1;
        }
        x = x + 1;
    }
    plan
}

/// The bottom of the world is bedrock, whatever the column; above both the
/// terrain and the sea nothing is written; between the terrain and the sea
/// level, outside caves, lies water.
pub proof fn law_world_layers(wy: int, h: int, sea: int, cave: bool, ids: WorldIds, ground: Option<ColumnGround>)
    ensures
        world_write(0, h, sea, cave, ids, ground) == VoxelWrite::Place(ids.bedrock),
        wy != 0 && wy > h && wy > sea ==> world_write(wy, h, sea, cave, ids, ground) == VoxelWrite::Skip,
        wy != 0 && h < wy <= sea && !cave && ids.water is Some
            ==> world_write(wy, h, sea, cave, ids, ground) == VoxelWrite::Place(ids.water),
        wy != 0 && cave ==> world_write(wy, h, sea, cave, ids, ground) == VoxelWrite::Skip,
{
}

} // verus!
