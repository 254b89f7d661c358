use vstd::prelude::*;
use crate::voxel::chunk::{
    VoxelChunk, GlobalVoxelId, in_chunk, id_or_air, palette_consistent, lemma_set_step, palette_with,
};

verus! {

/// What generation does at one voxel: leave it, or set it (`None` is air).
#[derive(Clone, Copy, PartialEq, Eq, Debug, Structural)]
pub enum VoxelWrite {
    Skip,
    Place(Option<GlobalVoxelId>),
}

/// The position of a voxel in a generation plan: columns by x then z,
/// each column bottom to top.
pub open spec fn plan_index(x: int, z: int, y: int) -> int {
    (x * 16 + z) * 16 + y
}

/// What a chunk reads at a voxel after a plan is applied.
pub open spec fn planned_at(before: VoxelChunk, plan: Seq<VoxelWrite>, x: u32, y: u32, z: u32) -> Option<GlobalVoxelId> {
    match plan[plan_index(x as int, z as int, y as int)] {
        VoxelWrite::Place(g) => Some(id_or_air(g)),
        VoxelWrite::Skip => before.global_at(x, y, z),
    }
}

/// Whether a write places the id `v`.
pub open spec fn places_at(w: VoxelWrite, v: GlobalVoxelId) -> bool {
    match w {
        VoxelWrite::Place(g) => id_or_air(g) == v,
        VoxelWrite::Skip => false,
    }
}

/// Whether the plan places the id `v` somewhere.
pub open spec fn plan_places(plan: Seq<VoxelWrite>, v: GlobalVoxelId) -> bool {
    exists|i: int| 0 <= i < plan.len() && places_at(#[trigger] plan[i], v)
}

/// The palette `after` is `before` with entries appended, each of them new
/// (unequal to every entry before it) and placed by the plan.
pub open spec fn palette_grown_by(before: Seq<GlobalVoxelId>, after: Seq<GlobalVoxelId>, plan: Seq<VoxelWrite>) -> bool {
    &&& before.len() <= after.len()
    &&& after.subrange(0, before.len() as int) == before
    &&& forall|k: int| before.len() <= k < after.len() ==> plan_places(plan, #[trigger] after[k])
    &&& forall|j: int, k: int| 0 <= j < k < after.len() && before.len() <= k ==> #[trigger] after[j] != #[trigger] after[k]
}

/// Whether the plan was applied up to (not including) column position
/// `(x, z)` at height `y`.
pub open spec fn done_before(a: u32, b: u32, c: u32, x: int, z: int, y: int) -> bool {
    a < x || (a == x && (c < z || (c == z && b < y)))
}

proof fn lemma_grow_step(
    start: Seq<GlobalVoxelId>,
    before: Seq<GlobalVoxelId>,
    after: Seq<GlobalVoxelId>,
    plan: Seq<VoxelWrite>,
    g: Option<GlobalVoxelId>,
    i: int,
)
    requires
        palette_grown_by(start, before, plan),
        after == palette_with(before, id_or_air(g)),
        0 <= i < plan.len(),
        plan[i] == VoxelWrite::Place(g),
    ensures
        palette_grown_by(start, after, plan),
{
    let v = id_or_air(g);
    if !before.contains(v) {
        assert(after == before.push(v));
        assert(after.subrange(0, start.len() as int) =~= before.subrange(0, start.len() as int));
        assert(plan_places(plan, v));
        assert forall|k: int| start.len() <= k < after.len() implies plan_places(plan, #[trigger] after[k]) by {
            if k < before.len() {
                assert(after[k] == before[k]);
            }
        }
        assert forall|j: int, k: int| 0 <= j < k < after.len() && start.len() <= k implies #[trigger] after[j] != #[trigger] after[k] by {
            if k == before.len() {
                assert(after[j] == before[j]);
                assert(after[k] == v);
            } else {
                assert(after[j] == before[j] && after[k] == before[k]);
            }
        }
    }
}

/// Applies a plan in its order (columns by x then z, each bottom to top).
/// When the chunk's local ids all name palette entries and its palette has
/// room for every write, each voxel reads what the plan says.
pub fn apply_plan(chunk: &mut VoxelChunk, plan: &Vec<VoxelWrite>)
    requires
        plan.len() == 4096,
    ensures
        palette_consistent(*old(chunk)) && old(chunk).palette_ids().len() + 4096 < 65536 ==> {
            &&& palette_consistent(*final(chunk))
            &&& forall|a: u32, b: u32, c: u32| in_chunk(a, b, c)
                ==> #[trigger] final(chunk).global_at(a, b, c) == planned_at(*old(chunk), plan@, a, b, c)
            &&& final(chunk).palette_ids().len() <= old(chunk).palette_ids().len() + 4096
            &&& palette_grown_by(old(chunk).palette_ids(), final(chunk).palette_ids(), plan@)
        },
{
    let ghost start = *chunk;
    let ghost ok = palette_consistent(start) && start.palette_ids().len() + 4096 < 65536;
    assert(start.palette_ids().subrange(0, start.palette_ids().len() as int) =~= start.palette_ids());
    let mut x: u32 = 0;
    while x < 16
        invariant
            x <= 16,
            plan.len() == 4096,
            start == *old(chunk),
            ok == (palette_consistent(start) && start.palette_ids().len() + 4096 < 65536),
            ok ==> palette_consistent(*chunk),
            ok ==> chunk.palette_ids().len() <= start.palette_ids().len() + x * 256,
            ok ==> palette_grown_by(start.palette_ids(), chunk.palette_ids(), plan@),
            ok ==> forall|a: u32, b: u32, c: u32| in_chunk(a, b, c) ==> #[trigger] chunk.global_at(a, b, c)
                == if done_before(a, b, c, x as int, 0, 0) { planned_at(start, plan@, a, b, c) } else { start.global_at(a, b, c) },
        decreases 16 - x,
    {
        let mut z: u32 = 0;
        while z < 16
            invariant
                x < 16,
                z <= 16,
                plan.len() == 4096,
                ok == (palette_consistent(start) && start.palette_ids().len() + 4096 < 65536),
                ok ==> palette_consistent(*chunk),
                ok ==> chunk.palette_ids().len() <= start.palette_ids().len() + x * 256 + z * 16,
                ok ==> palette_grown_by(start.palette_ids(), chunk.palette_ids(), plan@),
                ok ==> forall|a: u32, b: u32, c: u32| in_chunk(a, b, c) ==> #[trigger] chunk.global_at(a, b, c)
                    == if done_before(a, b, c, x as int, z as int, 0) { planned_at(start, plan@, a, b, c) } else { start.global_at(a, b, c) },
            decreases 16 - z,
        {
            let mut y: u32 = 0;
            while y < 16
                invariant
                    x < 16,
                    z < 16,
                    y <= 16,
                    plan.len() == 4096,
                    ok == (palette_consistent(start) && start.palette_ids().len() + 4096 < 65536),
                    ok ==> palette_consistent(*chunk),
                    ok ==> chunk.palette_ids().len() <= start.palette_ids().len() + x * 256 + z * 16 + y,
                    ok ==> palette_grown_by(start.palette_ids(), chunk.palette_ids(), plan@),
                    ok ==> forall|a: u32, b: u32, c: u32| in_chunk(a, b, c) ==> #[trigger] chunk.global_at(a, b, c)
                        == if done_before(a, b, c, x as int, z as int, y as int) { planned_at(start, plan@, a, b, c) } else { start.global_at(a, b, c) },
                decreases 16 - y,
            {
                let i = ((x * 16 + z) * 16 + y) as usize;
                match plan[i] {
                    VoxelWrite::Place(g) => {
                        let ghost before = *chunk;
                        chunk.set(x, y, z, g);
                        proof {
                            if ok {
                                assert(before.palette_ids().len() < 65536) by (nonlinear_arith)
                                    requires
                                        before.palette_ids().len() <= start.palette_ids().len() + x * 256 + z * 16 + y,
                                        start.palette_ids().len() + 4096 < 65536,
                                        x < 16,
                                        z < 16,
                                        y < 16,
                                ;
                                lemma_set_step(before, *chunk, x, y, z, g);
                                lemma_grow_step(start.palette_ids(), before.palette_ids(), chunk.palette_ids(), plan@, g, i as int);
                                assert forall|a: u32, b: u32, c: u32| in_chunk(a, b, c) implies #[trigger] chunk.global_at(a, b, c)
                                    == if done_before(a, b, c, x as int, z as int, y as int + 1) { planned_at(start, plan@, a, b, c) } else { start.global_at(a, b, c) } by {
                                    if a == x && b == y && c == z {
                                        assert(plan_index(a as int, c as int, b as int) == i);
                                    } else {
                                        assert(chunk.global_at(a, b, c) == before.global_at(a, b, c));
                                    }
                                }
                            }
                        }
                    },
                    VoxelWrite::Skip => {
                        proof {
                            if ok {
                                assert forall|a: u32, b: u32, c: u32| in_chunk(a, b, c) implies #[trigger] chunk.global_at(a, b, c)
                                    == if done_before(a, b, c, x as int, z as int, y as int + 1) { planned_at(start, plan@, a, b, c) } else { start.global_at(a, b, c) } by {
                                    if a == x && b == y && c == z {
                                        assert(plan_index(a as int, c as int, b as int) == i);
                                    }
                                }
                            }
                        }
                    },
                }
                y = y + 1;
            }
            proof {
                if ok {
                    assert forall|a: u32, b: u32, c: u32| in_chunk(a, b, c) implies #[trigger] chunk.global_at(a, b, c)
                        == if done_before(a, b, c, x as int, z as int + 1, 0) { planned_at(start, plan@, a, b, c) } else { start.global_at(a, b, c) } by {
                        assert(done_before(a, b, c, x as int, z as int, 16) == done_before(a, b, c, x as int, z as int + 1, 0));
                    }
                }
            }
            z = z + 1;
        }
        proof {
            if ok {
                assert forall|a: u32, b: u32, c: u32| in_chunk(a, b, c) implies #[trigger] chunk.global_at(a, b, c)
                    == if done_before(a, b, c, x as int + 1, 0, 0) { planned_at(start, plan@, a, b, c) } else { start.global_at(a, b, c) } by {
                    assert(done_before(a, b, c, x as int, 16, 0) == done_before(a, b, c, x as int + 1, 0, 0));
                }
            }
        }
        x = x + 1;
    }
    proof {
        if ok {
            assert forall|a: u32, b: u32, c: u32| in_chunk(a, b, c) implies #[trigger] chunk.global_at(a, b, c)
                == planned_at(start, plan@, a, b, c) by {
                assert(done_before(a, b, c, 16, 0, 0));
            }
        }
    }
}

} // verus!
