use vstd::prelude::*;
use crate::voxel::face::{VoxelFace, face_normal, face_opposite, quad_corner};

verus! {

/// The ambient-occlusion level of a face corner, in thirds of full light:
/// 3 is fully lit, 0 is darkest.
#[derive(Clone, Copy, PartialEq, Eq, Debug, Structural)]
pub struct AoLevel {
    pub level: u8,
}

/// The level of a corner: darkest when both sides are blocked, otherwise
/// one third darker for each blocked neighbour.
pub open spec fn ao_level_of(side1: bool, side2: bool, corner: bool) -> u8 {
    if side1 && side2 {
        0
    } else {
        (3 - (side1 as int + side2 as int + corner as int)) as u8
    }
}

impl AoLevel {
    /// Fully lit.
    pub fn max() -> (a: AoLevel)
        ensures
            a.level == 3,
    {
        AoLevel { level: 3 }
    }

    /// Darkest.
    pub fn min() -> (a: AoLevel)
        ensures
            a.level == 0,
    {
        AoLevel { level: 0 }
    }

    /// The level of a corner from its three neighbours (see `ao_level_of`).
    pub fn from_neighbors(side1: bool, side2: bool, corner: bool) -> (a: AoLevel)
        ensures
            a.level == ao_level_of(side1, side2, corner),
            a.level <= 3,
    {
        if side1 && side2 {
            AoLevel { level: 0 }
        } else {
            AoLevel { level: 3 - (side1 as u8 + side2 as u8 + corner as u8) }
        }
    }

    /// The level in thirds of full light.
    pub fn thirds(self) -> (t: u8)
        ensures
            t == self.level,
    {
        self.level
    }
}

/// The two side directions of each corner of a face, corners in the order
/// of the face's texture coordinates.
pub open spec fn corner_sides(face: VoxelFace, corner: int) -> (VoxelFace, VoxelFace) {
    match face {
        VoxelFace::Top => if corner == 0 { (VoxelFace::South, VoxelFace::West) }
            else if corner == 1 { (VoxelFace::South, VoxelFace::East) }
            else if corner == 2 { (VoxelFace::North, VoxelFace::East) }
            else { (VoxelFace::North, VoxelFace::West) },
        VoxelFace::Bottom => if corner == 0 { (VoxelFace::North, VoxelFace::West) }
            else if corner == 1 { (VoxelFace::North, VoxelFace::East) }
            else if corner == 2 { (VoxelFace::South, VoxelFace::East) }
            else { (VoxelFace::South, VoxelFace::West) },
        VoxelFace::North => if corner == 0 { (VoxelFace::East, VoxelFace::Bottom) }
            else if corner == 1 { (VoxelFace::West, VoxelFace::Bottom) }
            else if corner == 2 { (VoxelFace::West, VoxelFace::Top) }
            else { (VoxelFace::East, VoxelFace::Top) },
        VoxelFace::South => if corner == 0 { (VoxelFace::West, VoxelFace::Bottom) }
            else if corner == 1 { (VoxelFace::East, VoxelFace::Bottom) }
            else if corner == 2 { (VoxelFace::East, VoxelFace::Top) }
            else { (VoxelFace::West, VoxelFace::Top) },
        VoxelFace::East => if corner == 0 { (VoxelFace::South, VoxelFace::Bottom) }
            else if corner == 1 { (VoxelFace::North, VoxelFace::Bottom) }
            else if corner == 2 { (VoxelFace::North, VoxelFace::Top) }
            else { (VoxelFace::South, VoxelFace::Top) },
        VoxelFace::West => if corner == 0 { (VoxelFace::North, VoxelFace::Bottom) }
            else if corner == 1 { (VoxelFace::South, VoxelFace::Bottom) }
            else if corner == 2 { (VoxelFace::South, VoxelFace::Top) }
            else { (VoxelFace::North, VoxelFace::Top) },
    }
}

/// For each corner of a face, the two directions in which its side
/// neighbours lie.
pub struct NeighborData {
    pub side_directions: [[VoxelFace; 2]; 4],
}

impl NeighborData {
    /// Neighbour data from its table.
    pub fn new(side_dirs: [[VoxelFace; 2]; 4]) -> (n: NeighborData)
        ensures
            n.side_directions == side_dirs,
    {
        NeighborData { side_directions: side_dirs }
    }

    /// The neighbour data of a face (see `corner_sides`).
    pub fn get_for_face(face: VoxelFace) -> (n: NeighborData)
        ensures
            forall|c: int| 0 <= c < 4 ==> {
                &&& (#[trigger] n.side_directions@[c])@[0] == corner_sides(face, c).0
                &&& n.side_directions@[c]@[1] == corner_sides(face, c).1
            },
    {
        let n = match face {
            VoxelFace::Top => NeighborData::new([
                [VoxelFace::South, VoxelFace::West],
                [VoxelFace::South, VoxelFace::East],
                [VoxelFace::North, VoxelFace::East],
                [VoxelFace::North, VoxelFace::West],
            ]),
            VoxelFace::Bottom => NeighborData::new([
                [VoxelFace::North, VoxelFace::West],
                [VoxelFace::North, VoxelFace::East],
                [VoxelFace::South, VoxelFace::East],
                [VoxelFace::South, VoxelFace::West],
            ]),
            VoxelFace::North => NeighborData::new([
                [VoxelFace::East, VoxelFace::Bottom],
                [VoxelFace::West, VoxelFace::Bottom],
                [VoxelFace::West, VoxelFace::Top],
                [VoxelFace::East, VoxelFace::Top],
            ]),
            VoxelFace::South => NeighborData::new([
                [VoxelFace::West, VoxelFace::Bottom],
                [VoxelFace::East, VoxelFace::Bottom],
                [VoxelFace::East, VoxelFace::Top],
                [VoxelFace::West, VoxelFace::Top],
            ]),
            VoxelFace::East => NeighborData::new([
                [VoxelFace::South, VoxelFace::Bottom],
                [VoxelFace::North, VoxelFace::Bottom],
                [VoxelFace::North, VoxelFace::Top],
                [VoxelFace::South, VoxelFace::Top],
            ]),
            VoxelFace::West => NeighborData::new([
                [VoxelFace::North, VoxelFace::Bottom],
                [VoxelFace::South, VoxelFace::Bottom],
                [VoxelFace::South, VoxelFace::Top],
                [VoxelFace::North, VoxelFace::Top],
            ]),
        };
        n
    }
}

/// A position as integers.
pub type IPos = (i32, i32, i32);

/// `p` moved by the normal of `f`.
pub open spec fn offset(p: (int, int, int), f: VoxelFace) -> (int, int, int) {
    let n = face_normal(f);
    (p.0 + n.0, p.1 + n.1, p.2 + n.2)
}

/// The positions probed for a corner of a face of the block at `pos`: the
/// two side neighbours and the diagonal one, all seen from the cell in
/// front of the face.
pub open spec fn corner_probes(pos: IPos, face: VoxelFace, corner: int) -> [(int, int, int); 3] {
    let front = offset((pos.0 as int, pos.1 as int, pos.2 as int), face);
    let (s1, s2) = corner_sides(face, corner);
    [offset(front, s1), offset(front, s2), offset(offset(front, s1), s2)]
}

/// Whether every coordinate is at least 3 away from the ends of `i32`.
pub open spec fn probe_safe(pos: IPos) -> bool {
    i32::MIN + 3 <= pos.0 <= i32::MAX - 3 && i32::MIN + 3 <= pos.1 <= i32::MAX - 3
        && i32::MIN + 3 <= pos.2 <= i32::MAX - 3
}

fn add_normal(p: IPos, f: VoxelFace) -> (q: IPos)
    requires
        i32::MIN + 1 <= p.0 <= i32::MAX - 1,
        i32::MIN + 1 <= p.1 <= i32::MAX - 1,
        i32::MIN + 1 <= p.2 <= i32::MAX - 1,
    ensures
        (q.0 as int, q.1 as int, q.2 as int) == offset((p.0 as int, p.1 as int, p.2 as int), f),
{
    let n = f.normal();
    (p.0 + n.0, p.1 + n.1, p.2 + n.2)
}

/// The positions to probe for ambient occlusion: for each corner of the
/// face, its two side neighbours and its diagonal neighbour (see
/// `corner_probes`).
pub fn ao_probe_positions(block_pos: IPos, face: VoxelFace) -> (r: [[IPos; 3]; 4])
    requires
        probe_safe(block_pos),
    ensures
        forall|c: int, k: int| 0 <= c < 4 && 0 <= k < 3 ==> {
            let p = #[trigger] r@[c]@[k];
            (p.0 as int, p.1 as int, p.2 as int) == corner_probes(block_pos, face, c)@[k]
        },
{
    let nd = NeighborData::get_for_face(face);
    let front = add_normal(block_pos, face);
    let mut out: [[IPos; 3]; 4] = [[(0, 0, 0); 3]; 4];
    let mut c: usize = 0;
    while c < 4
        invariant
            c <= 4,
            probe_safe(block_pos),
            (front.0 as int, front.1 as int, front.2 as int) == offset(
                (block_pos.0 as int, block_pos.1 as int, block_pos.2 as int),
                face,
            ),
            forall|ci: int| 0 <= ci < 4 ==> {
                &&& (#[trigger] nd.side_directions@[ci])@[0] == corner_sides(face, ci).0
                &&& nd.side_directions@[ci]@[1] == corner_sides(face, ci).1
            },
            forall|ci: int, k: int| 0 <= ci < c && 0 <= k < 3 ==> {
                let p = #[trigger] out@[ci]@[k];
                (p.0 as int, p.1 as int, p.2 as int) == corner_probes(block_pos, face, ci)@[k]
            },
        decreases 4 - c,
    {
        let s1 = nd.side_directions[c][0];
        let s2 = nd.side_directions[c][1];
        assert(nd.side_directions@[c as int]@[0] == corner_sides(face, c as int).0);
        let p1 = add_normal(front, s1);
        let p2 = add_normal(front, s2);
        let p3 = add_normal(p1, s2);
        out[c] = [p1, p2, p3];
        c = c + 1;
    }
    out
}

/// The levels of the four corners of a face from the opacity of their
/// probes, in the order of `ao_probe_positions`.
pub fn corner_levels(opaque: [[bool; 3]; 4]) -> (r: [AoLevel; 4])
    ensures
        forall|c: int| 0 <= c < 4 ==> (#[trigger] r@[c]).level == ao_level_of(
            opaque@[c]@[0],
            opaque@[c]@[1],
            opaque@[c]@[2],
        ),
{
    let mut out: [AoLevel; 4] = [AoLevel { level: 3 }; 4];
    let mut c: usize = 0;
    while c < 4
        invariant
            c <= 4,
            forall|ci: int| 0 <= ci < c ==> (#[trigger] out@[ci]).level == ao_level_of(
                opaque@[ci]@[0],
                opaque@[ci]@[1],
                opaque@[ci]@[2],
            ),
        decreases 4 - c,
    {
        let row = opaque[c];
        out[c] = AoLevel::from_neighbors(row[0], row[1], row[2]);
        c = c + 1;
    }
    out
}

/// Whether a voxel blocks light: it is there and is not air (id 0).
pub open spec fn blocks_light(voxel: Option<usize>) -> bool {
    match voxel {
        Some(id) => id != 0,
        None => false,
    }
}

/// The `k`-th probe of a corner, as the arguments of a voxel lookup.
pub open spec fn probe_at(pos: IPos, face: VoxelFace, corner: int, k: int) -> (i32, i32, i32) {
    let p = corner_probes(pos, face, corner)@[k];
    (p.0 as i32, p.1 as i32, p.2 as i32)
}

/// `v` holds what the lookup answered for the three probes of the corner.
pub open spec fn probes_answered<F: Fn(i32, i32, i32) -> Option<usize>>(
    get_voxel: F,
    pos: IPos,
    face: VoxelFace,
    corner: int,
    v: (Option<usize>, Option<usize>, Option<usize>),
) -> bool {
    &&& call_ensures(get_voxel, probe_at(pos, face, corner, 0), v.0)
    &&& call_ensures(get_voxel, probe_at(pos, face, corner, 1), v.1)
    &&& call_ensures(get_voxel, probe_at(pos, face, corner, 2), v.2)
}

/// `level` is the level of the corner for some answers of the lookup to its
/// three probes.
pub open spec fn corner_level_from<F: Fn(i32, i32, i32) -> Option<usize>>(
    get_voxel: F,
    pos: IPos,
    face: VoxelFace,
    corner: int,
    level: u8,
) -> bool {
    exists|v: (Option<usize>, Option<usize>, Option<usize>)|
        #[trigger] probes_answered(get_voxel, pos, face, corner, v)
            && level == ao_level_of(blocks_light(v.0), blocks_light(v.1), blocks_light(v.2))
}

/// Computes the ambient occlusion of faces from the voxels around them.
pub struct AoCalculator;

impl AoCalculator {
    /// Whether the voxel blocks light (see `blocks_light`).
    pub fn is_opaque(voxel: Option<usize>) -> (b: bool)
        ensures
            b == blocks_light(voxel),
    {
        match voxel {
            Some(id) => id != 0,
            None => false,
        }
    }

    /// The levels of the four corners of a face of the block at `block_pos`:
    /// each corner's level comes from whether its two side probes and its
    /// diagonal probe (see `corner_probes`) block light, as `get_voxel`
    /// answers for them.
    pub fn face_levels<F: Fn(i32, i32, i32) -> Option<usize>>(block_pos: IPos, face: VoxelFace, get_voxel: F) -> (r: [AoLevel; 4])
        requires
            probe_safe(block_pos),
            forall|x: i32, y: i32, z: i32| call_requires(get_voxel, (x, y, z)),
        ensures
            forall|c: int| 0 <= c < 4 ==> corner_level_from(get_voxel, block_pos, face, c, (#[trigger] r@[c]).level),
    {
        let probes = ao_probe_positions(block_pos, face);
        let ghost mut seen: Seq<(Option<usize>, Option<usize>, Option<usize>)> = Seq::empty();
        let mut opaque: [[bool; 3]; 4] = [[false; 3]; 4];
        let mut c: usize = 0;
        while c < 4
            invariant
                c <= 4,
                seen.len() == c,
                forall|x: i32, y: i32, z: i32| call_requires(get_voxel, (x, y, z)),
                forall|ci: int, k: int| 0 <= ci < 4 && 0 <= k < 3 ==> {
                    let p = #[trigger] probes@[ci]@[k];
                    (p.0 as int, p.1 as int, p.2 as int) == corner_probes(block_pos, face, ci)@[k]
                },
                forall|ci: int| 0 <= ci < c ==> {
                    &&& probes_answered(get_voxel, block_pos, face, ci, #[trigger] seen[ci])
                    &&& opaque@[ci]@[0] == blocks_light(seen[ci].0)
                    &&& opaque@[ci]@[1] == blocks_light(seen[ci].1)
                    &&& opaque@[ci]@[2] == blocks_light(seen[ci].2)
                },
            decreases 4 - c,
        {
            let row = probes[c];
            let p0 = row[0];
            let p1 = row[1];
            let p2 = row[2];
            assert(row@[0] == probes@[c as int]@[0]);
            let v0 = get_voxel(p0.0, p0.1, p0.2);
            let v1 = get_voxel(p1.0, p1.1, p1.2);
            let v2 = get_voxel(p2.0, p2.1, p2.2);
            proof {
                assert(p0 == probe_at(block_pos, face, c as int, 0));
                assert(p1 == probe_at(block_pos, face, c as int, 1));
                assert(p2 == probe_at(block_pos, face, c as int, 2));
                seen = seen.push((v0, v1, v2));
            }
            opaque[c] = [Self::is_opaque(v0), Self::is_opaque(v1), Self::is_opaque(v2)];
            c = c + 1;
        }
        let r = corner_levels(opaque);
        assert forall|ci: int| 0 <= ci < 4 implies corner_level_from(get_voxel, block_pos, face, ci, (#[trigger] r@[ci]).level) by {
            let w = seen[ci];
            assert(probes_answered(get_voxel, block_pos, face, ci, w));
            assert(r@[ci].level == ao_level_of(opaque@[ci]@[0], opaque@[ci]@[1], opaque@[ci]@[2]));
            assert(r@[ci].level == ao_level_of(blocks_light(w.0), blocks_light(w.1), blocks_light(w.2)));
        }
        r
    }
}

/// Whether two faces lie along different axes.
pub open spec fn perpendicular(a: VoxelFace, b: VoxelFace) -> bool {
    a != b && a != face_opposite(b)
}

/// The two side directions of every corner are perpendicular to the face
/// and to each other, so the three probes of a corner are distinct cells
/// next to the cell in front of the face.
pub proof fn law_corner_sides_perpendicular(face: VoxelFace, corner: int)
    requires
        0 <= corner < 4,
    ensures
        perpendicular(corner_sides(face, corner).0, face),
        perpendicular(corner_sides(face, corner).1, face),
        perpendicular(corner_sides(face, corner).0, corner_sides(face, corner).1),
{
}

/// A corner with no blocked neighbour is fully lit; a corner whose two
/// sides are blocked is darkest whatever its diagonal; more blocked
/// neighbours never make a corner lighter.
pub proof fn law_ao_levels(s1: bool, s2: bool, c: bool)
    ensures
        ao_level_of(false, false, false) == 3,
        ao_level_of(true, true, c) == 0,
        ao_level_of(s1, s2, c) <= 3,
        ao_level_of(s1, s2, true) <= ao_level_of(s1, s2, false),
        ao_level_of(true, s2, c) <= ao_level_of(false, s2, c),
        ao_level_of(s1, true, c) <= ao_level_of(s1, false, c),
{
}

/// Whether the unit-cube vertex `q` lies on the side of the cube that
/// direction `d` points to.
pub open spec fn vertex_on_side(q: (int, int, int), d: VoxelFace) -> bool {
    let n = face_normal(d);
    &&& (n.0 == 1 ==> q.0 == 1) && (n.0 == -1 ==> q.0 == 0)
    &&& (n.1 == 1 ==> q.1 == 1) && (n.1 == -1 ==> q.1 == 0)
    &&& (n.2 == 1 ==> q.2 == 1) && (n.2 == -1 ==> q.2 == 0)
}

/// Whether two corners have a side direction in common.
pub open spec fn share_side(a: (VoxelFace, VoxelFace), b: (VoxelFace, VoxelFace)) -> bool {
    a.0 == b.0 || a.0 == b.1 || a.1 == b.0 || a.1 == b.1
}

/// Each corner's occlusion is probed towards its own vertex: both side
/// directions of corner `c` point to the sides of the cube on which the
/// face's quad vertex `c` lies (the vertex drawn with that corner's
/// texture coordinate). So the corners go round the face: neighbouring
/// corners share exactly one side direction, opposite corners none.
pub proof fn law_corners_follow_vertices(face: VoxelFace, c: int)
    requires
        0 <= c < 4,
    ensures
        vertex_on_side(quad_corner(face, c), corner_sides(face, c).0),
        vertex_on_side(quad_corner(face, c), corner_sides(face, c).1),
        share_side(corner_sides(face, c), corner_sides(face, (c + 1) % 4)),
        corner_sides(face, c) != corner_sides(face, (c + 1) % 4),
        corner_sides(face, c).0 != corner_sides(face, (c + 1) % 4).1 || corner_sides(face, c).1 != corner_sides(face, (c + 1) % 4).0,
        !share_side(corner_sides(face, c), corner_sides(face, (c + 2) % 4)),
{
}

} // verus!
