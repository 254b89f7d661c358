use vstd::prelude::*;

verus! {

/// Which diagonal splits a quad into two triangles.
#[derive(Clone, Copy, PartialEq, Eq, Debug, Structural)]
pub enum TriangleDiagonal {
    Primary,
    Secondary,
}

impl Default for TriangleDiagonal {
    /// The primary diagonal (corner 0 to corner 2).
    fn default() -> (d: Self)
        ensures
            d == TriangleDiagonal::Primary,
    {
        TriangleDiagonal::Primary
    }
}

/// One of the six faces of a voxel.
#[derive(Clone, Copy, PartialEq, Eq, Debug, Hash, Structural)]
pub enum VoxelFace {
    Top,
    Bottom,
    North,
    South,
    East,
    West,
}

/// The outward unit normal of a face: y+ for Top, z+ for North, x+ for East.
pub open spec fn face_normal(face: VoxelFace) -> (i32, i32, i32) {
    match face {
        VoxelFace::Top => (0i32, 1i32, 0i32),
        VoxelFace::Bottom => (0i32, -1i32, 0i32),
        VoxelFace::North => (0i32, 0i32, 1i32),
        VoxelFace::South => (0i32, 0i32, -1i32),
        VoxelFace::East => (1i32, 0i32, 0i32),
        VoxelFace::West => (-1i32, 0i32, 0i32),
    }
}

/// The face on the other side of the voxel.
pub open spec fn face_opposite(face: VoxelFace) -> VoxelFace {
    match face {
        VoxelFace::Top => VoxelFace::Bottom,
        VoxelFace::Bottom => VoxelFace::Top,
        VoxelFace::North => VoxelFace::South,
        VoxelFace::South => VoxelFace::North,
        VoxelFace::East => VoxelFace::West,
        VoxelFace::West => VoxelFace::East,
    }
}

/// The position of a face in the canonical order.
pub open spec fn face_index(face: VoxelFace) -> int {
    match face {
        VoxelFace::Top => 0,
        VoxelFace::Bottom => 1,
        VoxelFace::North => 2,
        VoxelFace::South => 3,
        VoxelFace::East => 4,
        VoxelFace::West => 5,
    }
}

/// The six faces in their canonical order.
pub open spec fn all_faces() -> Seq<VoxelFace> {
    seq![
        VoxelFace::Top,
        VoxelFace::Bottom,
        VoxelFace::North,
        VoxelFace::South,
        VoxelFace::East,
        VoxelFace::West,
    ]
}

impl VoxelFace {
    /// The six faces: Top, Bottom, North, South, East, West.
    pub const ALL: [VoxelFace; 6] = [
        VoxelFace::Top,
        VoxelFace::Bottom,
        VoxelFace::North,
        VoxelFace::South,
        VoxelFace::East,
        VoxelFace::West,
    ];

    /// The outward unit normal of the face.
    pub fn normal(self) -> (n: (i32, i32, i32))
        ensures
            n == face_normal(self),
    {
        match self {
            VoxelFace::Top => (0, 1, 0),
            VoxelFace::Bottom => (0, -1, 0),
            VoxelFace::North => (0, 0, 1),
            VoxelFace::South => (0, 0, -1),
            VoxelFace::East => (1, 0, 0),
            VoxelFace::West => (-1, 0, 0),
        }
    }

    /// The position of the face in the canonical order.
    pub fn index(self) -> (i: usize)
        ensures
            i == face_index(self),
            i < 6,
    {
        match self {
            VoxelFace::Top => 0,
            VoxelFace::Bottom => 1,
            VoxelFace::North => 2,
            VoxelFace::South => 3,
            VoxelFace::East => 4,
            VoxelFace::West => 5,
        }
    }

    /// The face on the other side of the voxel.
    pub fn opposite(self) -> (o: VoxelFace)
        ensures
            o == face_opposite(self),
    {
        match self {
            VoxelFace::Top => VoxelFace::Bottom,
            VoxelFace::Bottom => VoxelFace::Top,
            VoxelFace::North => VoxelFace::South,
            VoxelFace::South => VoxelFace::North,
            VoxelFace::East => VoxelFace::West,
            VoxelFace::West => VoxelFace::East,
        }
    }
}

/// The position one step from `pos` through `face`.
pub open spec fn step_through(pos: (i32, i32, i32), face: VoxelFace) -> (int, int, int) {
    let n = face_normal(face);
    (pos.0 + n.0, pos.1 + n.1, pos.2 + n.2)
}

/// Taking the opposite face twice gives back the face.
pub proof fn law_opposite_involution(face: VoxelFace)
    ensures
        face_opposite(face_opposite(face)) == face,
        face_opposite(face) != face,
{
}

/// The opposite face points the other way.
pub proof fn law_opposite_normal(face: VoxelFace)
    ensures
        face_normal(face_opposite(face)).0 == -face_normal(face).0,
        face_normal(face_opposite(face)).1 == -face_normal(face).1,
        face_normal(face_opposite(face)).2 == -face_normal(face).2,
{
}

/// Distinct faces have distinct normals, and every normal is a unit step
/// along exactly one axis.
pub proof fn law_normals_distinct(a: VoxelFace, b: VoxelFace)
    ensures
        a != b ==> face_normal(a) != face_normal(b),
        ({
            let n = face_normal(a);
            (n.0 != 0) as int + (n.1 != 0) as int + (n.2 != 0) as int == 1
                && -1 <= n.0 <= 1 && -1 <= n.1 <= 1 && -1 <= n.2 <= 1
        }),
{
}

/// Corner `i` (0 to 3) of the unit-cube face, with coordinates 0 or 1: the
/// corners of the quad that the mesh draws for the face, in its order.
pub open spec fn quad_corner(face: VoxelFace, i: int) -> (int, int, int) {
    match face {
        VoxelFace::Top => if i == 0 { (0, 1, 0) } else if i == 1 { (1, 1, 0) } else if i == 2 { (1, 1, 1) } else { (0, 1, 1) },
        VoxelFace::Bottom => if i == 0 { (0, 0, 1) } else if i == 1 { (1, 0, 1) } else if i == 2 { (1, 0, 0) } else { (0, 0, 0) },
        VoxelFace::North => if i == 0 { (1, 0, 1) } else if i == 1 { (0, 0, 1) } else if i == 2 { (0, 1, 1) } else { (1, 1, 1) },
        VoxelFace::South => if i == 0 { (0, 0, 0) } else if i == 1 { (1, 0, 0) } else if i == 2 { (1, 1, 0) } else { (0, 1, 0) },
        VoxelFace::East => if i == 0 { (1, 0, 0) } else if i == 1 { (1, 0, 1) } else if i == 2 { (1, 1, 1) } else { (1, 1, 0) },
        VoxelFace::West => if i == 0 { (0, 0, 1) } else if i == 1 { (0, 0, 0) } else if i == 2 { (0, 1, 0) } else { (0, 1, 1) },
    }
}

/// Texture coordinate of quad corner `i`, the same for every face:
/// (1, 1), (0, 1), (0, 0), (1, 0).
pub open spec fn quad_uv(i: int) -> (int, int) {
    if i == 0 { (1, 1) } else if i == 1 { (0, 1) } else if i == 2 { (0, 0) } else { (1, 0) }
}

/// The quad corner behind vertex `k` (0 to 5) of the two triangles: corners
/// 0, 1, 2 then 0, 2, 3 across the primary diagonal; 0, 1, 3 then 1, 2, 3
/// across the secondary one.
pub open spec fn triangle_corner(d: TriangleDiagonal, k: int) -> int {
    match d {
        TriangleDiagonal::Primary => if k == 0 { 0 } else if k == 1 { 1 } else if k == 2 { 2 } else if k == 3 { 0 } else if k == 4 { 2 } else { 3 },
        TriangleDiagonal::Secondary => if k == 0 { 0 } else if k == 1 { 1 } else if k == 2 { 3 } else if k == 3 { 1 } else if k == 4 { 2 } else { 3 },
    }
}

impl TriangleDiagonal {
    /// The quad corners of the six triangle vertices (see `triangle_corner`).
    pub fn corner_indices(self) -> (r: [usize; 6])
        ensures
            forall|k: int| 0 <= k < 6 ==> #[trigger] r@[k] == triangle_corner(self, k),
    {
        match self {
            TriangleDiagonal::Primary => [0, 1, 2, 0, 2, 3],
            TriangleDiagonal::Secondary => [0, 1, 3, 1, 2, 3],
        }
    }
}

impl VoxelFace {
    /// The four corners of the face's quad, with 0/1 coordinates (see
    /// `quad_corner`).
    pub fn quad_corners(self) -> (q: [[u8; 3]; 4])
        ensures
            forall|i: int| 0 <= i < 4 ==> (#[trigger] q@[i]@[0] as int, q@[i]@[1] as int, q@[i]@[2] as int) == quad_corner(self, i),
    {
        match self {
            VoxelFace::Top => [[0, 1, 0], [1, 1, 0], [1, 1, 1], [0, 1, 1]],
            VoxelFace::Bottom => [[0, 0, 1], [1, 0, 1], [1, 0, 0], [0, 0, 0]],
            VoxelFace::North => [[1, 0, 1], [0, 0, 1], [0, 1, 1], [1, 1, 1]],
            VoxelFace::South => [[0, 0, 0], [1, 0, 0], [1, 1, 0], [0, 1, 0]],
            VoxelFace::East => [[1, 0, 0], [1, 0, 1], [1, 1, 1], [1, 1, 0]],
            VoxelFace::West => [[0, 0, 1], [0, 0, 0], [0, 1, 0], [0, 1, 1]],
        }
    }

    /// The texture coordinates of the quad's corners (see `quad_uv`).
    pub fn quad_uv_corners(self) -> (q: [[u8; 2]; 4])
        ensures
            forall|i: int| 0 <= i < 4 ==> (#[trigger] q@[i]@[0] as int, q@[i]@[1] as int) == quad_uv(i),
    {
        [[1, 1], [0, 1], [0, 0], [1, 0]]
    }

    /// The six vertices of the two triangles that draw the face, split
    /// across the given diagonal.
    pub fn triangle_corners(self, diagonal: TriangleDiagonal) -> (t: [[u8; 3]; 6])
        ensures
            forall|k: int| 0 <= k < 6 ==> (#[trigger] t@[k]@[0] as int, t@[k]@[1] as int, t@[k]@[2] as int)
                == quad_corner(self, triangle_corner(diagonal, k)),
    {
        let q = self.quad_corners();
        let idx = diagonal.corner_indices();
        let mut t: [[u8; 3]; 6] = [[0, 0, 0]; 6];
        let mut k: usize = 0;
        while k < 6
            invariant
                k <= 6,
                forall|i: int| 0 <= i < 4 ==> (#[trigger] q@[i]@[0] as int, q@[i]@[1] as int, q@[i]@[2] as int) == quad_corner(self, i),
                forall|j: int| 0 <= j < 6 ==> #[trigger] idx@[j] == triangle_corner(diagonal, j),
                forall|j: int| 0 <= j < k ==> (#[trigger] t@[j]@[0] as int, t@[j]@[1] as int, t@[j]@[2] as int)
                    == quad_corner(self, triangle_corner(diagonal, j)),
            decreases 6 - k,
        {
            let c = idx[k];
            assert(idx@[k as int] == triangle_corner(diagonal, k as int));
            assert(0 <= c < 4);
            t[k] = q[c];
            k = k + 1;
        }
        t
    }

    /// The two axes (0 for x, 1 for y, 2 for z) that carry the texture's u
    /// and v on the face: x and z on the top and bottom, x and y on north and
    /// south, z and y on east and west.
    pub fn uv_axes(self) -> (a: (usize, usize))
        ensures
            a == face_uv_axes(self),
    {
        match self {
            VoxelFace::Top | VoxelFace::Bottom => (0, 2),
            VoxelFace::North | VoxelFace::South => (0, 1),
            VoxelFace::East | VoxelFace::West => (2, 1),
        }
    }

    /// The texture coordinates of the six triangle vertices.
    pub fn triangle_uv_corners(self, diagonal: TriangleDiagonal) -> (t: [[u8; 2]; 6])
        ensures
            forall|k: int| 0 <= k < 6 ==> (#[trigger] t@[k]@[0] as int, t@[k]@[1] as int) == quad_uv(triangle_corner(diagonal, k)),
    {
        let q = self.quad_uv_corners();
        let idx = diagonal.corner_indices();
        let mut t: [[u8; 2]; 6] = [[0, 0]; 6];
        let mut k: usize = 0;
        while k < 6
            invariant
                k <= 6,
                forall|i: int| 0 <= i < 4 ==> (#[trigger] q@[i]@[0] as int, q@[i]@[1] as int) == quad_uv(i),
                forall|j: int| 0 <= j < 6 ==> #[trigger] idx@[j] == triangle_corner(diagonal, j),
                forall|j: int| 0 <= j < k ==> (#[trigger] t@[j]@[0] as int, t@[j]@[1] as int)
                    == quad_uv(triangle_corner(diagonal, j)),
            decreases 6 - k,
        {
            let c = idx[k];
            assert(idx@[k as int] == triangle_corner(diagonal, k as int));
            t[k] = q[c];
            k = k + 1;
        }
        t
    }
}

/// The axes carrying a face's texture coordinates (see `VoxelFace::uv_axes`).
pub open spec fn face_uv_axes(face: VoxelFace) -> (usize, usize) {
    match face {
        VoxelFace::Top | VoxelFace::Bottom => (0usize, 2usize),
        VoxelFace::North | VoxelFace::South => (0usize, 1usize),
        VoxelFace::East | VoxelFace::West => (2usize, 1usize),
    }
}

/// A face's texture axes are the two axes along which its quad spans: both
/// differ from the face's normal axis.
pub proof fn law_uv_axes_span_the_face(face: VoxelFace)
    ensures
        ({
            let (u, v) = face_uv_axes(face);
            let n = face_normal(face);
            let normal_axis: usize = if n.0 != 0 { 0 } else if n.1 != 0 { 1 } else { 2 };
            u != v && u != normal_axis && v != normal_axis
        }),
{
}

/// The cross product of `b - a` and `c - a`: twice the oriented area of the
/// triangle a, b, c, along its normal by the right-hand rule.
pub open spec fn triangle_cross(a: (int, int, int), b: (int, int, int), c: (int, int, int)) -> (int, int, int) {
    let u = (b.0 - a.0, b.1 - a.1, b.2 - a.2);
    let v = (c.0 - a.0, c.1 - a.1, c.2 - a.2);
    (u.1 * v.2 - u.2 * v.1, u.2 * v.0 - u.0 * v.2, u.0 * v.1 - u.1 * v.0)
}

/// The winding of the face's triangles, for the four corner triples that
/// the two diagonals use.
pub open spec fn winds_inward(f: VoxelFace, j0: int, j1: int, j2: int) -> bool {
    triangle_cross(quad_corner(f, j0), quad_corner(f, j1), quad_corner(f, j2))
        == (-face_normal(f).0 as int, -face_normal(f).1 as int, -face_normal(f).2 as int)
}

proof fn lemma_face_cross(f: VoxelFace)
    ensures
        winds_inward(f, 0, 1, 2),
        winds_inward(f, 0, 2, 3),
        winds_inward(f, 0, 1, 3),
        winds_inward(f, 1, 2, 3),
{
    match f {
        VoxelFace::Top => {
            assert(winds_inward(VoxelFace::Top, 0, 1, 2)) by (nonlinear_arith);
            assert(winds_inward(VoxelFace::Top, 0, 2, 3)) by (nonlinear_arith);
            assert(winds_inward(VoxelFace::Top, 0, 1, 3)) by (nonlinear_arith);
            assert(winds_inward(VoxelFace::Top, 1, 2, 3)) by (nonlinear_arith);
        },
        VoxelFace::Bottom => {
            assert(winds_inward(VoxelFace::Bottom, 0, 1, 2)) by (nonlinear_arith);
            assert(winds_inward(VoxelFace::Bottom, 0, 2, 3)) by (nonlinear_arith);
            assert(winds_inward(VoxelFace::Bottom, 0, 1, 3)) by (nonlinear_arith);
            assert(winds_inward(VoxelFace::Bottom, 1, 2, 3)) by (nonlinear_arith);
        },
        VoxelFace::North => {
            assert(winds_inward(VoxelFace::North, 0, 1, 2)) by (nonlinear_arith);
            assert(winds_inward(VoxelFace::North, 0, 2, 3)) by (nonlinear_arith);
            assert(winds_inward(VoxelFace::North, 0, 1, 3)) by (nonlinear_arith);
            assert(winds_inward(VoxelFace::North, 1, 2, 3)) by (nonlinear_arith);
        },
        VoxelFace::South => {
            assert(winds_inward(VoxelFace::South, 0, 1, 2)) by (nonlinear_arith);
            assert(winds_inward(VoxelFace::South, 0, 2, 3)) by (nonlinear_arith);
            assert(winds_inward(VoxelFace::South, 0, 1, 3)) by (nonlinear_arith);
            assert(winds_inward(VoxelFace::South, 1, 2, 3)) by (nonlinear_arith);
        },
        VoxelFace::East => {
            assert(winds_inward(VoxelFace::East, 0, 1, 2)) by (nonlinear_arith);
            assert(winds_inward(VoxelFace::East, 0, 2, 3)) by (nonlinear_arith);
            assert(winds_inward(VoxelFace::East, 0, 1, 3)) by (nonlinear_arith);
            assert(winds_inward(VoxelFace::East, 1, 2, 3)) by (nonlinear_arith);
        },
        VoxelFace::West => {
            assert(winds_inward(VoxelFace::West, 0, 1, 2)) by (nonlinear_arith);
            assert(winds_inward(VoxelFace::West, 0, 2, 3)) by (nonlinear_arith);
            assert(winds_inward(VoxelFace::West, 0, 1, 3)) by (nonlinear_arith);
            assert(winds_inward(VoxelFace::West, 1, 2, 3)) by (nonlinear_arith);
        },
    }
}

/// Every face's quad lies in the face's side of the unit cube: the
/// coordinate along the face's axis is 1 on the positive side and 0 on the
/// negative one.
pub proof fn law_quad_on_face(face: VoxelFace, i: int)
    requires
        0 <= i < 4,
    ensures
        ({
            let n = face_normal(face);
            let c = quad_corner(face, i);
            (n.0 != 0 ==> c.0 == if n.0 > 0 { 1int } else { 0int })
                && (n.1 != 0 ==> c.1 == if n.1 > 0 { 1int } else { 0int })
                && (n.2 != 0 ==> c.2 == if n.2 > 0 { 1int } else { 0int })
        }),
{
}

/// All triangles of all faces wind the same way, whichever the diagonal:
/// by the right-hand rule each triangle's normal is the face's normal
/// reversed, with the area of half a unit square.
pub proof fn law_triangle_winding(face: VoxelFace, diagonal: TriangleDiagonal, t: int)
    requires
        0 <= t < 2,
    ensures
        ({
            let a = quad_corner(face, triangle_corner(diagonal, 3 * t));
            let b = quad_corner(face, triangle_corner(diagonal, 3 * t + 1));
            let c = quad_corner(face, triangle_corner(diagonal, 3 * t + 2));
            let n = face_normal(face);
            triangle_cross(a, b, c) == (-n.0 as int, -n.1 as int, -n.2 as int)
        }),
{
    lemma_face_cross(face);
    assert(winds_inward(face, triangle_corner(diagonal, 3 * t), triangle_corner(diagonal, 3 * t + 1),
        triangle_corner(diagonal, 3 * t + 2)));
}

/// The two triangles of a face together use all four corners of its quad,
/// and share exactly the two corners of the diagonal.
pub proof fn law_triangles_cover_quad(diagonal: TriangleDiagonal, i: int)
    requires
        0 <= i < 4,
    ensures
        exists|k: int| 0 <= k < 6 && triangle_corner(diagonal, k) == i,
        (exists|k: int| 0 <= k < 3 && triangle_corner(diagonal, k) == i)
            && (exists|k: int| 3 <= k < 6 && triangle_corner(diagonal, k) == i)
            <==> (match diagonal {
                TriangleDiagonal::Primary => i == 0 || i == 2,
                TriangleDiagonal::Secondary => i == 1 || i == 3,
            }),
{
    let w = |k: int| triangle_corner(diagonal, k);
    assert(w(0) == 0 && w(1) == 1 && w(5) == 3);
    match diagonal {
        TriangleDiagonal::Primary => {
            assert(w(2) == 2 && w(3) == 0 && w(4) == 2);
        },
        TriangleDiagonal::Secondary => {
            assert(w(2) == 3 && w(3) == 1 && w(4) == 2);
        },
    }
}

} // verus!
