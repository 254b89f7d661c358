use vstd::prelude::*;
use crate::voxel::chunk::GlobalVoxelId;
use crate::voxel::registry::{RenderType, VoxelRegistry};

verus! {

/// What meshing needs to know of a voxel.
#[derive(Clone, Copy, PartialEq, Eq, Debug, Structural)]
pub struct VoxelRef {
    /// The global id (0 is air).
    pub id: GlobalVoxelId,
    pub render_type: RenderType,
    /// Whether the voxel collides.
    pub collidable: bool,
}

impl VoxelRef {
    /// The air.
    pub fn air() -> (v: VoxelRef)
        ensures
            v == (VoxelRef { id: 0, render_type: RenderType::Invisible, collidable: false }),
    {
        VoxelRef { id: 0, render_type: RenderType::Invisible, collidable: false }
    }

    /// The voxel with this id as the registry describes it (unknown ids are
    /// invisible and do not collide).
    pub fn from_id(id: GlobalVoxelId, registry: &VoxelRegistry) -> (v: VoxelRef)
        ensures
            v.id == id,
            v.render_type == if id < registry.defs().len() {
                registry.defs()[id as int].render_type
            } else {
                RenderType::Invisible
            },
            v.collidable == (id < registry.defs().len() && registry.defs()[id as int].collidable),
    {
        VoxelRef { id, render_type: registry.get_render_type(id), collidable: registry.is_collidable(id) }
    }

    /// The voxel with this id when no registry is at hand: air for 0, an
    /// opaque colliding block otherwise.
    pub fn from_id_unchecked(id: GlobalVoxelId) -> (v: VoxelRef)
        ensures
            v.id == id,
            v.render_type == if id == 0 { RenderType::Invisible } else { RenderType::Opaque },
            v.collidable == (id != 0),
    {
        VoxelRef {
            id,
            render_type: if id == 0 { RenderType::Invisible } else { RenderType::Opaque },
            collidable: id != 0,
        }
    }

    /// Whether the voxel is air.
    pub fn is_air(self) -> (b: bool)
        ensures
            b == (self.id == 0),
    {
        self.id == 0
    }

    /// Whether the voxel hides the faces next to it.
    pub fn is_opaque(self) -> (b: bool)
        ensures
            b == (self.render_type == RenderType::Opaque),
    {
        self.render_type.culls_adjacent_faces()
    }

    /// Whether the voxel collides.
    pub fn is_solid(self) -> (b: bool)
        ensures
            b == self.collidable,
    {
        self.collidable
    }

    /// Whether the voxel is drawn.
    pub fn is_visible(self) -> (b: bool)
        ensures
            b == (self.render_type != RenderType::Invisible),
    {
        self.render_type.is_visible()
    }
}

/// Whether the face of `current` towards `neighbor` is drawn: always when
/// the neighbour is invisible; never when it is opaque; otherwise unless
/// both are the same opaque kind.
pub open spec fn face_visible(current: VoxelRef, neighbor: VoxelRef) -> bool {
    if neighbor.render_type == RenderType::Invisible {
        true
    } else if neighbor.render_type == RenderType::Opaque {
        false
    } else {
        !(current.id == neighbor.id && current.render_type == RenderType::Opaque)
    }
}

/// Whether the face of `current` towards `neighbor` is drawn (see
/// `face_visible`).
pub fn should_render_face(current: VoxelRef, neighbor: VoxelRef) -> (b: bool)
    ensures
        b == face_visible(current, neighbor),
{
    if !neighbor.is_visible() {
        return true;
    }
    if neighbor.is_opaque() {
        return false;
    }
    if current.id == neighbor.id && current.is_opaque() {
        return false;
    }
    true
}

/// A face is drawn next to air, hidden next to an opaque block, and between
/// two non-opaque visible blocks drawn on both sides.
pub proof fn law_face_culling(a: VoxelRef, b: VoxelRef)
    ensures
        b.render_type == RenderType::Invisible ==> face_visible(a, b),
        b.render_type == RenderType::Opaque ==> !face_visible(a, b),
        a.render_type != RenderType::Opaque && a.render_type != RenderType::Invisible
            && b.render_type != RenderType::Opaque && b.render_type != RenderType::Invisible
            ==> face_visible(a, b) && face_visible(b, a),
{
}

/// Only an opaque neighbour, or a neighbour of the same opaque kind,
/// hides a face: a face is culled exactly when the neighbour is opaque, or
/// when both voxels have the same id and the current one is opaque while
/// the neighbour is visible. In particular the face of a block towards a
/// visible, non-opaque neighbour of another kind (stone under water) is
/// drawn.
pub proof fn law_what_hides_a_face(a: VoxelRef, b: VoxelRef)
    ensures
        !face_visible(a, b) <==> (b.render_type == RenderType::Opaque
            || (b.render_type != RenderType::Invisible && a.id == b.id && a.render_type == RenderType::Opaque)),
        b.render_type != RenderType::Invisible && b.render_type != RenderType::Opaque && a.id != b.id
            ==> face_visible(a, b),
{
}

} // verus!
