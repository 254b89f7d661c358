use vstd::prelude::*;
use crate::renderer::culling::{VoxelRef, face_visible, should_render_face};
use crate::util::text::{join, owned};
use crate::voxel::face::{VoxelFace, face_index, all_faces};
use crate::voxel::model::{ResolvedBlockModel, ResolvedElementFace, ResolvedModelElement};
use crate::voxel::registry::{VoxelRegistry, resolved_named};

verus! {

/// A face of a block model to draw: the element it belongs to, which face,
/// and its texture in the atlas.
#[derive(Clone, Copy, PartialEq, Eq, Debug, Structural)]
pub struct FaceDraw {
    pub element: usize,
    pub face: VoxelFace,
    pub texture_id: usize,
}

/// The face whose neighbour decides whether an element face is drawn: its
/// cull face, or the face itself.
pub open spec fn cull_face_of(face: VoxelFace, rf: ResolvedElementFace) -> VoxelFace {
    match rf.cull_face {
        Some(c) => c,
        None => face,
    }
}

/// The draw of one face slot of element `e`: the face when it is enabled and
/// visible next to the neighbour across its cull face (`neighbors` is
/// indexed by `face_index`), nothing otherwise.
pub open spec fn slot_draw(slot: Option<ResolvedElementFace>, e: int, face: VoxelFace, current: VoxelRef, neighbors: Seq<VoxelRef>) -> Seq<FaceDraw> {
    match slot {
        Some(rf) => if rf.enabled && face_visible(current, neighbors[face_index(cull_face_of(face, rf))]) {
            seq![FaceDraw { element: e as usize, face, texture_id: rf.texture_id }]
        } else {
            Seq::empty()
        },
        None => Seq::empty(),
    }
}

/// The draws of the first `k` face slots of element `e`, in face order.
pub open spec fn element_draws(slots: Seq<Option<ResolvedElementFace>>, e: int, current: VoxelRef, neighbors: Seq<VoxelRef>, k: int) -> Seq<FaceDraw>
    decreases k,
{
    if k <= 0 {
        Seq::empty()
    } else {
        element_draws(slots, e, current, neighbors, k - 1) + slot_draw(slots[k - 1], e, all_faces()[k - 1], current, neighbors)
    }
}

/// The draws of the first `n` elements of the model, in element order.
pub open spec fn model_draws(model: ResolvedBlockModel, current: VoxelRef, neighbors: Seq<VoxelRef>, n: int) -> Seq<FaceDraw>
    decreases n,
{
    if n <= 0 {
        Seq::empty()
    } else {
        model_draws(model, current, neighbors, n - 1) + element_draws(model.elements@[n - 1].slots(), n - 1, current, neighbors, 6)
    }
}

/// The faces of a block's model to draw, element by element and face by
/// face (see `model_draws`): `neighbors` holds the voxel across each face of
/// the block, by `face_index`.
pub fn faces_to_draw(model: &ResolvedBlockModel, current: VoxelRef, neighbors: &[VoxelRef; 6]) -> (r: Vec<FaceDraw>)
    requires
        forall|i: int| 0 <= i < model.elements.len() ==> (#[trigger] model.elements@[i]).wf(),
    ensures
        r@ == model_draws(*model, current, neighbors@, model.elements.len() as int),
{
    let mut r: Vec<FaceDraw> = Vec::new();
    let mut e: usize = 0;
    while e < model.elements.len()
        invariant
            e <= model.elements.len(),
            forall|i: int| 0 <= i < model.elements.len() ==> (#[trigger] model.elements@[i]).wf(),
            r@ == model_draws(*model, current, neighbors@, e as int),
        decreases model.elements.len() - e,
    {
        let element = &model.elements[e];
        let ghost before = r@;
        let mut k: usize = 0;
        while k < 6
            invariant
                k <= 6,
                e < model.elements.len(),
                *element == model.elements@[e as int],
                element.wf(),
                r@ == before + element_draws(element.slots(), e as int, current, neighbors@, k as int),
            decreases 6 - k,
        {
            let face = VoxelFace::ALL[k];
            assert(face == all_faces()[k as int]);
            let slot = element.get(face);
            let ghost prev = r@;
            match slot {
                Some(rf) => {
                    let cull = match rf.cull_face {
                        Some(c) => c,
                        None => face,
                    };
                    if rf.enabled && should_render_face(current, neighbors[cull.index()]) {
                        r.push(FaceDraw { element: e, face, texture_id: rf.texture_id });
                    }
                },
                None => {},
            }
            proof {
                assert(r@ =~= prev + slot_draw(element.slots()[k as int], e as int, face, current, neighbors@));
                assert(before + element_draws(element.slots(), e as int, current, neighbors@, k as int + 1)
                    =~= before + element_draws(element.slots(), e as int, current, neighbors@, k as int)
                        + slot_draw(element.slots()[k as int], e as int, face, current, neighbors@));
            }
            k = k + 1;
        }
        e = e + 1;
    }
    r
}

/// The resolved model of block `id`: the one named by its definition, if
/// the registry has it.
pub fn block_model(registry: &VoxelRegistry, id: usize) -> (r: Option<&ResolvedBlockModel>)
    ensures
        match r {
            Some(m) => id < registry.defs().len()
                && (registry.defs()[id as int].model_name matches Some(n)
                    && resolved_named(registry.resolved(), n@) matches Some(i) && *m == registry.resolved()[i]),
            None => !(id < registry.defs().len()
                && (registry.defs()[id as int].model_name matches Some(n)
                    && resolved_named(registry.resolved(), n@) is Some)),
        },
{
    match registry.get(id) {
        Some(def) => match &def.model_name {
            Some(name) => registry.get_resolved_model(name.as_str()),
            None => None,
        },
        None => None,
    }
}

/// The model used for a block that has none: a full cube named after the
/// block (`fallback_` and its string id, or `fallback_stone` for an unknown
/// id), drawn with the first texture, opaque and colliding.
pub fn fallback_cube_model(registry: &VoxelRegistry, id: usize) -> (m: ResolvedBlockModel)
    ensures
        m.name@ == "fallback_"@ + if id < registry.defs().len() { registry.defs()[id as int].string_id@ } else { "stone"@ },
        m.elements.len() == 1,
        m.elements@[0].wf(),
        forall|f: VoxelFace| #[trigger] m.elements@[0].slots()[face_index(f)]
            == Some(ResolvedElementFace { texture_id: 0, enabled: true, cull_face: Some(f) }),
        m.render_type@ == "opaque"@,
        m.collidable,
{
    let name = match registry.get(id) {
        Some(def) => join("fallback_", def.string_id.as_str()),
        None => join("fallback_", "stone"),
    };
    let mut elements: Vec<ResolvedModelElement> = Vec::new();
    elements.push(ResolvedModelElement::cube_faces(0));
    ResolvedBlockModel { name, elements, render_type: owned("opaque"), collidable: true }
}

proof fn lemma_hidden_element(slots: Seq<Option<ResolvedElementFace>>, e: int, current: VoxelRef, neighbors: Seq<VoxelRef>, k: int)
    requires
        neighbors.len() == 6,
        forall|i: int| 0 <= i < 6 ==> (#[trigger] neighbors[i]).render_type == crate::voxel::registry::RenderType::Opaque,
    ensures
        element_draws(slots, e, current, neighbors, k) == Seq::<FaceDraw>::empty(),
    decreases k,
{
    if k > 0 {
        lemma_hidden_element(slots, e, current, neighbors, k - 1);
        let face = all_faces()[k - 1];
        match slots[k - 1] {
            Some(rf) => {
                let c = cull_face_of(face, rf);
                assert(neighbors[face_index(c)].render_type == crate::voxel::registry::RenderType::Opaque);
            },
            None => {},
        }
        assert(element_draws(slots, e, current, neighbors, k) =~= Seq::<FaceDraw>::empty());
    }
}

/// A block enclosed by opaque blocks on all six sides draws no face,
/// whatever its model.
pub proof fn law_enclosed_block_draws_nothing(model: ResolvedBlockModel, current: VoxelRef, neighbors: Seq<VoxelRef>, n: int)
    requires
        neighbors.len() == 6,
        forall|i: int| 0 <= i < 6 ==> (#[trigger] neighbors[i]).render_type == crate::voxel::registry::RenderType::Opaque,
    ensures
        model_draws(model, current, neighbors, n) == Seq::<FaceDraw>::empty(),
    decreases n,
{
    if n > 0 {
        law_enclosed_block_draws_nothing(model, current, neighbors, n - 1);
        lemma_hidden_element(model.elements@[n - 1].slots(), n - 1, current, neighbors, 6);
        assert(model_draws(model, current, neighbors, n) =~= Seq::<FaceDraw>::empty());
    }
}

/// Next to air, every enabled face of the model is drawn: a block alone in
/// the air shows each face its model has.
pub proof fn law_faces_next_to_air_are_drawn(slot: Option<ResolvedElementFace>, e: int, face: VoxelFace, current: VoxelRef, neighbors: Seq<VoxelRef>)
    requires
        neighbors.len() == 6,
        forall|i: int| 0 <= i < 6 ==> (#[trigger] neighbors[i]).render_type == crate::voxel::registry::RenderType::Invisible,
        slot matches Some(rf) && rf.enabled,
    ensures
        slot_draw(slot, e, face, current, neighbors).len() == 1,
{
    let rf = slot->0;
    assert(neighbors[face_index(cull_face_of(face, rf))].render_type == crate::voxel::registry::RenderType::Invisible);
}

} // verus!
