use vstd::prelude::*;
use crate::voxel::face::{VoxelFace, face_index, all_faces};
use crate::util::text::{owned, str_eq};

verus! {

/// A face of a model element before its texture is resolved.
pub struct ElementFace {
    /// The texture: a texture name, or `#key` for the model's texture
    /// variable `key`.
    pub texture: String,
    /// Whether the face is generated.
    pub enabled: bool,
    /// The face of the voxel whose neighbour decides culling.
    pub cull_face: Option<VoxelFace>,
}

/// An element face as plain values: texture, enabled, cull face.
pub type FaceView = (Seq<char>, bool, Option<VoxelFace>);

/// The plain values of an element face.
pub open spec fn face_view(f: ElementFace) -> FaceView {
    (f.texture@, f.enabled, f.cull_face)
}

/// Faces are enabled unless the configuration says otherwise.
pub fn default_element_face_enabled() -> (b: bool)
    ensures
        b,
{
    true
}

impl ElementFace {
    /// An enabled face with a texture and no cull face.
    pub fn new(texture: &str) -> (f: ElementFace)
        ensures
            face_view(f) == (texture@, true, None::<VoxelFace>),
    {
        ElementFace { texture: owned(texture), enabled: true, cull_face: None }
    }

    /// A disabled face, with an empty texture.
    pub fn disabled() -> (f: ElementFace)
        ensures
            face_view(f) == (Seq::<char>::empty(), false, None::<VoxelFace>),
    {
        ElementFace { texture: String::new(), enabled: false, cull_face: None }
    }

    /// The same face culled against the neighbour through `face`.
    pub fn with_cull_face(self, face: VoxelFace) -> (f: ElementFace)
        ensures
            face_view(f) == (face_view(self).0, face_view(self).1, Some(face)),
    {
        let mut s = self;
        s.cull_face = Some(face);
        s
    }

    /// A fresh copy.
    pub fn copy(&self) -> (f: ElementFace)
        ensures
            face_view(f) == face_view(*self),
    {
        ElementFace { texture: self.texture.clone(), enabled: self.enabled, cull_face: self.cull_face }
    }
}

/// An element face with its texture resolved to an atlas texture id.
#[derive(Clone, Copy, PartialEq, Eq, Debug, Structural)]
pub struct ResolvedElementFace {
    pub texture_id: usize,
    pub enabled: bool,
    pub cull_face: Option<VoxelFace>,
}

/// A face list entry as plain values.
pub type FaceEntry = (VoxelFace, FaceView);

/// An element (a cuboid of the model) as far as texturing goes: its list
/// of faces. Its bounds are geometry and are kept beside it.
pub struct ModelElement {
    pub faces: Vec<(VoxelFace, ElementFace)>,
}

/// The plain values of an element's faces.
pub open spec fn element_view(e: ModelElement) -> Seq<FaceEntry> {
    e.faces@.map_values(|p: (VoxelFace, ElementFace)| (p.0, face_view(p.1)))
}

/// The definition of the first entry for `face`, if any.
pub open spec fn first_entry(faces: Seq<FaceEntry>, face: VoxelFace) -> Option<FaceView>
    decreases faces.len(),
{
    if faces.len() == 0 {
        None
    } else if faces[0].0 == face {
        Some(faces[0].1)
    } else {
        first_entry(faces.subrange(1, faces.len() as int), face)
    }
}

proof fn lemma_first_entry_step(faces: Seq<FaceEntry>, i: int, face: VoxelFace)
    requires
        0 <= i < faces.len(),
        forall|k: int| 0 <= k < i ==> (#[trigger] faces[k]).0 != face,
    ensures
        first_entry(faces, face) == first_entry(faces.subrange(i, faces.len() as int), face),
    decreases i,
{
    if i > 0 {
        let rest = faces.subrange(1, faces.len() as int);
        assert(faces[0].0 != face);
        assert forall|k: int| 0 <= k < i - 1 implies (#[trigger] rest[k]).0 != face by {
            assert(rest[k] == faces[k + 1]);
        }
        lemma_first_entry_step(rest, i - 1, face);
        assert(rest.subrange(i - 1, rest.len() as int) =~= faces.subrange(i, faces.len() as int));
    } else {
        assert(faces.subrange(0, faces.len() as int) =~= faces);
    }
}

proof fn lemma_first_entry_none(faces: Seq<FaceEntry>, face: VoxelFace)
    requires
        forall|k: int| 0 <= k < faces.len() ==> (#[trigger] faces[k]).0 != face,
    ensures
        first_entry(faces, face) is None,
    decreases faces.len(),
{
    if faces.len() > 0 {
        let rest = faces.subrange(1, faces.len() as int);
        assert forall|k: int| 0 <= k < rest.len() implies (#[trigger] rest[k]).0 != face by {
            assert(rest[k] == faces[k + 1]);
        }
        lemma_first_entry_none(rest, face);
    }
}

impl ModelElement {
    /// Index of the first entry for `face`.
    fn find_face(&self, face: VoxelFace) -> (r: Option<usize>)
        ensures
            match r {
                Some(i) => i < self.faces.len() && self.faces@[i as int].0 == face
                    && first_entry(element_view(*self), face) == Some(face_view(self.faces@[i as int].1)),
                None => first_entry(element_view(*self), face) is None,
            },
    {
        let ghost v = element_view(*self);
        let mut i: usize = 0;
        while i < self.faces.len()
            invariant
                i <= self.faces.len(),
                v == element_view(*self),
                forall|k: int| 0 <= k < i ==> (#[trigger] v[k]).0 != face,
            decreases self.faces.len() - i,
        {
            if self.faces[i].0 == face {
                proof {
                    lemma_first_entry_step(v, i as int, face);
                }
                return Some(i);
            }
            i = i + 1;
        }
        proof {
            lemma_first_entry_none(v, face);
        }
        None
    }

    /// Whether the first entry for `face` exists and is enabled.
    pub fn has_face(&self, face: VoxelFace) -> (b: bool)
        ensures
            b == match first_entry(element_view(*self), face) {
                Some(f) => f.1,
                None => false,
            },
    {
        match self.find_face(face) {
            Some(i) => self.faces[i].1.enabled,
            None => false,
        }
    }

    /// The first entry for `face`, if it is enabled.
    pub fn get_face(&self, face: VoxelFace) -> (r: Option<&ElementFace>)
        ensures
            match r {
                Some(f) => first_entry(element_view(*self), face) == Some(face_view(*f)) && f.enabled,
                None => match first_entry(element_view(*self), face) {
                    Some(f) => !f.1,
                    None => true,
                },
            },
    {
        match self.find_face(face) {
            Some(i) => {
                if self.faces[i].1.enabled {
                    Some(&self.faces[i].1)
                } else {
                    None
                }
            },
            None => None,
        }
    }
}

/// The texture named `key` in a list of texture variables (first match).
pub open spec fn lookup_texture(textures: Seq<(Seq<char>, Seq<char>)>, key: Seq<char>) -> Option<Seq<char>>
    decreases textures.len(),
{
    if textures.len() == 0 {
        None
    } else if textures[0].0 == key {
        Some(textures[0].1)
    } else {
        lookup_texture(textures.subrange(1, textures.len() as int), key)
    }
}

/// How a texture reference resolves: `#key` to the texture variable `key`
/// (none if the model has no such variable); anything else to itself.
pub open spec fn resolve_reference(textures: Seq<(Seq<char>, Seq<char>)>, r: Seq<char>) -> Option<Seq<char>> {
    if r.len() > 0 && r[0] == '#' {
        lookup_texture(textures, r.subrange(1, r.len() as int))
    } else {
        Some(r)
    }
}

/// The textures that the enabled faces of an element use, in face order.
pub open spec fn element_textures(textures: Seq<(Seq<char>, Seq<char>)>, faces: Seq<FaceEntry>) -> Seq<Seq<char>> {
    faces.filter_map(|e: FaceEntry| if e.1.1 { resolve_reference(textures, e.1.0) } else { None })
}

/// The textures that the enabled faces of a model use, element by element.
pub open spec fn model_texture_refs(textures: Seq<(Seq<char>, Seq<char>)>, elements: Seq<Seq<FaceEntry>>) -> Seq<Seq<char>>
    decreases elements.len(),
{
    if elements.len() == 0 {
        Seq::empty()
    } else {
        model_texture_refs(textures, elements.drop_last()) + element_textures(textures, elements.last())
    }
}

/// A list with each value kept at its first occurrence only.
pub open spec fn unique_in_order(s: Seq<Seq<char>>) -> Seq<Seq<char>>
    decreases s.len(),
{
    if s.len() == 0 {
        Seq::empty()
    } else {
        let prev = unique_in_order(s.drop_last());
        if prev.contains(s.last()) {
            prev
        } else {
            prev.push(s.last())
        }
    }
}

/// The id of a texture name in a texture map (first match).
pub open spec fn lookup_id(map: Seq<(Seq<char>, usize)>, name: Seq<char>) -> Option<usize>
    decreases map.len(),
{
    if map.len() == 0 {
        None
    } else if map[0].0 == name {
        Some(map[0].1)
    } else {
        lookup_id(map.subrange(1, map.len() as int), name)
    }
}

/// The definition of the last enabled entry for `face`, if any.
pub open spec fn last_enabled(faces: Seq<FaceEntry>, face: VoxelFace) -> Option<FaceView>
    decreases faces.len(),
{
    if faces.len() == 0 {
        None
    } else if faces.last().0 == face && faces.last().1.1 {
        Some(faces.last().1)
    } else {
        last_enabled(faces.drop_last(), face)
    }
}

/// A resolved face: its texture resolved by the model's variables ("stone"
/// when that fails), then looked up in the texture map (0 when absent).
pub open spec fn resolve_face(
    textures: Seq<(Seq<char>, Seq<char>)>,
    map: Seq<(Seq<char>, usize)>,
    f: FaceView,
) -> ResolvedElementFace {
    let name = match resolve_reference(textures, f.0) {
        Some(n) => n,
        None => "stone"@,
    };
    ResolvedElementFace {
        texture_id: match lookup_id(map, name) {
            Some(id) => id,
            None => 0,
        },
        enabled: true,
        cull_face: f.2,
    }
}

/// A model element with resolved faces, one slot per face.
pub struct ResolvedModelElement {
    faces: Vec<Option<ResolvedElementFace>>,
}

impl ResolvedModelElement {
    /// One slot per face.
    pub closed spec fn wf(&self) -> bool {
        self.faces.len() == 6
    }

    /// The resolved face in each slot, by `face_index`.
    pub closed spec fn slots(&self) -> Seq<Option<ResolvedElementFace>> {
        self.faces@
    }

    /// A full cube: every face drawn with `texture_id` and culled by the
    /// neighbour across it.
    pub fn cube_faces(texture_id: usize) -> (e: ResolvedModelElement)
        ensures
            e.wf(),
            forall|f: VoxelFace| #[trigger] e.slots()[face_index(f)]
                == Some(ResolvedElementFace { texture_id, enabled: true, cull_face: Some(f) }),
    {
        let mut faces: Vec<Option<ResolvedElementFace>> = Vec::new();
        let mut k: usize = 0;
        while k < 6
            invariant
                k <= 6,
                faces.len() == k,
                forall|j: int| 0 <= j < k ==> #[trigger] faces@[j]
                    == Some(ResolvedElementFace { texture_id, enabled: true, cull_face: Some(all_faces()[j]) }),
            decreases 6 - k,
        {
            let f = VoxelFace::ALL[k];
            faces.push(Some(ResolvedElementFace { texture_id, enabled: true, cull_face: Some(f) }));
            k = k + 1;
        }
        let e = ResolvedModelElement { faces };
        assert forall|f: VoxelFace| #[trigger] e.slots()[face_index(f)]
            == Some(ResolvedElementFace { texture_id, enabled: true, cull_face: Some(f) }) by {
            assert(all_faces()[face_index(f)] == f);
        }
        e
    }

    /// The resolved face for `face`, if the element has one.
    pub fn get(&self, face: VoxelFace) -> (r: Option<ResolvedElementFace>)
        requires
            self.wf(),
        ensures
            r == self.slots()[face_index(face)],
    {
        self.faces[face.index()]
    }
}

/// A block model: texture variables and elements.
pub struct BlockModel {
    pub name: String,
    /// Texture variables: (key, texture name).
    pub textures: Vec<(String, String)>,
    pub elements: Vec<ModelElement>,
    pub render_type: String,
    pub collidable: bool,
}

/// A model with every face texture resolved to an atlas id.
pub struct ResolvedBlockModel {
    pub name: String,
    pub elements: Vec<ResolvedModelElement>,
    pub render_type: String,
    pub collidable: bool,
}

/// The texture variables of a model as plain values.
pub open spec fn textures_view(m: BlockModel) -> Seq<(Seq<char>, Seq<char>)> {
    m.textures@.map_values(|p: (String, String)| (p.0@, p.1@))
}

/// The elements of a model as plain values.
pub open spec fn elements_view(m: BlockModel) -> Seq<Seq<FaceEntry>> {
    m.elements@.map_values(|e: ModelElement| element_view(e))
}

/// A texture map as plain values.
pub open spec fn map_view(map: Seq<(String, usize)>) -> Seq<(Seq<char>, usize)> {
    map.map_values(|p: (String, usize)| (p.0@, p.1))
}

/// Whether `r` is `m` resolved against a texture map: same name, render
/// type and collision, and for each element and face the last enabled entry
/// resolved (see `resolve_face`), or nothing.
pub open spec fn is_resolution(m: BlockModel, map: Seq<(String, usize)>, r: ResolvedBlockModel) -> bool {
    &&& r.name@ == m.name@
    &&& r.render_type@ == m.render_type@
    &&& r.collidable == m.collidable
    &&& r.elements.len() == m.elements.len()
    &&& forall|i: int| 0 <= i < r.elements.len() ==> (#[trigger] r.elements@[i]).wf()
    &&& forall|i: int, f: VoxelFace| 0 <= i < r.elements.len() ==>
        #[trigger] r.elements@[i].slots()[face_index(f)] == match last_enabled(elements_view(m)[i], f) {
            Some(fd) => Some(resolve_face(textures_view(m), map_view(map), fd)),
            None => None::<ResolvedElementFace>,
        }
}

impl BlockModel {
    /// A full cube whose six faces use the texture variable `texture`.
    pub fn cube(name: &str, texture: &str) -> (m: BlockModel)
        ensures
            m.name@ == name@,
            textures_view(m) == seq![("texture"@, texture@)],
            elements_view(m).len() == 1,
            elements_view(m)[0] == all_faces().map_values(|f: VoxelFace| (f, ("#texture"@, true, None::<VoxelFace>))),
            m.render_type@ == "opaque"@,
            m.collidable,
    {
        let mut faces: Vec<(VoxelFace, ElementFace)> = Vec::new();
        let mut i: usize = 0;
        while i < 6
            invariant
                i <= 6,
                faces.len() == i,
                forall|k: int| 0 <= k < i ==> (#[trigger] faces@[k]).0 == all_faces()[k]
                    && face_view(faces@[k].1) == ("#texture"@, true, None::<VoxelFace>),
            decreases 6 - i,
        {
            faces.push((VoxelFace::ALL[i], ElementFace::new("#texture")));
            i = i + 1;
        }
        let element = ModelElement { faces };
        let mut textures: Vec<(String, String)> = Vec::new();
        textures.push((owned("texture"), owned(texture)));
        let mut elements: Vec<ModelElement> = Vec::new();
        elements.push(element);
        let m = BlockModel { name: owned(name), textures, elements, render_type: owned("opaque"), collidable: true };
        proof {
            assert(textures_view(m) =~= seq![("texture"@, texture@)]);
            assert(element_view(m.elements@[0]) =~= all_faces().map_values(
                |f: VoxelFace| (f, ("#texture"@, true, None::<VoxelFace>)),
            ));
        }
        m
    }

    /// Resolves a texture reference (see `resolve_reference`).
    pub fn resolve_texture(&self, reference: &str) -> (r: Option<String>)
        ensures
            match r {
                Some(s) => resolve_reference(textures_view(*self), reference@) == Some(s@),
                None => resolve_reference(textures_view(*self), reference@) is None,
            },
    {
        let n = reference.unicode_len();
        if n > 0 && reference.get_char(0) == '#' {
            let key = reference.substring_char(1, n);
            let ghost tv = textures_view(*self);
            assert(tv.subrange(0, tv.len() as int) =~= tv);
            let mut i: usize = 0;
            while i < self.textures.len()
                invariant
                    i <= self.textures.len(),
                    tv == textures_view(*self),
                    n == reference@.len(),
                    n > 0 && reference@[0] == '#',
                    key@ == reference@.subrange(1, n as int),
                    lookup_texture(tv, key@) == lookup_texture(tv.subrange(i as int, tv.len() as int), key@),
                decreases self.textures.len() - i,
            {
                let ghost rest = tv.subrange(i as int, tv.len() as int);
                assert(rest.subrange(1, rest.len() as int) =~= tv.subrange(i as int + 1, tv.len() as int));
                assert(rest[0] == tv[i as int]);
                assert(tv[i as int] == (self.textures@[i as int].0@, self.textures@[i as int].1@));
                if str_eq(self.textures[i].0.as_str(), key) {
                    let t = self.textures[i].1.clone();
                    assert(t@ == tv[i as int].1);
                    assert(lookup_texture(rest, key@) == Some(rest[0].1));
                    return Some(t);
                }
                i = i + 1;
            }
            None
        } else {
            Some(owned(reference))
        }
    }

    /// The textures used by the enabled faces, each once, in the order of
    /// first use.
    pub fn get_used_textures(&self) -> (r: Vec<String>)
        ensures
            r@.map_values(|s: String| s@) == unique_in_order(
                model_texture_refs(textures_view(*self), elements_view(*self)),
            ),
    {
        let ghost tv = textures_view(*self);
        let ghost ev = elements_view(*self);
        let mut out: Vec<String> = Vec::new();
        let mut i: usize = 0;
        while i < self.elements.len()
            invariant
                i <= self.elements.len(),
                tv == textures_view(*self),
                ev == elements_view(*self),
                out@.map_values(|s: String| s@) == unique_in_order(model_texture_refs(tv, ev.take(i as int))),
            decreases self.elements.len() - i,
        {
            let element = &self.elements[i];
            let ghost fv = element_view(*element);
            assert(fv == ev[i as int]);
            let mut j: usize = 0;
            while j < element.faces.len()
                invariant
                    j <= element.faces.len(),
                    tv == textures_view(*self),
                    fv == element_view(*element),
                    out@.map_values(|s: String| s@) == unique_in_order(
                        model_texture_refs(tv, ev.take(i as int)) + element_textures(tv, fv.take(j as int)),
                    ),
                decreases element.faces.len() - j,
            {
                let ghost prefix = model_texture_refs(tv, ev.take(i as int)) + element_textures(tv, fv.take(j as int));
                proof {
                    assert(fv.take(j as int + 1).drop_last() =~= fv.take(j as int));
                    assert(fv.take(j as int + 1).last() == fv[j as int]);
                }
                let entry = &element.faces[j];
                assert(fv[j as int] == (entry.0, face_view(entry.1)));
                if entry.1.enabled {
                    match self.resolve_texture(entry.1.texture.as_str()) {
                        Some(tex) => {
                            let ghost full = prefix.push(tex@);
                            proof {
                                assert(model_texture_refs(tv, ev.take(i as int)) + element_textures(tv, fv.take(j as int + 1))
                                    =~= full);
                                assert(full.drop_last() =~= prefix);
                            }
                            if !contains_string(&out, tex.as_str()) {
                                let ghost before = out@.map_values(|s: String| s@);
                                out.push(tex);
                                proof {
                                    assert(out@.map_values(|s: String| s@) =~= before.push(full.last()));
                                }
                            }
                        },
                        None => {
                            proof {
                                assert(model_texture_refs(tv, ev.take(i as int)) + element_textures(tv, fv.take(j as int + 1))
                                    =~= prefix);
                            }
                        },
                    }
                } else {
                    proof {
                        assert(model_texture_refs(tv, ev.take(i as int)) + element_textures(tv, fv.take(j as int + 1))
                            =~= prefix);
                    }
                }
                j = j + 1;
            }
            proof {
                assert(fv.take(element.faces.len() as int) =~= fv);
                assert(ev.take(i as int + 1).drop_last() =~= ev.take(i as int));
                assert(ev.take(i as int + 1).last() == fv);
            }
            i = i + 1;
        }
        proof {
            assert(ev.take(self.elements.len() as int) =~= ev);
        }
        out
    }

    /// The model with each element's enabled faces resolved (see
    /// `resolve_face`); for a face listed more than once, the last enabled
    /// entry wins.
    pub fn resolve(&self, texture_map: &Vec<(String, usize)>) -> (r: ResolvedBlockModel)
        ensures
            is_resolution(*self, texture_map@, r),
    {
        let ghost tv = textures_view(*self);
        let ghost mv = map_view(texture_map@);
        let ghost ev = elements_view(*self);
        let mut elements: Vec<ResolvedModelElement> = Vec::new();
        let mut i: usize = 0;
        while i < self.elements.len()
            invariant
                i <= self.elements.len(),
                tv == textures_view(*self),
                mv == map_view(texture_map@),
                ev == elements_view(*self),
                elements.len() == i,
                forall|k: int| 0 <= k < i ==> (#[trigger] elements@[k]).wf(),
                forall|k: int, f: VoxelFace| 0 <= k < i ==>
                    #[trigger] elements@[k].slots()[face_index(f)] == match last_enabled(ev[k], f) {
                        Some(fd) => Some(resolve_face(tv, mv, fd)),
                        None => None::<ResolvedElementFace>,
                    },
            decreases self.elements.len() - i,
        {
            let r = self.resolve_element(&self.elements[i], texture_map);
            assert(element_view(self.elements@[i as int]) == ev[i as int]);
            elements.push(r);
            i = i + 1;
        }
        ResolvedBlockModel {
            name: self.name.clone(),
            elements,
            render_type: self.render_type.clone(),
            collidable: self.collidable,
        }
    }

    fn resolve_element(&self, element: &ModelElement, texture_map: &Vec<(String, usize)>) -> (r: ResolvedModelElement)
        ensures
            r.wf(),
            forall|f: VoxelFace| #[trigger] r.slots()[face_index(f)] == match last_enabled(element_view(*element), f) {
                Some(fd) => Some(resolve_face(textures_view(*self), map_view(texture_map@), fd)),
                None => None::<ResolvedElementFace>,
            },
    {
        let ghost tv = textures_view(*self);
        let ghost mv = map_view(texture_map@);
        let ghost fv = element_view(*element);
        let mut slots: Vec<Option<ResolvedElementFace>> = Vec::new();
        let mut k: usize = 0;
        while k < 6
            invariant
                k <= 6,
                slots.len() == k,
                forall|m: int| 0 <= m < k ==> (#[trigger] slots@[m]) is None,
            decreases 6 - k,
        {
            slots.push(None);
            k = k + 1;
        }
        let mut j: usize = 0;
        while j < element.faces.len()
            invariant
                j <= element.faces.len(),
                tv == textures_view(*self),
                mv == map_view(texture_map@),
                fv == element_view(*element),
                slots.len() == 6,
                forall|f: VoxelFace| #[trigger] slots@[face_index(f)] == match last_enabled(fv.take(j as int), f) {
                    Some(fd) => Some(resolve_face(tv, mv, fd)),
                    None => None::<ResolvedElementFace>,
                },
            decreases element.faces.len() - j,
        {
            proof {
                assert(fv.take(j as int + 1).drop_last() =~= fv.take(j as int));
                assert(fv.take(j as int + 1).last() == fv[j as int]);
            }
            let entry = &element.faces[j];
            assert(fv[j as int] == (entry.0, face_view(entry.1)));
            if entry.1.enabled {
                let name = match self.resolve_texture(entry.1.texture.as_str()) {
                    Some(n) => n,
                    None => owned("stone"),
                };
                let id = match lookup_texture_id(texture_map, name.as_str()) {
                    Some(id) => id,
                    None => 0,
                };
                let resolved = ResolvedElementFace { texture_id: id, enabled: true, cull_face: entry.1.cull_face };
                assert(resolved == resolve_face(tv, mv, face_view(entry.1)));
                slots.set(entry.0.index(), Some(resolved));
                proof {
                    assert forall|f: VoxelFace| #[trigger] slots@[face_index(f)] == match last_enabled(fv.take(j as int + 1), f) {
                        Some(fd) => Some(resolve_face(tv, mv, fd)),
                        None => None::<ResolvedElementFace>,
                    } by {
                        if f != entry.0 {
                            assert(face_index(f) != face_index(entry.0));
                        }
                    }
                }
            }
            j = j + 1;
        }
        proof {
            assert(fv.take(element.faces.len() as int) =~= fv);
        }
        ResolvedModelElement { faces: slots }
    }

    /// Whether the model has no element.
    pub fn is_empty(&self) -> (b: bool)
        ensures
            b == (self.elements.len() == 0),
    {
        self.elements.len() == 0
    }
}

/// Whether a list of strings holds `s`.
pub fn contains_string(v: &Vec<String>, s: &str) -> (b: bool)
    ensures
        b == v@.map_values(|x: String| x@).contains(s@),
{
    let ghost view = v@.map_values(|x: String| x@);
    let mut i: usize = 0;
    while i < v.len()
        invariant
            i <= v.len(),
            view == v@.map_values(|x: String| x@),
            forall|k: int| 0 <= k < i ==> (#[trigger] view[k]) != s@,
        decreases v.len() - i,
    {
        if str_eq(v[i].as_str(), s) {
            assert(view[i as int] == s@);
            return true;
        }
        i = i + 1;
    }
    false
}

/// The id of a texture name in a texture map (first match).
pub fn lookup_texture_id(map: &Vec<(String, usize)>, name: &str) -> (r: Option<usize>)
    ensures
        r == lookup_id(map_view(map@), name@),
{
    let ghost mv = map_view(map@);
    assert(mv.subrange(0, mv.len() as int) =~= mv);
    let mut i: usize = 0;
    while i < map.len()
        invariant
            i <= map.len(),
            mv == map_view(map@),
            lookup_id(mv, name@) == lookup_id(mv.subrange(i as int, mv.len() as int), name@),
        decreases map.len() - i,
    {
        let ghost rest = mv.subrange(i as int, mv.len() as int);
        assert(rest.subrange(1, rest.len() as int) =~= mv.subrange(i as int + 1, mv.len() as int));
        assert(rest[0] == mv[i as int]);
        if str_eq(map[i].0.as_str(), name) {
            return Some(map[i].1);
        }
        i = i + 1;
    }
    None
}

/// The loaded block models, by name.
pub struct ModelLoader {
    models: Vec<BlockModel>,
}

/// The model named `name` among `models`: the last one added under that
/// name.
pub open spec fn model_named(models: Seq<BlockModel>, name: Seq<char>) -> Option<int>
    decreases models.len(),
{
    if models.len() == 0 {
        None
    } else if models.last().name@ == name {
        Some(models.len() - 1)
    } else {
        model_named(models.drop_last(), name)
    }
}

impl ModelLoader {
    /// The models added so far, in order.
    pub closed spec fn models(&self) -> Seq<BlockModel> {
        self.models@
    }

    /// No model.
    pub fn new() -> (l: ModelLoader)
        ensures
            l.models() == Seq::<BlockModel>::empty(),
    {
        ModelLoader { models: Vec::new() }
    }

    /// Adds a model under its name; it replaces any earlier model of that
    /// name.
    pub fn insert(&mut self, model: BlockModel)
        ensures
            final(self).models() == old(self).models().push(model),
    {
        self.models.push(model);
    }

    /// The model named `name`.
    pub fn get(&self, name: &str) -> (r: Option<&BlockModel>)
        ensures
            match r {
                Some(m) => model_named(self.models(), name@) matches Some(i) && *m == self.models()[i],
                None => model_named(self.models(), name@) is None,
            },
    {
        let mut i: usize = self.models.len();
        assert(self.models@.take(i as int) =~= self.models@);
        while i > 0
            invariant
                i <= self.models.len(),
                model_named(self.models@, name@) == model_named(self.models@.take(i as int), name@),
            decreases i,
        {
            proof {
                assert(self.models@.take(i as int).drop_last() =~= self.models@.take(i as int - 1));
            }
            if str_eq(self.models[i - 1].name.as_str(), name) {
                return Some(&self.models[i - 1]);
            }
            i = i - 1;
        }
        None
    }

    /// Every model added, in order (a name added twice appears twice).
    pub fn all_models(&self) -> (r: &[BlockModel])
        ensures
            r@ == self.models(),
    {
        self.models.as_slice()
    }
}

impl Default for ModelLoader {
    fn default() -> (l: ModelLoader)
        ensures
            l.models() == Seq::<BlockModel>::empty(),
    {
        ModelLoader::new()
    }
}

} // verus!
