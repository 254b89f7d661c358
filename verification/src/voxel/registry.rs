use vstd::prelude::*;
use crate::voxel::chunk::GlobalVoxelId;
use crate::voxel::model::{
    BlockModel, ModelLoader, ResolvedBlockModel, model_named, is_resolution, unique_in_order,
    model_texture_refs, textures_view, elements_view, contains_string,
};
use crate::util::text::{owned, str_eq, join, to_lowercase, str_lowercase};

verus! {

/// How a block is drawn, which decides how the faces next to it are culled.
#[derive(Clone, Copy, PartialEq, Eq, Debug, Structural)]
pub enum RenderType {
    /// Fully opaque: hides the faces next to it.
    Opaque,
    /// See-through but solid (glass, ice).
    Transparent,
    /// Alpha cut-out (leaves, grass).
    Cutout,
    /// Blended (water, stained glass).
    Translucent,
    /// Never drawn (air, triggers).
    Invisible,
}

impl Default for RenderType {
    fn default() -> (r: RenderType)
        ensures
            r == RenderType::Opaque,
    {
        RenderType::Opaque
    }
}

impl RenderType {
    /// Whether the block hides the faces next to it: only opaque blocks do.
    pub fn culls_adjacent_faces(&self) -> (b: bool)
        ensures
            b == (*self == RenderType::Opaque),
    {
        match self {
            RenderType::Opaque => true,
            _ => false,
        }
    }

    /// Whether the block is drawn: all but invisible blocks are.
    pub fn is_visible(&self) -> (b: bool)
        ensures
            b == (*self != RenderType::Invisible),
    {
        match self {
            RenderType::Invisible => false,
            _ => true,
        }
    }
}

/// The render type a lower-case name stands for.
pub open spec fn render_type_named(s: Seq<char>) -> Option<RenderType> {
    if s == "opaque"@ {
        Some(RenderType::Opaque)
    } else if s == "transparent"@ {
        Some(RenderType::Transparent)
    } else if s == "cutout"@ {
        Some(RenderType::Cutout)
    } else if s == "translucent"@ {
        Some(RenderType::Translucent)
    } else if s == "invisible"@ {
        Some(RenderType::Invisible)
    } else {
        None
    }
}

/// Reads a render type from an already lower-cased name; an unknown name
/// is an error that quotes it.
pub fn render_type_from_lowercase(s: &str) -> (r: Result<RenderType, String>)
    ensures
        match r {
            Ok(t) => render_type_named(s@) == Some(t),
            Err(e) => render_type_named(s@) is None && e@ == "unknown render type: "@ + s@,
        },
{
    if str_eq(s, "opaque") {
        Ok(RenderType::Opaque)
    } else if str_eq(s, "transparent") {
        Ok(RenderType::Transparent)
    } else if str_eq(s, "cutout") {
        Ok(RenderType::Cutout)
    } else if str_eq(s, "translucent") {
        Ok(RenderType::Translucent)
    } else if str_eq(s, "invisible") {
        Ok(RenderType::Invisible)
    } else {
        Err(join("unknown render type: ", s))
    }
}

/// Reads a render type from a name in any case: the name is lower-cased,
/// then read (see `render_type_from_lowercase`).
pub fn parse_render_type(s: &str) -> (r: Result<RenderType, String>)
    ensures
        match r {
            Ok(t) => render_type_named(str_lowercase(s@)) == Some(t),
            Err(e) => render_type_named(str_lowercase(s@)) is None
                && e@ == "unknown render type: "@ + str_lowercase(s@),
        },
{
    let lower = to_lowercase(s);
    render_type_from_lowercase(lower.as_str())
}

/// Blocks collide unless their configuration says otherwise.
pub fn default_collidable() -> (b: bool)
    ensures
        b,
{
    true
}

/// The configuration of a block as its file gives it.
pub struct BlockConfig {
    pub name: String,
    /// The model the block uses, if any.
    pub model: Option<String>,
    /// The texture, when no model is used.
    pub texture: Option<String>,
    pub texture_side: Option<String>,
    pub texture_bottom: Option<String>,
    pub render_type: RenderType,
    pub collidable: bool,
}

impl BlockConfig {
    /// Whether the block uses a model.
    pub fn uses_model(&self) -> (b: bool)
        ensures
            b == self.model is Some,
    {
        self.model.is_some()
    }
}

/// A registered kind of voxel. Its texture coordinates in the atlas are
/// kept beside the registry, by id.
pub struct VoxelDefinition {
    pub global_id: GlobalVoxelId,
    pub string_id: String,
    pub name: String,
    pub model_name: Option<String>,
    pub render_type: RenderType,
    pub collidable: bool,
}

impl VoxelDefinition {
    /// Whether the voxel uses a model.
    pub fn uses_model(&self) -> (b: bool)
        ensures
            b == self.model_name is Some,
    {
        self.model_name.is_some()
    }
}

/// The cell of a texture in the fallback 2x2 atlas: (column, row).
pub fn static_atlas_cell(texture_index: u32) -> (c: (u32, u32))
    ensures
        c == (texture_index % 2, texture_index / 2),
{
    (texture_index % 2, texture_index / 2)
}

/// The id registered last under a string id, if any.
pub open spec fn id_of_string(defs: Seq<VoxelDefinition>, s: Seq<char>) -> Option<int>
    decreases defs.len(),
{
    if defs.len() == 0 {
        None
    } else if defs.last().string_id@ == s {
        Some(defs.len() - 1)
    } else {
        id_of_string(defs.drop_last(), s)
    }
}

/// The registry of voxel kinds: definitions indexed by global id (0 is
/// always air), the block models, and the models resolved against the
/// texture atlas.
pub struct VoxelRegistry {
    definitions: Vec<VoxelDefinition>,
    model_loader: Option<ModelLoader>,
    texture_ids: Vec<(String, usize)>,
    resolved_models: Vec<ResolvedBlockModel>,
}

/// Whether a definition is the air.
pub open spec fn is_air_definition(d: VoxelDefinition) -> bool {
    &&& d.global_id == 0
    &&& d.string_id@ == "air"@
    &&& d.name@ == "Air"@
    &&& d.model_name is None
    &&& d.render_type == RenderType::Invisible
    &&& !d.collidable
}

impl VoxelRegistry {
    /// The definitions, by id.
    pub closed spec fn defs(&self) -> Seq<VoxelDefinition> {
        self.definitions@
    }

    /// Air comes first, and each definition sits at its own id.
    pub closed spec fn wf(&self) -> bool {
        &&& self.definitions.len() >= 1
        &&& is_air_definition(self.definitions@[0])
        &&& forall|i: int| 0 <= i < self.definitions.len() ==> (#[trigger] self.definitions@[i]).global_id == i
    }

    /// The models loaded, if any.
    pub closed spec fn models(&self) -> Option<Seq<BlockModel>> {
        match self.model_loader {
            Some(l) => Some(l.models()),
            None => None,
        }
    }

    /// The texture ids recorded from the atlas.
    pub closed spec fn texture_map(&self) -> Seq<(String, usize)> {
        self.texture_ids@
    }

    /// The resolved models, in the order they were resolved.
    pub closed spec fn resolved(&self) -> Seq<ResolvedBlockModel> {
        self.resolved_models@
    }

    /// A registry holding only the air.
    pub fn new() -> (r: VoxelRegistry)
        ensures
            r.wf(),
            r.defs().len() == 1,
            r.models() is None,
            r.resolved().len() == 0,
    {
        let mut definitions: Vec<VoxelDefinition> = Vec::new();
        definitions.push(VoxelDefinition {
            global_id: 0,
            string_id: owned("air"),
            name: owned("Air"),
            model_name: None,
            render_type: RenderType::Invisible,
            collidable: false,
        });
        VoxelRegistry { definitions, model_loader: None, texture_ids: Vec::new(), resolved_models: Vec::new() }
    }

    fn register(&mut self, def: VoxelDefinition) -> (id: GlobalVoxelId)
        requires
            old(self).wf(),
            def.global_id == old(self).defs().len(),
        ensures
            final(self).wf(),
            id == def.global_id,
            final(self).defs() == old(self).defs().push(def),
            final(self).models() == old(self).models(),
            final(self).resolved() == old(self).resolved(),
    {
        let id = def.global_id;
        self.definitions.push(def);
        proof {
            assert forall|i: int| 0 <= i < self.definitions.len() implies (#[trigger] self.definitions@[i]).global_id == i by {
                if i < old(self).definitions.len() {
                    assert(self.definitions@[i] == old(self).definitions@[i]);
                }
            }
        }
        id
    }

    /// Registers an opaque, colliding voxel without a model under the next
    /// id, and returns that id.
    pub fn register_voxel(&mut self, string_id: &str, name: &str) -> (id: GlobalVoxelId)
        requires
            old(self).wf(),
            old(self).defs().len() < usize::MAX,
        ensures
            final(self).wf(),
            id == old(self).defs().len(),
            final(self).defs().len() == id + 1,
            final(self).defs().take(id as int) == old(self).defs(),
            final(self).defs()[id as int].string_id@ == string_id@,
            final(self).defs()[id as int].name@ == name@,
            final(self).defs()[id as int].model_name is None,
            final(self).defs()[id as int].render_type == RenderType::Opaque,
            final(self).defs()[id as int].collidable,
            final(self).models() == old(self).models(),
            final(self).resolved() == old(self).resolved(),
    {
        let global_id = self.definitions.len();
        let id = self.register(VoxelDefinition {
            global_id,
            string_id: owned(string_id),
            name: owned(name),
            model_name: None,
            render_type: RenderType::Opaque,
            collidable: true,
        });
        proof {
            assert(self.defs().take(id as int) =~= old(self).defs());
        }
        id
    }

    /// Registers each block under the next id, in order, with the name,
    /// model, render type and collision of its configuration.
    pub fn register_blocks(&mut self, blocks: Vec<(String, BlockConfig)>)
        requires
            old(self).wf(),
            old(self).defs().len() + blocks.len() <= usize::MAX,
        ensures
            final(self).wf(),
            final(self).defs().len() == old(self).defs().len() + blocks.len(),
            final(self).defs().take(old(self).defs().len() as int) == old(self).defs(),
            forall|k: int| 0 <= k < blocks.len() ==> {
                let d = #[trigger] final(self).defs()[old(self).defs().len() + k];
                &&& d.string_id@ == blocks@[k].0@
                &&& d.name@ == blocks@[k].1.name@
                &&& d.model_name == blocks@[k].1.model
                &&& d.render_type == blocks@[k].1.render_type
                &&& d.collidable == blocks@[k].1.collidable
            },
            final(self).models() == old(self).models(),
            final(self).resolved() == old(self).resolved(),
    {
        let ghost n0 = self.definitions.len();
        let ghost src = blocks@;
        let mut rest = blocks;
        let mut k: usize = 0;
        while rest.len() > 0
            invariant
                self.wf(),
                n0 == old(self).defs().len(),
                rest.len() + k == src.len(),
                n0 + src.len() <= usize::MAX,
                rest@ == src.subrange(k as int, src.len() as int),
                self.defs().len() == n0 + k,
                self.defs().take(n0 as int) == old(self).defs(),
                forall|m: int| 0 <= m < k ==> {
                    let d = #[trigger] self.defs()[n0 + m];
                    &&& d.string_id@ == src[m].0@
                    &&& d.name@ == src[m].1.name@
                    &&& d.model_name == src[m].1.model
                    &&& d.render_type == src[m].1.render_type
                    &&& d.collidable == src[m].1.collidable
                },
                self.models() == old(self).models(),
                self.resolved() == old(self).resolved(),
            decreases rest.len(),
        {
            let ghost rest_before = rest@;
            let (string_id, config) = rest.remove(0);
            proof {
                assert(rest_before[0] == src[k as int]);
                assert(rest@ =~= src.subrange(k as int + 1, src.len() as int));
            }
            let ghost before = self.defs();
            let global_id = self.definitions.len();
            self.register(VoxelDefinition {
                global_id,
                string_id,
                name: config.name,
                model_name: config.model,
                render_type: config.render_type,
                collidable: config.collidable,
            });
            proof {
                assert(self.defs().take(n0 as int) =~= before.take(n0 as int));
                assert forall|m: int| 0 <= m < k + 1 implies {
                    let d = #[trigger] self.defs()[n0 + m];
                    &&& d.string_id@ == src[m].0@
                    &&& d.name@ == src[m].1.name@
                    &&& d.model_name == src[m].1.model
                    &&& d.render_type == src[m].1.render_type
                    &&& d.collidable == src[m].1.collidable
                } by {
                    if m < k {
                        assert(self.defs()[n0 + m] == before[n0 + m]);
                    }
                }
            }
            k = k + 1;
        }
    }

    /// The definition with this id.
    pub fn get(&self, global_id: GlobalVoxelId) -> (r: Option<&VoxelDefinition>)
        ensures
            match r {
                Some(d) => global_id < self.defs().len() && *d == self.defs()[global_id as int],
                None => global_id >= self.defs().len(),
            },
    {
        if global_id < self.definitions.len() {
            Some(&self.definitions[global_id])
        } else {
            None
        }
    }

    /// The id registered last under a string id.
    pub fn get_id_by_string(&self, string_id: &str) -> (r: Option<GlobalVoxelId>)
        ensures
            match r {
                Some(id) => id_of_string(self.defs(), string_id@) == Some(id as int),
                None => id_of_string(self.defs(), string_id@) is None,
            },
    {
        let mut i: usize = self.definitions.len();
        assert(self.definitions@.take(i as int) =~= self.definitions@);
        while i > 0
            invariant
                i <= self.definitions.len(),
                id_of_string(self.defs(), string_id@) == id_of_string(self.definitions@.take(i as int), string_id@),
            decreases i,
        {
            proof {
                assert(self.definitions@.take(i as int).drop_last() =~= self.definitions@.take(i as int - 1));
            }
            if str_eq(self.definitions[i - 1].string_id.as_str(), string_id) {
                return Some(i - 1);
            }
            i = i - 1;
        }
        None
    }

    /// The definition registered last under a string id.
    pub fn get_by_string(&self, string_id: &str) -> (r: Option<&VoxelDefinition>)
        requires
            self.wf(),
        ensures
            match r {
                Some(d) => id_of_string(self.defs(), string_id@) matches Some(i) && *d == self.defs()[i],
                None => id_of_string(self.defs(), string_id@) is None,
            },
    {
        match self.get_id_by_string(string_id) {
            Some(id) => {
                proof {
                    lemma_id_of_string_bound(self.defs(), string_id@);
                }
                self.get(id)
            },
            None => None,
        }
    }

    /// Whether the id is the air.
    pub fn is_air(&self, global_id: GlobalVoxelId) -> (b: bool)
        ensures
            b == (global_id == 0),
    {
        global_id == 0
    }

    /// Whether the voxel collides; unknown ids do not.
    pub fn is_solid(&self, global_id: GlobalVoxelId) -> (b: bool)
        ensures
            b == (global_id < self.defs().len() && self.defs()[global_id as int].collidable),
    {
        match self.get(global_id) {
            Some(d) => d.collidable,
            None => false,
        }
    }

    /// Whether the voxel hides the faces next to it; unknown ids do not.
    pub fn is_opaque(&self, global_id: GlobalVoxelId) -> (b: bool)
        ensures
            b == (global_id < self.defs().len() && self.defs()[global_id as int].render_type == RenderType::Opaque),
    {
        match self.get(global_id) {
            Some(d) => d.render_type.culls_adjacent_faces(),
            None => false,
        }
    }

    /// The render type of the voxel; unknown ids are invisible.
    pub fn get_render_type(&self, global_id: GlobalVoxelId) -> (t: RenderType)
        ensures
            t == if global_id < self.defs().len() { self.defs()[global_id as int].render_type } else { RenderType::Invisible },
    {
        match self.get(global_id) {
            Some(d) => d.render_type,
            None => RenderType::Invisible,
        }
    }

    /// Whether the voxel collides; unknown ids do not.
    pub fn is_collidable(&self, global_id: GlobalVoxelId) -> (b: bool)
        ensures
            b == (global_id < self.defs().len() && self.defs()[global_id as int].collidable),
    {
        self.is_solid(global_id)
    }

    /// The number of registered kinds, air included.
    pub fn len(&self) -> (n: usize)
        ensures
            n == self.defs().len(),
    {
        self.definitions.len()
    }

    /// Whether only the air is registered.
    pub fn is_empty(&self) -> (b: bool)
        ensures
            b == (self.defs().len() <= 1),
    {
        self.definitions.len() <= 1
    }

    /// Installs the loaded models.
    pub fn set_models(&mut self, loader: ModelLoader)
        ensures
            final(self).defs() == old(self).defs(),
            final(self).wf() == old(self).wf(),
            final(self).models() == Some(loader.models()),
            final(self).resolved() == old(self).resolved(),
    {
        self.model_loader = Some(loader);
    }

    /// Whether models are loaded.
    pub fn has_models(&self) -> (b: bool)
        ensures
            b == self.models() is Some,
    {
        self.model_loader.is_some()
    }

    /// The loaded model named `name` (the last one loaded under it).
    pub fn get_model(&self, name: &str) -> (r: Option<&BlockModel>)
        ensures
            match r {
                Some(m) => self.models() matches Some(ms) && model_named(ms, name@) matches Some(i) && *m == ms[i],
                None => match self.models() {
                    Some(ms) => model_named(ms, name@) is None,
                    None => true,
                },
            },
    {
        match &self.model_loader {
            Some(loader) => loader.get(name),
            None => None,
        }
    }

    /// Records the atlas id of each texture name.
    pub fn register_texture_ids(&mut self, texture_ids: Vec<(String, usize)>)
        ensures
            final(self).texture_map() == texture_ids@,
            final(self).defs() == old(self).defs(),
            final(self).wf() == old(self).wf(),
            final(self).models() == old(self).models(),
            final(self).resolved() == old(self).resolved(),
    {
        self.texture_ids = texture_ids;
    }

    /// Resolves every loaded model against the recorded texture ids and
    /// adds the results, in model order; without models nothing happens.
    pub fn resolve_models(&mut self)
        ensures
            final(self).defs() == old(self).defs(),
            final(self).wf() == old(self).wf(),
            final(self).models() == old(self).models(),
            final(self).texture_map() == old(self).texture_map(),
            match old(self).models() {
                Some(ms) => {
                    &&& final(self).resolved().len() == old(self).resolved().len() + ms.len()
                    &&& final(self).resolved().take(old(self).resolved().len() as int) == old(self).resolved()
                    &&& forall|k: int| 0 <= k < ms.len() ==> is_resolution(
                        ms[k],
                        old(self).texture_map(),
                        #[trigger] final(self).resolved()[old(self).resolved().len() + k],
                    )
                },
                None => final(self).resolved() == old(self).resolved(),
            },
    {
        match &self.model_loader {
            Some(loader) => {
                let models = loader.all_models();
                let ghost n0 = self.resolved_models.len();
                let ghost before = self.resolved_models@;
                let mut k: usize = 0;
                while k < models.len()
                    invariant
                        k <= models.len(),
                        self.definitions == old(self).definitions,
                        self.model_loader == old(self).model_loader,
                        self.texture_ids == old(self).texture_ids,
                        self.resolved_models.len() == n0 + k,
                        self.resolved_models@.take(n0 as int) == before,
                        forall|m: int| 0 <= m < k ==> is_resolution(
                            models@[m],
                            self.texture_ids@,
                            #[trigger] self.resolved_models@[n0 + m],
                        ),
                    decreases models.len() - k,
                {
                    let ghost prev = self.resolved_models@;
                    let r = models[k].resolve(&self.texture_ids);
                    self.resolved_models.push(r);
                    proof {
                        assert(self.resolved_models@.take(n0 as int) =~= prev.take(n0 as int));
                        assert forall|m: int| 0 <= m < k + 1 implies is_resolution(
                            models@[m],
                            self.texture_ids@,
                            #[trigger] self.resolved_models@[n0 + m],
                        ) by {
                            if m < k {
                                assert(self.resolved_models@[n0 + m] == prev[n0 + m]);
                            }
                        }
                    }
                    k = k + 1;
                }
            },
            None => {},
        }
    }

    /// The model resolved last under `name`.
    pub fn get_resolved_model(&self, name: &str) -> (r: Option<&ResolvedBlockModel>)
        ensures
            match r {
                Some(m) => resolved_named(self.resolved(), name@) matches Some(i) && *m == self.resolved()[i],
                None => resolved_named(self.resolved(), name@) is None,
            },
    {
        let mut i: usize = self.resolved_models.len();
        assert(self.resolved_models@.take(i as int) =~= self.resolved_models@);
        while i > 0
            invariant
                i <= self.resolved_models.len(),
                resolved_named(self.resolved(), name@) == resolved_named(self.resolved_models@.take(i as int), name@),
            decreases i,
        {
            proof {
                assert(self.resolved_models@.take(i as int).drop_last() =~= self.resolved_models@.take(i as int - 1));
            }
            if str_eq(self.resolved_models[i - 1].name.as_str(), name) {
                return Some(&self.resolved_models[i - 1]);
            }
            i = i - 1;
        }
        None
    }
}

/// The index of the model resolved last under `name`, if any.
pub open spec fn resolved_named(models: Seq<ResolvedBlockModel>, name: Seq<char>) -> Option<int>
    decreases models.len(),
{
    if models.len() == 0 {
        None
    } else if models.last().name@ == name {
        Some(models.len() - 1)
    } else {
        resolved_named(models.drop_last(), name)
    }
}

/// `acc` with each of `xs` appended in order unless already present.
pub open spec fn append_unique(acc: Seq<Seq<char>>, xs: Seq<Seq<char>>) -> Seq<Seq<char>>
    decreases xs.len(),
{
    if xs.len() == 0 {
        acc
    } else {
        let prev = append_unique(acc, xs.drop_last());
        if prev.contains(xs.last()) {
            prev
        } else {
            prev.push(xs.last())
        }
    }
}

/// The value of an optional string, as a list of zero or one string.
pub open spec fn opt_list(o: Option<String>) -> Seq<Seq<char>> {
    match o {
        Some(s) => seq![s@],
        None => Seq::empty(),
    }
}

/// The textures a block adds to the list: none for the air; for a block
/// with a model that is loaded, the model's textures not yet listed; for a
/// block with a model that is not loaded, none; otherwise its texture, side
/// texture and bottom texture, each when given.
pub open spec fn block_texture_step(
    acc: Seq<Seq<char>>,
    block: (String, BlockConfig),
    models: Option<Seq<BlockModel>>,
) -> Seq<Seq<char>> {
    if block.0@ == "air"@ {
        acc
    } else {
        match block.1.model {
            Some(name) => match models {
                Some(ms) => match model_named(ms, name@) {
                    Some(i) => append_unique(acc, unique_in_order(
                        model_texture_refs(textures_view(ms[i]), elements_view(ms[i])),
                    )),
                    None => acc,
                },
                None => acc,
            },
            None => acc + opt_list(block.1.texture) + opt_list(block.1.texture_side) + opt_list(block.1.texture_bottom),
        }
    }
}

/// The textures that a list of blocks needs, block by block.
pub open spec fn block_textures_spec(blocks: Seq<(String, BlockConfig)>, models: Option<Seq<BlockModel>>) -> Seq<Seq<char>>
    decreases blocks.len(),
{
    if blocks.len() == 0 {
        Seq::empty()
    } else {
        block_texture_step(block_textures_spec(blocks.drop_last(), models), blocks.last(), models)
    }
}

impl VoxelRegistry {
    /// The textures the atlas needs for these blocks (see
    /// `block_texture_step`).
    pub fn block_textures(&self, blocks: &Vec<(String, BlockConfig)>) -> (r: Vec<String>)
        ensures
            r@.map_values(|s: String| s@) == block_textures_spec(blocks@, self.models()),
    {
        let ghost ms = self.models();
        let mut out: Vec<String> = Vec::new();
        let mut i: usize = 0;
        while i < blocks.len()
            invariant
                i <= blocks.len(),
                ms == self.models(),
                out@.map_values(|s: String| s@) == block_textures_spec(blocks@.take(i as int), ms),
            decreases blocks.len() - i,
        {
            proof {
                assert(blocks@.take(i as int + 1).drop_last() =~= blocks@.take(i as int));
                assert(blocks@.take(i as int + 1).last() == blocks@[i as int]);
            }
            let ghost acc = out@.map_values(|s: String| s@);
            let (string_id, config) = &blocks[i];
            if !str_eq(string_id.as_str(), "air") {
                match &config.model {
                    Some(name) => {
                        match self.get_model(name.as_str()) {
                            Some(model) => {
                                let used = model.get_used_textures();
                                let ghost xs = used@.map_values(|s: String| s@);
                                let mut j: usize = 0;
                                while j < used.len()
                                    invariant
                                        j <= used.len(),
                                        xs == used@.map_values(|s: String| s@),
                                        out@.map_values(|s: String| s@) == append_unique(acc, xs.take(j as int)),
                                    decreases used.len() - j,
                                {
                                    proof {
                                        assert(xs.take(j as int + 1).drop_last() =~= xs.take(j as int));
                                        assert(xs.take(j as int + 1).last() == xs[j as int]);
                                    }
                                    if !contains_string(&out, used[j].as_str()) {
                                        let ghost before = out@.map_values(|s: String| s@);
                                        out.push(used[j].clone());
                                        proof {
                                            assert(out@.map_values(|s: String| s@) =~= before.push(xs[j as int]));
                                        }
                                    }
                                    j = j + 1;
                                }
                                proof {
                                    assert(xs.take(used.len() as int) =~= xs);
                                }
                            },
                            None => {},
                        }
                    },
                    None => {
                        push_opt(&mut out, &config.texture);
                        push_opt(&mut out, &config.texture_side);
                        push_opt(&mut out, &config.texture_bottom);
                        proof {
                            assert(out@.map_values(|s: String| s@) =~= acc + opt_list(config.texture)
                                + opt_list(config.texture_side) + opt_list(config.texture_bottom));
                        }
                    },
                }
            }
            i = i + 1;
        }
        proof {
            assert(blocks@.take(blocks.len() as int) =~= blocks@);
        }
        out
    }
}

fn push_opt(out: &mut Vec<String>, o: &Option<String>)
    ensures
        final(out)@.map_values(|s: String| s@) == old(out)@.map_values(|s: String| s@) + opt_list(*o),
{
    match o {
        Some(s) => {
            out.push(s.clone());
            assert(final(out)@.map_values(|x: String| x@) =~= old(out)@.map_values(|x: String| x@) + opt_list(*o));
        },
        None => {
            assert(old(out)@.map_values(|x: String| x@) + opt_list(*o) =~= old(out)@.map_values(|x: String| x@));
        },
    }
}

/// The air is the definition at id 0 of every well-formed registry, and
/// every definition sits at its own id.
pub proof fn law_air_first(r: VoxelRegistry, id: int)
    requires
        r.wf(),
        0 <= id < r.defs().len(),
    ensures
        is_air_definition(r.defs()[0]),
        r.defs()[id].global_id == id,
{
    reveal_strlit("air");
}

/// A string id looks up the definition registered last under it: right
/// after a registration, the new id.
pub proof fn law_lookup_after_register(defs: Seq<VoxelDefinition>, d: VoxelDefinition)
    ensures
        id_of_string(defs.push(d), d.string_id@) == Some(defs.len() as int),
{
    assert(defs.push(d).last() == d);
}

proof fn lemma_id_of_string_bound(defs: Seq<VoxelDefinition>, s: Seq<char>)
    ensures
        id_of_string(defs, s) matches Some(i) ==> 0 <= i < defs.len() && defs[i].string_id@ == s,
    decreases defs.len(),
{
    if defs.len() > 0 {
        lemma_id_of_string_bound(defs.drop_last(), s);
    }
}

impl Default for VoxelRegistry {
    fn default() -> (r: VoxelRegistry)
        ensures
            r.wf(),
            r.defs().len() == 1,
            r.models() is None,
            r.resolved().len() == 0,
    {
        VoxelRegistry::new()
    }
}

} // verus!
