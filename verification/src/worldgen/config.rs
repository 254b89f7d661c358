use vstd::prelude::*;
use crate::util::text::owned;

verus! {

/// The settings of data-driven world generation.
pub struct WorldGenConfig {
    pub seed: u64,
    /// Height of the world.
    pub height: u32,
    pub sea_level: i32,
    pub noise_router_path: String,
    pub biome_source_path: String,
    pub biomes_path: String,
    pub density_functions_path: String,
}

/// The default world height.
pub fn default_height() -> (h: u32)
    ensures
        h == 256,
{
    256
}

/// The default sea level.
pub fn default_sea_level() -> (l: i32)
    ensures
        l == 62,
{
    62
}

/// The default path of the noise router settings.
pub fn default_noise_router_path() -> (p: String)
    ensures
        p@ == "data/noise_settings/overworld_router.ron"@,
{
    owned("data/noise_settings/overworld_router.ron")
}

/// The default path of the biome source settings.
pub fn default_biome_source_path() -> (p: String)
    ensures
        p@ == "data/biome_source.ron"@,
{
    owned("data/biome_source.ron")
}

/// The default directory of biome definitions.
pub fn default_biomes_path() -> (p: String)
    ensures
        p@ == "data/biomes"@,
{
    owned("data/biomes")
}

/// The default path of the density functions.
pub fn default_density_functions_path() -> (p: String)
    ensures
        p@ == "data/density_functions/noise.ron"@,
{
    owned("data/density_functions/noise.ron")
}

impl Default for WorldGenConfig {
    /// Seed 12345 and the default height, sea level and paths.
    fn default() -> (c: WorldGenConfig)
        ensures
            c.seed == 12345,
            c.height == 256,
            c.sea_level == 62,
            c.noise_router_path@ == "data/noise_settings/overworld_router.ron"@,
            c.biome_source_path@ == "data/biome_source.ron"@,
            c.biomes_path@ == "data/biomes"@,
            c.density_functions_path@ == "data/density_functions/noise.ron"@,
    {
        WorldGenConfig {
            seed: 12345,
            height: default_height(),
            sea_level: default_sea_level(),
            noise_router_path: default_noise_router_path(),
            biome_source_path: default_biome_source_path(),
            biomes_path: default_biomes_path(),
            density_functions_path: default_density_functions_path(),
        }
    }
}

/// Which blocks cover a biome's ground.
pub struct SurfaceRule {
    /// The block on top.
    pub top_material: String,
    /// The block under the top one, if the biome names one.
    pub under_material: Option<String>,
    /// How deep the under layer goes.
    pub depth: u32,
}

/// The default depth of a biome's under layer.
pub fn default_depth() -> (d: u32)
    ensures
        d == 4,
{
    4
}

/// Biomes have precipitation unless said otherwise.
pub fn default_true() -> (b: bool)
    ensures
        b,
{
    true
}

impl Default for SurfaceRule {
    /// Empty top material, no under material, depth 0.
    fn default() -> (r: SurfaceRule)
        ensures
            r.top_material@ == Seq::<char>::empty(),
            r.under_material is None,
            r.depth == 0,
    {
        SurfaceRule { top_material: String::new(), under_material: None, depth: 0 }
    }
}

} // verus!
