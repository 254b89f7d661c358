use vstd::prelude::*;

verus! {

#[verifier::external_type_specification]
#[verifier::external_body]
pub struct ExPerlin(noise::Perlin);

/// `noise::Perlin::new`: Perlin noise from a seed. Nothing is stated of
/// the result: it is an outside value that Verus cannot look into.
#[verifier::external_body]
fn perlin_new(seed: u32) -> noise::Perlin {
    noise::Perlin::new(seed)
}

/// The seed of the fractal noise for a seed offset: the base seed plus the
/// offset, keeping the low 32 bits.
pub open spec fn fbm_seed(base: u64, offset: u64) -> u32 {
    (base + offset) as u32
}

/// The parameters of Perlin-based fractal noise; the noise itself is built
/// from `fbm_seed`.
pub struct PerlinNoiseGenerator {
    pub base_seed: u64,
}

impl PerlinNoiseGenerator {
    /// A generator with a base seed.
    pub fn new(seed: u64) -> (g: PerlinNoiseGenerator)
        ensures
            g.base_seed == seed,
    {
        PerlinNoiseGenerator { base_seed: seed }
    }

    /// The seed of the fractal noise for an offset (see `fbm_seed`).
    pub fn fbm_seed(&self, seed_offset: u64) -> (s: u32)
        requires
            self.base_seed + seed_offset <= u64::MAX,
        ensures
            s == fbm_seed(self.base_seed, seed_offset),
    {
        let sum = self.base_seed + seed_offset;
        #[verifier::truncate]
        let s = sum as u32;
        s
    }
}

/// Plain Perlin noise (no octaves), seeded with the low 32 bits of the seed.
pub struct SimplePerlinGenerator {
    seed: u64,
    perlin: noise::Perlin,
}

impl SimplePerlinGenerator {
    /// Noise from a seed.
    pub fn new(seed: u64) -> (g: SimplePerlinGenerator)
        ensures
            g.seed() == seed,
    {
        #[verifier::truncate]
        let s = seed as u32;
        SimplePerlinGenerator { seed, perlin: perlin_new(s) }
    }

    /// The seed it was made with.
    pub closed spec fn seed(&self) -> u64 {
        self.seed
    }

    /// The Perlin noise it holds.
    pub closed spec fn perlin_view(&self) -> noise::Perlin {
        self.perlin
    }

    /// The Perlin noise.
    pub fn perlin(&self) -> (p: &noise::Perlin)
        ensures
            *p == self.perlin_view(),
    {
        &self.perlin
    }
}

} // verus!
