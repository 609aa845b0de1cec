//! The terrain component: owns the seed, the settings and the mesh built from them.
use vstd::prelude::*;
use crate::mesh::{
    build_indices, build_vertices, index_count, indices_match, lemma_build_deterministic,
    valid_resolution, vertices_match, Vertex,
};
use crate::settings::TerrainSettings;

verus! {

/// Grid resolution of the planet mesh.
pub const GRID_RESOLUTION: u32 = 128;

/// Relies on `rand::random::<u32>`, which draws from the thread-local generator: nothing is
/// known of the value.
#[verifier::external_body]
fn draw_seed() -> (r: u32) {
    rand::random::<u32>()
}

/// A planet's mesh together with the seed and settings it was built from.
pub struct Terrain {
    seed: u32,
    settings: TerrainSettings,
    resolution: u32,
    vertices: Vec<Vertex>,
    indices: Vec<u32>,
}

impl Terrain {
    pub closed spec fn seed_spec(&self) -> u32 {
        self.seed
    }

    pub closed spec fn settings_spec(&self) -> TerrainSettings {
        self.settings
    }

    pub closed spec fn resolution_spec(&self) -> u32 {
        self.resolution
    }

    pub closed spec fn vertices_spec(&self) -> Seq<Vertex> {
        self.vertices@
    }

    pub closed spec fn indices_spec(&self) -> Seq<u32> {
        self.indices@
    }

    /// Whether this terrain is the one built from `seed` and `settings` at `resolution`.
    pub open spec fn is_build_of(&self, seed: u32, settings: TerrainSettings, resolution: u32) -> bool {
        &&& self.seed_spec() == seed
        &&& self.settings_spec() == settings
        &&& self.resolution_spec() == resolution
        &&& settings.is_valid()
        &&& valid_resolution(resolution as int)
        &&& vertices_match(self.vertices_spec(), seed, settings, resolution as int)
        &&& indices_match(self.indices_spec(), resolution as int)
    }

    /// Builds the terrain of `seed` from the validated form of `settings`.
    pub fn new(seed: u32, settings: TerrainSettings, resolution: u32) -> (r: Terrain)
        requires
            valid_resolution(resolution as int),
        ensures
            r.is_build_of(seed, settings.validated_spec(), resolution),
    {
        let (settings, _) = settings.validate();
        let vertices = build_vertices(seed, &settings, resolution);
        let indices = build_indices(resolution);
        Terrain { seed, settings, resolution, vertices, indices }
    }

    /// Rebuilds the vertices from `seed`; the index list, which depends on the resolution
    /// alone, stays as it is.
    pub fn reseed(&mut self, seed: u32)
        requires
            old(self).is_build_of(
                old(self).seed_spec(),
                old(self).settings_spec(),
                old(self).resolution_spec(),
            ),
        ensures
            final(self).is_build_of(seed, old(self).settings_spec(), old(self).resolution_spec()),
            final(self).indices_spec() == old(self).indices_spec(),
    {
        self.vertices = build_vertices(seed, &self.settings, self.resolution);
        self.seed = seed;
    }

    /// Draws a fresh seed and rebuilds the vertices from it; returns the seed.
    pub fn randomize(&mut self) -> (r: u32)
        requires
            old(self).is_build_of(
                old(self).seed_spec(),
                old(self).settings_spec(),
                old(self).resolution_spec(),
            ),
        ensures
            final(self).is_build_of(r, old(self).settings_spec(), old(self).resolution_spec()),
            final(self).indices_spec() == old(self).indices_spec(),
    {
        let seed = draw_seed();
        self.reseed(seed);
        seed
    }

    /// Validates `settings` and, where they differ from the current ones, adopts them and
    /// rebuilds the vertices. Returns whether the settings changed.
    pub fn set_settings(&mut self, settings: TerrainSettings) -> (changed: bool)
        requires
            old(self).is_build_of(
                old(self).seed_spec(),
                old(self).settings_spec(),
                old(self).resolution_spec(),
            ),
        ensures
            final(self).is_build_of(
                old(self).seed_spec(),
                settings.validated_spec(),
                old(self).resolution_spec(),
            ),
            changed == (settings.validated_spec() != old(self).settings_spec()),
            !changed ==> final(self).vertices_spec() == old(self).vertices_spec(),
    {
        let (valid, _) = settings.validate();
        if valid == self.settings {
            false
        } else {
            self.vertices = build_vertices(self.seed, &valid, self.resolution);
            self.settings = valid;
            true
        }
    }

    pub fn seed(&self) -> (r: u32)
        ensures
            r == self.seed_spec(),
    {
        self.seed
    }

    pub fn settings(&self) -> (r: TerrainSettings)
        ensures
            r == self.settings_spec(),
    {
        self.settings
    }

    pub fn resolution(&self) -> (r: u32)
        ensures
            r == self.resolution_spec(),
    {
        self.resolution
    }

    pub fn vertices(&self) -> (r: &Vec<Vertex>)
        ensures
            r@ == self.vertices_spec(),
    {
        &self.vertices
    }

    pub fn indices(&self) -> (r: &Vec<u32>)
        ensures
            r@ == self.indices_spec(),
    {
        &self.indices
    }

    /// Number of entries of the index list.
    pub fn index_count(&self) -> (r: u32)
        requires
            self.is_build_of(self.seed_spec(), self.settings_spec(), self.resolution_spec()),
        ensures
            r == index_count(self.resolution_spec() as int),
    {
        assert(index_count(self.resolution as int) <= 6 * 1024 * 1024) by (nonlinear_arith)
            requires
                2 <= self.resolution <= 1024,
        ;
        self.indices.len() as u32
    }
}

/// Building twice from the same seed, settings and resolution gives the same vertices and
/// indices.
pub proof fn lemma_rebuild_same_seed(
    a: Terrain,
    b: Terrain,
    seed: u32,
    settings: TerrainSettings,
    resolution: u32,
)
    requires
        a.is_build_of(seed, settings, resolution),
        b.is_build_of(seed, settings, resolution),
    ensures
        a.vertices_spec() == b.vertices_spec(),
        a.indices_spec() == b.indices_spec(),
{
    lemma_build_deterministic(
        seed,
        settings,
        resolution as int,
        a.vertices_spec(),
        b.vertices_spec(),
        a.indices_spec(),
        b.indices_spec(),
    );
}

} // verus!
