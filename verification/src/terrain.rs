//! The parameters of the terrain.

use vstd::prelude::*;

verus! {

/// The parameters of the fractal noise field that terrain heights are
/// sampled from, and of the height that a sample stands for.
///
/// Fractions are fixed-point: `frequency` is in ten-thousandths,
/// `persistence` and `lacunarity` are in tenths, `sample_offset` is in
/// hundredths.
#[derive(Debug, Clone, Copy, PartialEq, Eq, Structural)]
pub struct Terrain {
    /// Seed of the noise field.
    pub seed: u32,
    /// Number of octaves that are summed.
    pub octaves: u32,
    /// Frequency of the first octave, in ten-thousandths.
    pub frequency: u32,
    /// Factor by which the amplitude changes from octave to octave, in
    /// tenths.
    pub persistence: u32,
    /// Factor by which the frequency changes from octave to octave, in
    /// tenths.
    pub lacunarity: u32,
    /// Offset of the sampling point from the column's corner along x and z,
    /// in hundredths of a voxel.
    pub sample_offset: u32,
    /// What is added to a sample before it is scaled.
    pub height_base: u32,
    /// Voxels of height for each unit of noise.
    pub height_scale: u32,
}

/// The terrain of every world: constants only, so that a world generates
/// the same columns in every run.
pub open spec fn spec_standard_terrain() -> Terrain {
    Terrain {
        seed: 1,
        octaves: 4,
        frequency: 348,
        persistence: 16,
        lacunarity: 2,
        sample_offset: 1,
        height_base: 2,
        height_scale: 32,
    }
}

impl Terrain {
    /// The terrain of every world.
    pub fn standard() -> (terrain: Terrain)
        ensures
            terrain == spec_standard_terrain(),
    {
        Terrain {
            seed: 1,
            octaves: 4,
            frequency: 348,
            persistence: 16,
            lacunarity: 2,
            sample_offset: 1,
            height_base: 2,
            height_scale: 32,
        }
    }
}

} // verus!
