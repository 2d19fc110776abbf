//! Procedural terrain: a deterministic, stateless function from chunk
//! coordinate to block contents.  The only inputs are the coordinate and an
//! immutable configuration (seed and height parameters), so a chunk can be
//! regenerated bit-identically after eviction without persisting it.
//!
//! The terrain is a height field: a hashed mix of the world column and the
//! seed picks a surface height per column; below the surface lie grass,
//! dirt, then stone.

use vstd::prelude::*;

use crate::block::Block;
use crate::block::BlockKind;
use crate::chunk::BlockGrid;
use crate::chunk::ChunkCoord;

verus! {

/// Largest chunk-coordinate magnitude the world addresses; keeps every
/// world-space column computation comfortably inside machine integers.
pub const COORD_BOUND: i32 = 100000;

/// Why a generator configuration is rejected at startup.
#[derive(Clone, Copy, PartialEq, Eq, Structural, Debug)]
pub enum ConfigError {
    /// The surface must vary over at least one height value.
    AmplitudeZero,
    /// The height field must fit inside one vertical chunk: `0 <=
    /// base_height` and `base_height + amplitude <= 16`.
    HeightRangeOutOfBounds,
}

/// Immutable generation parameters: the world seed and the height field's
/// placement.
#[derive(Clone, Copy, PartialEq, Eq, Structural, Debug)]
pub struct GeneratorConfig {
    pub seed: u64,
    pub base_height: i32,
    pub amplitude: i32,
}

impl GeneratorConfig {
    /// A valid configuration: the surface heights `base_height ..
    /// base_height + amplitude` all lie inside the ground chunk layer.
    pub open spec fn wf(self) -> bool {
        &&& 0 <= self.base_height
        &&& 1 <= self.amplitude
        &&& self.base_height + self.amplitude <= 16
    }

    /// Validates generation parameters; an invalid configuration fails fast
    /// here and nothing is ever generated from it.
    pub fn new(seed: u64, base_height: i32, amplitude: i32) -> (r: Result<
        GeneratorConfig,
        ConfigError,
    >)
        ensures
            r is Ok <==> (GeneratorConfig { seed, base_height, amplitude }).wf(),
            r is Ok ==> r->Ok_0 == (GeneratorConfig { seed, base_height, amplitude }),
            r is Err && amplitude < 1 ==> r->Err_0 == ConfigError::AmplitudeZero,
            r is Err && amplitude >= 1 ==> r->Err_0 == ConfigError::HeightRangeOutOfBounds,
    {
        if amplitude < 1 {
            Err(ConfigError::AmplitudeZero)
        } else if base_height < 0 || base_height > 16 - amplitude {
            Err(ConfigError::HeightRangeOutOfBounds)
        } else {
            Ok(GeneratorConfig { seed, base_height, amplitude })
        }
    }
}

/// Whether a chunk coordinate is inside the addressable world.
pub open spec fn coord_in_world(c: (int, int, int)) -> bool {
    &&& -100000 <= c.0 <= 100000
    &&& -100000 <= c.1 <= 100000
    &&& -100000 <= c.2 <= 100000
}

/// The hashed column mix: a pure integer function of the world column and
/// the seed, offset so it is never negative.
pub open spec fn column_mix(cfg: GeneratorConfig, wx: int, wz: int) -> int {
    (wx + 2000000) * 31 + (wz + 2000000) * 17 + ((cfg.seed % 256) as int)
}

/// The surface height of the world column `(wx, wz)`: blocks with world y
/// below it are ground, those at or above it are air.
pub open spec fn height_at(cfg: GeneratorConfig, wx: int, wz: int) -> int {
    (cfg.base_height as int) + column_mix(cfg, wx, wz) % (cfg.amplitude as int)
}

/// The block of the world position `(wx, wy, wz)`: air from the surface
/// up, then one grass layer, two dirt layers, and stone below.
pub open spec fn block_at_world(cfg: GeneratorConfig, wx: int, wy: int, wz: int) -> Block {
    let h = height_at(cfg, wx, wz);
    Block {
        kind: if wy >= h {
            BlockKind::Air
        } else if wy == h - 1 {
            BlockKind::Grass
        } else if wy >= h - 3 {
            BlockKind::Dirt
        } else {
            BlockKind::Stone
        },
    }
}

/// The entire block contents of the chunk at `c`: a pure function of the
/// configuration and the coordinate, in the grid's x-major layout.
pub open spec fn generated_grid(cfg: GeneratorConfig, c: (int, int, int)) -> Seq<Block> {
    Seq::new(
        4096,
        |bi: int|
            block_at_world(
                cfg,
                c.0 * 16 + crate::algorithm::idx_x(bi),
                c.1 * 16 + crate::algorithm::idx_y(bi),
                c.2 * 16 + crate::algorithm::idx_z(bi),
            ),
    )
}

/// Runtime evaluation of one block of terrain.
fn terrain_block(cfg: &GeneratorConfig, wx: i64, wy: i64, wz: i64) -> (r: Block)
    requires
        cfg.wf(),
        -1700000 <= wx <= 1700000,
        -1700000 <= wy <= 1700000,
        -1700000 <= wz <= 1700000,
    ensures
        r == block_at_world(*cfg, wx as int, wy as int, wz as int),
{
    let mix: i64 = (wx + 2000000) * 31 + (wz + 2000000) * 17 + (cfg.seed % 256) as i64;
    let h: i64 = (cfg.base_height as i64) + mix % (cfg.amplitude as i64);
    let kind = if wy >= h {
        BlockKind::Air
    } else if wy == h - 1 {
        BlockKind::Grass
    } else if wy >= h - 3 {
        BlockKind::Dirt
    } else {
        BlockKind::Stone
    };
    Block { kind }
}

/// The deterministic terrain generator: `generate` is a pure function of
/// the configuration and the chunk coordinate.
pub struct WorldGenerator {
    pub config: GeneratorConfig,
}

impl WorldGenerator {
    pub fn new(config: GeneratorConfig) -> (r: WorldGenerator)
        ensures
            r.config == config,
    {
        WorldGenerator { config }
    }

    /// Produces the block grid of the chunk at `coord`.  The result is
    /// exactly [`generated_grid`] of the configuration and the coordinate:
    /// no other input exists, so repeated calls agree bit for bit.
    pub fn generate(&self, coord: ChunkCoord) -> (r: BlockGrid)
        requires
            self.config.wf(),
            coord_in_world(coord.key()),
        ensures
            r.wf(),
            r.blocks@ == generated_grid(self.config, coord.key()),
    {
        let mut blocks: Vec<Block> = Vec::new();
        let mut bi: usize = 0;
        while bi < crate::chunk::BLOCKS_PER_CHUNK
            invariant
                self.config.wf(),
                coord_in_world(coord.key()),
                bi <= 4096,
                blocks@.len() == bi,
                forall|j: int|
                    0 <= j < bi ==> blocks@[j] == generated_grid(self.config, coord.key())[j],
            decreases 4096 - bi,
        {
            let x = bi / 16 / 16;
            let y = (bi / 16) % 16;
            let z = bi % 16;
            proof {
                vstd::arithmetic::div_mod::lemma_fundamental_div_mod(bi as int, 16);
                vstd::arithmetic::div_mod::lemma_fundamental_div_mod(bi as int / 16, 16);
                assert(x < 16 && y < 16 && z < 16);
            }
            let wx: i64 = (coord.x as i64) * 16 + (x as i64);
            let wy: i64 = (coord.y as i64) * 16 + (y as i64);
            let wz: i64 = (coord.z as i64) * 16 + (z as i64);
            blocks.push(terrain_block(&self.config, wx, wy, wz));
            bi = bi + 1;
        }
        let r = BlockGrid { blocks };
        proof {
            assert(r.blocks@ =~= generated_grid(self.config, coord.key()));
        }
        r
    }
}

/// Determinism: two grids generated from the same configuration and
/// coordinate are identical.
pub proof fn lemma_generator_deterministic(
    cfg: GeneratorConfig,
    c: (int, int, int),
    g1: BlockGrid,
    g2: BlockGrid,
)
    requires
        g1.blocks@ == generated_grid(cfg, c),
        g2.blocks@ == generated_grid(cfg, c),
    ensures
        g1.blocks@ == g2.blocks@,
{
}

} // verus!
