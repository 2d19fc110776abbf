//! A chunk (sector): a fixed-size cuboid region of the block grid, the unit
//! of generation, meshing and streaming.  A chunk is addressed by an integer
//! chunk-space coordinate, owns a `CHUNK_SIZE`³ block grid once generated and
//! a surface payload once meshed, and carries its lifecycle state.  Chunks
//! never reference one another: neighbor lookups go back through the world
//! registry by coordinate.

use vstd::prelude::*;

use crate::algorithm::MeshData;
use crate::block::Block;
use crate::block::BlockKind;

verus! {

/// Blocks per chunk edge.
pub const CHUNK_SIZE: usize = 16;

/// Blocks per chunk: `CHUNK_SIZE` cubed.
pub const BLOCKS_PER_CHUNK: usize = 4096;

/// A chunk-space coordinate (not block-space: one step is a whole chunk).
#[derive(Clone, Copy, PartialEq, Eq, Structural, Debug)]
pub struct ChunkCoord {
    pub x: i32,
    pub y: i32,
    pub z: i32,
}

impl ChunkCoord {
    /// The coordinate as a mathematical triple, the key the world registry
    /// is specified over.
    pub open spec fn key(self) -> (int, int, int) {
        (self.x as int, self.y as int, self.z as int)
    }

    pub fn new(x: i32, y: i32, z: i32) -> (r: ChunkCoord)
        ensures
            r == (ChunkCoord { x, y, z }),
    {
        ChunkCoord { x, y, z }
    }
}

/// Lifecycle of a chunk coordinate inside the world registry.  The terminal
/// "destroyed" state is the absence of the entry, not a tombstone variant.
#[derive(Clone, Copy, PartialEq, Eq, Structural, Debug)]
pub enum ChunkState {
    /// Entered the active radius; terrain not yet dispatched.
    Requested,
    /// A worker is producing the block grid.
    Generating,
    /// Block grid present; surface not yet built.
    Generated,
    /// The mesher is building the surface.
    Meshing,
    /// Surface payload present; ready for the host engine.
    Active,
    /// Leaving the working set; payload about to be dropped.
    Unloading,
}

/// Position of the block `(x, y, z)` inside the flat grid: x-major, then y,
/// then z — the mesher's fixed iteration order.
pub open spec fn grid_index(x: int, y: int, z: int) -> int {
    (x * 16 + y) * 16 + z
}

/// Whether `(x, y, z)` is a local block position inside a chunk.
pub open spec fn in_chunk(x: int, y: int, z: int) -> bool {
    &&& 0 <= x < 16
    &&& 0 <= y < 16
    &&& 0 <= z < 16
}

/// A chunk's block contents: a flat `CHUNK_SIZE`³ grid in x-major order.
pub struct BlockGrid {
    pub blocks: Vec<Block>,
}

impl BlockGrid {
    /// A grid holds exactly one block per cell.
    pub open spec fn wf(self) -> bool {
        self.blocks@.len() == 4096
    }

    /// The block at local position `(x, y, z)`.
    pub open spec fn block_at(self, x: int, y: int, z: int) -> Block {
        self.blocks@[grid_index(x, y, z)]
    }

    /// Whether the block at local position `(x, y, z)` is solid.
    pub open spec fn solid_at(self, x: int, y: int, z: int) -> bool {
        self.block_at(x, y, z).solid()
    }

    /// A grid entirely filled with one block.
    pub fn filled(b: Block) -> (r: BlockGrid)
        ensures
            r.wf(),
            forall|x: int, y: int, z: int|
                in_chunk(x, y, z) ==> r.block_at(x, y, z) == b,
    {
        let mut blocks: Vec<Block> = Vec::new();
        let mut i: usize = 0;
        while i < BLOCKS_PER_CHUNK
            invariant
                i <= 4096,
                blocks@.len() == i,
                forall|j: int| 0 <= j < i ==> blocks@[j] == b,
            decreases 4096 - i,
        {
            blocks.push(b);
            i = i + 1;
        }
        let r = BlockGrid { blocks };
        proof {
            assert forall|x: int, y: int, z: int| in_chunk(x, y, z) implies r.block_at(
                x,
                y,
                z,
            ) == b by {
                lemma_grid_index_bounds(x, y, z);
            }
        }
        r
    }

    /// The block at local position `(x, y, z)`.
    pub fn get(&self, x: usize, y: usize, z: usize) -> (r: Block)
        requires
            self.wf(),
            x < 16,
            y < 16,
            z < 16,
        ensures
            r == self.block_at(x as int, y as int, z as int),
    {
        self.blocks[(x * CHUNK_SIZE + y) * CHUNK_SIZE + z]
    }

    /// Replaces the block at local position `(x, y, z)`.
    pub fn set(&mut self, x: usize, y: usize, z: usize, b: Block)
        requires
            old(self).wf(),
            x < 16,
            y < 16,
            z < 16,
        ensures
            final(self).wf(),
            final(self).blocks@ == old(self).blocks@.update(
                grid_index(x as int, y as int, z as int),
                b,
            ),
            final(self).block_at(x as int, y as int, z as int) == b,
            forall|xx: int, yy: int, zz: int|
                in_chunk(xx, yy, zz) && (xx, yy, zz) != (x as int, y as int, z as int)
                    ==> final(self).block_at(xx, yy, zz) == old(self).block_at(xx, yy, zz),
    {
        let i = (x * CHUNK_SIZE + y) * CHUNK_SIZE + z;
        let e = &mut self.blocks[i];
        *e = b;
        proof {
            assert forall|xx: int, yy: int, zz: int|
                in_chunk(xx, yy, zz) && (xx, yy, zz) != (x as int, y as int, z as int)
                    implies self.block_at(xx, yy, zz) == old(self).block_at(xx, yy, zz) by {
                lemma_grid_index_injective(xx, yy, zz, x as int, y as int, z as int);
                lemma_grid_index_bounds(xx, yy, zz);
            }
        }
    }
}

/// Distinct in-chunk positions occupy distinct grid cells.
pub proof fn lemma_grid_index_injective(x1: int, y1: int, z1: int, x2: int, y2: int, z2: int)
    requires
        in_chunk(x1, y1, z1),
        in_chunk(x2, y2, z2),
        (x1, y1, z1) != (x2, y2, z2),
    ensures
        grid_index(x1, y1, z1) != grid_index(x2, y2, z2),
{
}

/// Every in-chunk position maps into the flat grid's bounds.
pub proof fn lemma_grid_index_bounds(x: int, y: int, z: int)
    requires
        in_chunk(x, y, z),
    ensures
        0 <= grid_index(x, y, z) < 4096,
{
}

/// One chunk of the world: coordinate, lifecycle state, and the owned
/// payloads.  The grid appears when generation completes; the mesh appears
/// when meshing completes and is dropped again whenever the contents change,
/// so no stale geometry ever survives a mutation.
pub struct Chunk {
    pub coord: ChunkCoord,
    pub state: ChunkState,
    pub grid: Option<BlockGrid>,
    pub mesh: Option<MeshData>,
    pub dirty: bool,
}

impl Chunk {
    /// Structural invariant tying the payloads to the lifecycle state.
    pub open spec fn wf(self) -> bool {
        &&& (self.state == ChunkState::Generated || self.state == ChunkState::Meshing
            || self.state == ChunkState::Active || self.state == ChunkState::Unloading)
            ==> self.grid is Some
        &&& (self.grid is Some ==> self.grid->Some_0.wf())
        &&& (self.mesh is Some ==> self.state == ChunkState::Active || self.state
            == ChunkState::Unloading)
    }

    /// A freshly requested chunk: no contents yet.
    pub fn new(coord: ChunkCoord) -> (r: Chunk)
        ensures
            r.wf(),
            r.coord == coord,
            r.state == ChunkState::Requested,
            r.grid is None,
            r.mesh is None,
            !r.dirty,
    {
        Chunk { coord, state: ChunkState::Requested, grid: None, mesh: None, dirty: false }
    }

    /// Whether this chunk still needs its terrain produced.
    pub fn needs_generation(&self) -> (r: bool)
        ensures
            r == (self.state == ChunkState::Requested),
    {
        matches!(self.state, ChunkState::Requested)
    }

    /// Whether this chunk has terrain but no surface yet.
    pub fn needs_meshing(&self) -> (r: bool)
        ensures
            r == (self.state == ChunkState::Generated),
    {
        matches!(self.state, ChunkState::Generated)
    }

    /// Stores a produced block grid: the chunk becomes `Generated` and is
    /// eligible for meshing.  Any previous surface is dropped.
    pub fn complete_generation(&mut self, grid: BlockGrid)
        requires
            old(self).wf(),
            grid.wf(),
        ensures
            final(self).wf(),
            final(self).coord == old(self).coord,
            final(self).state == ChunkState::Generated,
            final(self).grid == Some(grid),
            final(self).mesh is None,
            final(self).dirty == old(self).dirty,
    {
        self.grid = Some(grid);
        self.mesh = None;
        self.state = ChunkState::Generated;
    }

    /// Replaces one block, marking the chunk dirty and dropping its surface:
    /// the payload never goes stale, and the chunk is meshed again (terrain
    /// is kept, not regenerated).
    pub fn mutate_block(&mut self, x: usize, y: usize, z: usize, kind: BlockKind)
        requires
            old(self).wf(),
            old(self).grid is Some,
            x < 16,
            y < 16,
            z < 16,
        ensures
            final(self).wf(),
            final(self).coord == old(self).coord,
            final(self).state == ChunkState::Generated,
            final(self).mesh is None,
            final(self).dirty,
            final(self).grid is Some,
            final(self).grid->Some_0.block_at(x as int, y as int, z as int) == (Block { kind }),
            forall|xx: int, yy: int, zz: int|
                in_chunk(xx, yy, zz) && (xx, yy, zz) != (x as int, y as int, z as int)
                    ==> final(self).grid->Some_0.block_at(xx, yy, zz)
                        == old(self).grid->Some_0.block_at(xx, yy, zz),
    {
        match &mut self.grid {
            Some(g) => {
                g.set(x, y, z, Block { kind });
            },
            None => {},
        }
        self.mesh = None;
        self.dirty = true;
        self.state = ChunkState::Generated;
    }
}

} // verus!
