//! The smallest addressable unit of the world: a material kind together with
//! its solidity classification.  Solidity is a pure function of the kind, so
//! a face between two adjacent blocks is culled or kept based on the kinds
//! alone.

use vstd::prelude::*;

verus! {

/// The material of a block.  `Air` is the one non-solid kind.
#[derive(Clone, Copy, PartialEq, Eq, Structural, Debug)]
pub enum BlockKind {
    Air,
    Grass,
    Dirt,
    Stone,
}

/// One cell of a chunk's grid.
#[derive(Clone, Copy, PartialEq, Eq, Structural, Debug)]
pub struct Block {
    pub kind: BlockKind,
}

impl Block {
    /// Whether the block occupies space and culls its neighbors' faces:
    /// every kind but `Air` does.
    pub open spec fn solid(self) -> bool {
        self.kind != BlockKind::Air
    }

    /// Runtime counterpart of [`Block::solid`]: constant-time, no allocation.
    pub fn is_solid(&self) -> (r: bool)
        ensures
            r == self.solid(),
    {
        !matches!(self.kind, BlockKind::Air)
    }

    pub fn air() -> (r: Block)
        ensures
            !r.solid(),
            r.kind == BlockKind::Air,
    {
        Block { kind: BlockKind::Air }
    }
}

} // verus!
