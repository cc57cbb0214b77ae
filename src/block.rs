use vstd::prelude::*;
use crate::geometry::{Rect, Vec2};

verus! {

pub const BLOCK_W: i32 = 100;

pub const BLOCK_H: i32 = 40;

/// Hit-points of a freshly built block.
pub const BLOCK_LIVES: i32 = 2;

#[derive(Clone, Copy, Debug, PartialEq, Eq, Structural)]
pub enum BlockType {
    Regular,
    SpawnBallOnDeath,
}

/// The colour a block is drawn in.
#[derive(Clone, Copy, Debug, PartialEq, Eq, Structural)]
pub enum BlockColor {
    Red,
    Orange,
    Green,
}

#[derive(Clone, Copy, Debug, PartialEq, Eq, Structural)]
pub struct Block {
    pub rect: Rect,
    pub lives: i32,
    pub block_type: BlockType,
}

/// A regular block is red while untouched and orange once hit; the special
/// variant is green whatever its hit-points.
pub open spec fn color_of(block_type: BlockType, lives: int) -> BlockColor {
    match block_type {
        BlockType::Regular => if lives == 2 {
            BlockColor::Red
        } else {
            BlockColor::Orange
        },
        BlockType::SpawnBallOnDeath => BlockColor::Green,
    }
}

impl Block {
    pub open spec fn wf(self) -> bool {
        self.rect.wf()
    }

    /// A block of the standard size at `pos`, with full hit-points.
    pub fn new(pos: Vec2, block_type: BlockType) -> (r: Block)
        requires
            pos.x + BLOCK_W <= i32::MAX,
            pos.y + BLOCK_H <= i32::MAX,
        ensures
            r == (Block {
                rect: Rect { x: pos.x, y: pos.y, w: BLOCK_W, h: BLOCK_H },
                lives: BLOCK_LIVES,
                block_type,
            }),
            r.wf(),
    {
        Block { rect: Rect::new(pos.x, pos.y, BLOCK_W, BLOCK_H), lives: BLOCK_LIVES, block_type }
    }

    pub fn color(&self) -> (r: BlockColor)
        ensures
            r == color_of(self.block_type, self.lives as int),
    {
        match self.block_type {
            BlockType::Regular => if self.lives == 2 {
                BlockColor::Red
            } else {
                BlockColor::Orange
            },
            BlockType::SpawnBallOnDeath => BlockColor::Green,
        }
    }
}

/// The colour depends on the variant and hit-points alone and covers every case:
/// red and orange for a regular block at two and one hit-points, green for the
/// special variant at any hit-points.
pub proof fn lemma_color_mapping(lives: int)
    ensures
        color_of(BlockType::Regular, 2) == BlockColor::Red,
        color_of(BlockType::Regular, 1) == BlockColor::Orange,
        color_of(BlockType::SpawnBallOnDeath, lives) == BlockColor::Green,
{
}

} // verus!
