//! The kinds of block the world is built from.
use vstd::prelude::*;

verus! {

/// The material of a block.
#[derive(Debug, Clone, Copy, PartialEq, Eq, Hash, Structural)]
pub enum BlockType {
    Cobblestone,
    Sandstone,
}

/// How many kinds of block there are.
pub const NUM_BLOCK_TYPES: usize = 2;

/// The display name of a block type.
pub open spec fn block_name(b: BlockType) -> Seq<char> {
    match b {
        BlockType::Cobblestone => "cobblestone"@,
        BlockType::Sandstone => "sandstone"@,
    }
}

impl BlockType {
    /// The display name: "cobblestone" or "sandstone".
    pub fn to_string(&self) -> (r: String)
        ensures
            r@ == block_name(*self),
    {
        match self {
            BlockType::Cobblestone => "cobblestone".to_owned(),
            BlockType::Sandstone => "sandstone".to_owned(),
        }
    }
}

} // verus!
