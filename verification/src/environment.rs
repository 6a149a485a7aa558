//! The closed enumerations of the simple-environment mesh format and the
//! per-vertex byte sizes its buffers are laid out with.
use vstd::prelude::*;

verus! {

/// The material families a mesh can declare.
#[derive(PartialEq, Eq, Structural, Clone, Copy, Debug)]
pub enum SimpleEnvironmentMaterialType {
    Default,
    Decal,
    WallOfGrass,
    FourBlend,
    AntiBrush,
}

/// The vertex layouts a mesh geometry can use.
#[derive(PartialEq, Eq, Structural, Clone, Copy, Debug)]
pub enum SimpleEnvironmentVertexType {
    Default,
    Position,
    Uv2,
    Color2,
}

/// The quality tiers a mesh can be tagged with.
#[derive(PartialEq, Eq, Structural, Clone, Copy, Debug)]
pub enum SimpleEnvironmentQuality {
    VeryLow,
    Low,
    Medium,
    High,
    VeryHigh,
}

/// The byte size of one vertex under a layout.
pub open spec fn spec_vertex_size(t: SimpleEnvironmentVertexType) -> usize {
    match t {
        SimpleEnvironmentVertexType::Default => 36,
        SimpleEnvironmentVertexType::Position => 12,
        SimpleEnvironmentVertexType::Uv2 => 44,
        SimpleEnvironmentVertexType::Color2 => 40,
    }
}

impl SimpleEnvironmentVertexType {
    /// The byte size of one vertex under this layout.
    pub fn size(&self) -> (r: usize)
        ensures
            r == spec_vertex_size(*self),
    {
        match self {
            SimpleEnvironmentVertexType::Default => 36,
            SimpleEnvironmentVertexType::Position => 12,
            SimpleEnvironmentVertexType::Uv2 => 44,
            SimpleEnvironmentVertexType::Color2 => 40,
        }
    }
}

/// A window into a vertex buffer: its byte size and its absolute offset in
/// the stream.
#[derive(PartialEq, Eq, Structural, Clone, Copy, Debug)]
pub struct SimpleEnvironmentVertexBuffer {
    pub size: u32,
    pub offset: u64,
}

impl SimpleEnvironmentVertexBuffer {
    /// The buffer's byte size.
    pub fn size(&self) -> (r: u32)
        ensures
            r == self.size,
    {
        self.size
    }

    /// The buffer's absolute byte offset.
    pub fn offset(&self) -> (r: u64)
        ensures
            r == self.offset,
    {
        self.offset
    }
}

} // verus!
