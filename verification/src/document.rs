//! The in-memory object model of a parsed glTF document: buffer source
//! descriptions, accessors into raw buffer bytes, primitives, meshes, the
//! node hierarchy and the scene list. The host parses a glTF file with a
//! glTF library and hands the loader this plain-value model.

use vstd::prelude::*;

verus! {

/// One declared buffer of the document: either a URI (held as its raw
/// bytes), or the document's embedded binary chunk.
#[derive(Clone, Debug)]
pub enum BufferSource {
    Uri(Vec<u8>),
    Bin,
}

/// A view into one resolved buffer, describing `count` elements whose
/// components are 32-bit scalars laid out tightly from `byte_offset` on.
#[derive(Clone, Copy, Debug)]
pub struct Accessor {
    pub buffer: usize,
    pub byte_offset: usize,
    pub count: usize,
}

/// The storage width of one index value in an index accessor.
#[derive(Clone, Copy, PartialEq, Eq, Structural, Debug)]
pub enum IndexWidth {
    U8,
    U16,
    U32,
}

/// A view into one resolved buffer holding `count` index values of the
/// given width, laid out tightly from `byte_offset` on.
#[derive(Clone, Copy, Debug)]
pub struct IndexAccessor {
    pub buffer: usize,
    pub byte_offset: usize,
    pub count: usize,
    pub width: IndexWidth,
}

/// The draw mode a glTF primitive declares.
#[derive(Clone, Copy, PartialEq, Eq, Structural, Debug)]
pub enum Mode {
    Points,
    Lines,
    LineLoop,
    LineStrip,
    Triangles,
    TriangleStrip,
    TriangleFan,
}

/// One drawable geometry chunk of a glTF mesh: a draw mode plus the
/// accessors of its vertex attributes and indices. Positions and normals
/// are three-component, texture coordinates two-component; an absent
/// accessor means the attribute is absent in the source data.
#[derive(Clone, Copy, Debug)]
pub struct Primitive {
    pub mode: Mode,
    pub positions: Option<Accessor>,
    pub normals: Option<Accessor>,
    pub tex_coords: Option<Accessor>,
    pub indices: Option<IndexAccessor>,
}

/// A glTF mesh: a list of primitives.
#[derive(Clone, Debug)]
pub struct GltfMesh {
    pub primitives: Vec<Primitive>,
}

/// A node of the glTF node hierarchy: an optional mesh index and the
/// indices of its children, in declaration order.
#[derive(Clone, Debug)]
pub struct GltfNode {
    pub mesh: Option<usize>,
    pub children: Vec<usize>,
}

/// One scene of the document: the indices of its root nodes.
#[derive(Clone, Debug)]
pub struct GltfSceneDesc {
    pub nodes: Vec<usize>,
}

/// A parsed glTF document, reduced to what the loader reads.
#[derive(Clone, Debug)]
pub struct GltfDocument {
    pub buffers: Vec<BufferSource>,
    pub meshes: Vec<GltfMesh>,
    pub nodes: Vec<GltfNode>,
    pub scenes: Vec<GltfSceneDesc>,
}

} // verus!
