//! Mesh data produced by the loader: a topology, vertex attributes and
//! optional indices, together with the packing of that data into the byte
//! form the GPU buffers hold.
//!
//! Vertex scalars are IEEE-754 single-precision values carried as their
//! 32-bit patterns, so that the crate never computes on floating point:
//! the loader moves the patterns unchanged from buffer bytes to attribute
//! data, and the packing writes them back as bytes.

use vstd::prelude::*;

verus! {

/// The GPU draw-call interpretation of vertex order.
#[derive(Clone, Copy, PartialEq, Eq, Structural, Debug)]
pub enum PrimitiveTopology {
    PointList,
    LineList,
    LineStrip,
    TriangleList,
    TriangleStrip,
}

/// The semantic of one vertex attribute.
#[derive(Clone, Copy, PartialEq, Eq, Structural, Debug)]
pub enum VertexSemantic {
    Position,
    Normal,
    Uv,
}

/// A named vertex attribute with its flat scalar buffer. Position and
/// normal hold three scalars per vertex, texture coordinates two.
#[derive(Clone, Debug)]
pub struct VertexAttribute {
    pub name: VertexSemantic,
    pub values: Vec<u32>,
}

impl VertexAttribute {
    /// A position attribute over the given scalars.
    pub fn position(values: Vec<u32>) -> (r: VertexAttribute)
        ensures
            r.name == VertexSemantic::Position,
            r.values == values,
    {
        VertexAttribute { name: VertexSemantic::Position, values }
    }

    /// A normal attribute over the given scalars.
    pub fn normal(values: Vec<u32>) -> (r: VertexAttribute)
        ensures
            r.name == VertexSemantic::Normal,
            r.values == values,
    {
        VertexAttribute { name: VertexSemantic::Normal, values }
    }

    /// A texture-coordinate attribute over the given scalars.
    pub fn uv(values: Vec<u32>) -> (r: VertexAttribute)
        ensures
            r.name == VertexSemantic::Uv,
            r.values == values,
    {
        VertexAttribute { name: VertexSemantic::Uv, values }
    }
}

/// One mesh: a topology, the attributes in insertion order (position,
/// normal, uv when present) and optional 32-bit indices.
#[derive(Clone, Debug)]
pub struct Mesh {
    pub primitive_topology: PrimitiveTopology,
    pub attributes: Vec<VertexAttribute>,
    pub indices: Option<Vec<u32>>,
}

/// The storage width indices are packed with.
#[derive(Clone, Copy, PartialEq, Eq, Structural, Debug)]
pub enum IndexFormat {
    Uint16,
    Uint32,
}

/// The mathematical content of a mesh: its topology, its attributes as
/// (semantic, scalars) pairs in order, and its indices.
#[verifier::ext_equal]
pub ghost struct MeshModel {
    pub topology: PrimitiveTopology,
    pub attributes: Seq<(VertexSemantic, Seq<u32>)>,
    pub indices: Option<Seq<u32>>,
}

/// The model of a mesh value.
pub open spec fn mesh_model(m: Mesh) -> MeshModel {
    MeshModel {
        topology: m.primitive_topology,
        attributes: m.attributes@.map_values(|a: VertexAttribute| (a.name, a.values@)),
        indices: match m.indices {
            Some(v) => Some(v@),
            None => None,
        },
    }
}

/// The scalars of the first attribute with the given semantic, if any.
pub open spec fn find_attr(attrs: Seq<VertexAttribute>, name: VertexSemantic) -> Option<Seq<u32>>
    decreases attrs.len(),
{
    if attrs.len() == 0 {
        None
    } else if attrs.first().name == name {
        Some(attrs.first().values@)
    } else {
        find_attr(attrs.drop_first(), name)
    }
}

/// A scalar of an optional attribute buffer; absent or out-of-range
/// scalars pack as zero.
pub open spec fn attr_scalar(vals: Option<Seq<u32>>, i: int) -> u32 {
    match vals {
        Some(v) => if 0 <= i < v.len() {
            v[i]
        } else {
            0
        },
        None => 0,
    }
}

/// How many vertices a mesh packs: one per position triple; a mesh
/// without positions packs no vertices.
pub open spec fn vertex_count(m: Mesh) -> int {
    match find_attr(m.attributes@, VertexSemantic::Position) {
        Some(v) => v.len() as int / 3,
        None => 0,
    }
}

/// Scalar `o` (0 to 7) of vertex `v`'s packed record: three position
/// scalars, three normal scalars, two texture-coordinate scalars.
pub open spec fn vertex_record_scalar(m: Mesh, v: int, o: int) -> u32 {
    if o < 3 {
        attr_scalar(find_attr(m.attributes@, VertexSemantic::Position), 3 * v + o)
    } else if o < 6 {
        attr_scalar(find_attr(m.attributes@, VertexSemantic::Normal), 3 * v + (o - 3))
    } else {
        attr_scalar(find_attr(m.attributes@, VertexSemantic::Uv), 2 * v + (o - 6))
    }
}

/// Byte `k` of the little-endian form of a 32-bit scalar.
pub open spec fn le_byte(x: u32, k: int) -> u8 {
    ((x >> ((8 * k) as u32)) & 0xffu32) as u8
}

/// The packed vertex buffer of a mesh: one 32-byte record per vertex,
/// scalars little-endian in record order.
pub open spec fn vertex_bytes(m: Mesh) -> Seq<u8> {
    Seq::new(
        (vertex_count(m) * 32) as nat,
        |i: int| le_byte(vertex_record_scalar(m, i / 32, (i % 32) / 4), i % 4),
    )
}

/// The byte width of an index format.
pub open spec fn index_format_width(f: IndexFormat) -> int {
    match f {
        IndexFormat::Uint16 => 2,
        IndexFormat::Uint32 => 4,
    }
}

/// The packed index buffer of a mesh: each index little-endian at the
/// format's width (a 16-bit format keeps the low 16 bits); a mesh without
/// indices packs to no bytes.
pub open spec fn index_bytes(m: Mesh, f: IndexFormat) -> Seq<u8> {
    match m.indices {
        None => Seq::empty(),
        Some(iv) => Seq::new(
            (iv@.len() * index_format_width(f)) as nat,
            |i: int| le_byte(iv@[i / index_format_width(f)], i % index_format_width(f)),
        ),
    }
}

/// The scalar at `i` of an optional attribute buffer, zero when the
/// buffer is absent or too short.
fn scalar_or_zero(vals: Option<&Vec<u32>>, i: usize) -> (x: u32)
    ensures
        x == attr_scalar(
            match vals {
                Some(v) => Some(v@),
                None => None,
            },
            i as int,
        ),
{
    match vals {
        Some(v) => if i < v.len() {
            v[i]
        } else {
            0
        },
        None => 0,
    }
}

impl Mesh {
    /// An empty mesh of the given topology.
    pub fn new(primitive_topology: PrimitiveTopology) -> (r: Mesh)
        ensures
            r.primitive_topology == primitive_topology,
            r.attributes@ =~= Seq::<VertexAttribute>::empty(),
            r.indices is None,
    {
        Mesh { primitive_topology, attributes: Vec::new(), indices: None }
    }

    /// The first attribute with the given semantic.
    pub fn find_attribute(&self, name: VertexSemantic) -> (r: Option<&Vec<u32>>)
        ensures
            match r {
                Some(v) => find_attr(self.attributes@, name) == Some(v@),
                None => find_attr(self.attributes@, name) is None,
            },
    {
        let n = self.attributes.len();
        assert(self.attributes@.skip(0) =~= self.attributes@);
        for i in 0..n
            invariant
                n == self.attributes@.len(),
                find_attr(self.attributes@.skip(i as int), name) == find_attr(
                    self.attributes@,
                    name,
                ),
        {
            assert(self.attributes@.skip(i as int).first() == self.attributes@[i as int]);
            if self.attributes[i].name == name {
                assert(find_attr(self.attributes@.skip(i as int), name) == Some(
                    self.attributes@[i as int].values@,
                ));
                return Some(&self.attributes[i].values);
            }
            assert(self.attributes@.skip(i as int).drop_first() =~= self.attributes@.skip(
                i as int + 1,
            ));
        }
        assert(self.attributes@.skip(n as int) =~= Seq::<VertexAttribute>::empty());
        None
    }

    /// Scalar `o` of vertex `v`'s packed record.
    fn record_scalar(&self, v: usize, o: usize) -> (x: u32)
        requires
            o < 8,
            v < vertex_count(*self),
        ensures
            x == vertex_record_scalar(*self, v as int, o as int),
    {
        let posvals = self.find_attribute(VertexSemantic::Position);
        let pl: usize = match posvals {
            Some(vals) => vals.len(),
            None => 0,
        };
        proof {
            assert(find_attr(self.attributes@, VertexSemantic::Position) is Some);
            assert(3 * ((pl as int) / 3) <= pl as int) by (nonlinear_arith)
                requires
                    0 <= pl as int,
            ;
            assert(3 * (v as int) + 2 < pl as int);
        }
        if o < 3 {
            scalar_or_zero(posvals, 3 * v + o)
        } else if o < 6 {
            let vals = self.find_attribute(VertexSemantic::Normal);
            scalar_or_zero(vals, 3 * v + (o - 3))
        } else {
            let vals = self.find_attribute(VertexSemantic::Uv);
            scalar_or_zero(vals, 2 * v + (o - 6))
        }
    }

    /// The packed vertex buffer of this mesh: 32-byte records holding the
    /// position, normal and texture-coordinate scalars little-endian,
    /// absent attributes padded with zero.
    pub fn get_vertex_buffer_bytes(&self) -> (r: Vec<u8>)
        ensures
            r@ == vertex_bytes(*self),
    {
        let mut out: Vec<u8> = Vec::new();
        let n = match self.find_attribute(VertexSemantic::Position) {
            Some(vals) => vals.len() / 3,
            None => 0,
        };
        assert(n == vertex_count(*self));
        for v in 0..n
            invariant
                n == vertex_count(*self),
                out@ =~= vertex_bytes(*self).take(v as int * 32),
        {
            for o in 0..8usize
                invariant
                    v < n,
                    n == vertex_count(*self),
                    out@ =~= vertex_bytes(*self).take(v as int * 32 + o as int * 4),
            {
                let x = self.record_scalar(v, o);
                for k in 0..4usize
                    invariant
                        v < n,
                        o < 8,
                        n == vertex_count(*self),
                        x == vertex_record_scalar(*self, v as int, o as int),
                        out@ =~= vertex_bytes(*self).take(
                            v as int * 32 + o as int * 4 + k as int,
                        ),
                {
                    let shift: u32 = 8 * (k as u32);
                    out.push(((x >> shift) & 0xff) as u8);
                    assert(out@ =~= vertex_bytes(*self).take(
                        v as int * 32 + o as int * 4 + k as int + 1,
                    ));
                }
            }
        }
        assert(out@ =~= vertex_bytes(*self));
        out
    }

    /// The packed index buffer of this mesh at the given index width; a
    /// mesh without indices packs to no bytes.
    pub fn get_index_buffer_bytes(&self, format: IndexFormat) -> (r: Vec<u8>)
        ensures
            r@ == index_bytes(*self, format),
    {
        let mut out: Vec<u8> = Vec::new();
        let iv = match &self.indices {
            None => {
                assert(out@ =~= index_bytes(*self, format));
                return out;
            },
            Some(iv) => iv,
        };
        let w: usize = match format {
            IndexFormat::Uint16 => 2,
            IndexFormat::Uint32 => 4,
        };
        let n = iv.len();
        for i in 0..n
            invariant
                n == iv@.len(),
                w == index_format_width(format),
                self.indices == Some(*iv),
                out@ =~= index_bytes(*self, format).take(i as int * w as int),
        {
            let x = iv[i];
            for k in 0..w
                invariant
                    i < n,
                    n == iv@.len(),
                    w == index_format_width(format),
                    self.indices == Some(*iv),
                    x == iv@[i as int],
                    out@ =~= index_bytes(*self, format).take(i as int * w as int + k as int),
            {
                let shift: u32 = 8 * (k as u32);
                out.push(((x >> shift) & 0xff) as u8);
                proof {
                    let wi = w as int;
                    let pos = i as int * wi + k as int;
                    assert(pos / wi == i as int && pos % wi == k as int && pos + 1 <= n as int
                        * wi) by (nonlinear_arith)
                        requires
                            0 <= k < wi,
                            0 <= i < n as int,
                            pos == i as int * wi + k as int,
                    ;
                }
                assert(out@ =~= index_bytes(*self, format).take(
                    i as int * w as int + k as int + 1,
                ));
            }
        }
        assert(out@ =~= index_bytes(*self, format));
        out
    }
}

/// The descriptor of the packed vertex buffer's field layout.
#[derive(Clone, Copy, PartialEq, Eq, Structural, Debug)]
pub struct VertexBufferDescriptor {
    pub stride: u64,
}

/// The one layout this crate packs vertices with: position, normal and
/// texture coordinates, 32 bytes per vertex.
pub open spec fn vertex_buffer_descriptor() -> VertexBufferDescriptor {
    VertexBufferDescriptor { stride: 32 }
}

/// The descriptor of the packed vertex layout.
pub fn as_vertex_buffer_descriptor() -> (r: VertexBufferDescriptor)
    ensures
        r == vertex_buffer_descriptor(),
{
    VertexBufferDescriptor { stride: 32 }
}

} // verus!
