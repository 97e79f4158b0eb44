//! Loading a glTF document model into a scene asset: buffer resolution,
//! primitive extraction, the recursive scene walk, and the loader entry
//! point.

use vstd::prelude::*;

use crate::document::{
    Accessor, BufferSource, GltfDocument, IndexAccessor, IndexWidth, Mode, Primitive,
};
use crate::mesh::{
    mesh_model, Mesh, MeshModel, PrimitiveTopology, VertexAttribute, VertexSemantic,
};
use crate::gltf_scene::GltfScene;

verus! {

/// An error that occurs when loading a glTF file.
#[derive(Clone, Copy, PartialEq, Eq, Structural, Debug)]
pub enum GltfError {
    /// A primitive declares a draw mode outside the supported family.
    UnsupportedPrimitive { mode: Mode },
    /// The document could not be parsed.
    Gltf,
    /// An external buffer file could not be read.
    Io,
    /// The document's embedded binary chunk is not supported.
    BinaryBuffersUnsupported,
    /// A data URI's base64 payload is malformed.
    Base64Decode,
    /// A data URI of an unsupported media type.
    BufferFormatUnsupported,
    /// No mesh was found anywhere in the document.
    NoMeshFound,
}

/// The topology of a supported draw mode; unsupported modes have none.
pub open spec fn topology_of(mode: Mode) -> Option<PrimitiveTopology> {
    match mode {
        Mode::Points => Some(PrimitiveTopology::PointList),
        Mode::Lines => Some(PrimitiveTopology::LineList),
        Mode::LineStrip => Some(PrimitiveTopology::LineStrip),
        Mode::Triangles => Some(PrimitiveTopology::TriangleList),
        Mode::TriangleStrip => Some(PrimitiveTopology::TriangleStrip),
        Mode::LineLoop => None,
        Mode::TriangleFan => None,
    }
}

/// Maps a primitive's draw mode to its topology. Total over all modes:
/// each supported mode maps to its topology, and every other mode fails
/// with `UnsupportedPrimitive` carrying the original mode.
pub fn get_primitive_topology(mode: Mode) -> (r: Result<PrimitiveTopology, GltfError>)
    ensures
        match topology_of(mode) {
            Some(t) => r == Ok::<PrimitiveTopology, GltfError>(t),
            None => r == Err::<PrimitiveTopology, GltfError>(
                GltfError::UnsupportedPrimitive { mode },
            ),
        },
{
    match mode {
        Mode::Points => Ok(PrimitiveTopology::PointList),
        Mode::Lines => Ok(PrimitiveTopology::LineList),
        Mode::LineStrip => Ok(PrimitiveTopology::LineStrip),
        Mode::Triangles => Ok(PrimitiveTopology::TriangleList),
        Mode::TriangleStrip => Ok(PrimitiveTopology::TriangleStrip),
        Mode::LineLoop => Err(GltfError::UnsupportedPrimitive { mode }),
        Mode::TriangleFan => Err(GltfError::UnsupportedPrimitive { mode }),
    }
}

/// What a base64 payload decodes to, if it is well-formed: a function of
/// the payload bytes alone.
pub uninterp spec fn base64_decode_spec(s: Seq<u8>) -> Option<Seq<u8>>;

/// Relies on base64::decode: whether a payload is well-formed base64, and
/// the bytes it encodes, depend on the payload alone.
#[verifier::external_body]
fn base64_decode(input: &[u8]) -> (r: Option<Vec<u8>>)
    ensures
        match r {
            Some(b) => base64_decode_spec(input@) == Some(b@),
            None => base64_decode_spec(input@) is None,
        },
{
    base64::decode(input).ok()
}

/// The URI prefix of an inline base64 buffer of the supported media type:
/// the bytes of `data:application/octet-stream;base64,`.
pub open spec fn octet_stream_prefix() -> Seq<u8> {
    seq![
        100u8, 97u8, 116u8, 97u8, 58u8, 97u8, 112u8, 112u8, 108u8, 105u8, 99u8, 97u8, 116u8,
        105u8, 111u8, 110u8, 47u8, 111u8, 99u8, 116u8, 101u8, 116u8, 45u8, 115u8, 116u8, 114u8,
        101u8, 97u8, 109u8, 59u8, 98u8, 97u8, 115u8, 101u8, 54u8, 52u8, 44u8,
    ]
}

/// The bytes of the `data:` URI scheme prefix.
pub open spec fn data_scheme_prefix() -> Seq<u8> {
    octet_stream_prefix().take(5)
}

/// The URI prefix of an inline base64 buffer, as a byte vector.
fn octet_stream_uri_prefix() -> (r: Vec<u8>)
    ensures
        r@ =~= octet_stream_prefix(),
{
    let mut v: Vec<u8> = Vec::new();
    v.push(100);
    v.push(97);
    v.push(116);
    v.push(97);
    v.push(58);
    v.push(97);
    v.push(112);
    v.push(112);
    v.push(108);
    v.push(105);
    v.push(99);
    v.push(97);
    v.push(116);
    v.push(105);
    v.push(111);
    v.push(110);
    v.push(47);
    v.push(111);
    v.push(99);
    v.push(116);
    v.push(101);
    v.push(116);
    v.push(45);
    v.push(115);
    v.push(116);
    v.push(114);
    v.push(101);
    v.push(97);
    v.push(109);
    v.push(59);
    v.push(98);
    v.push(97);
    v.push(115);
    v.push(101);
    v.push(54);
    v.push(52);
    v.push(44);
    v
}

/// Whether `s` begins with `p`.
pub open spec fn seq_starts_with(s: Seq<u8>, p: Seq<u8>) -> bool {
    p.len() <= s.len() && forall|i: int| 0 <= i < p.len() ==> s[i] == p[i]
}

/// Whether a byte slice begins with a prefix.
fn bytes_start_with(s: &[u8], p: &[u8]) -> (r: bool)
    ensures
        r == seq_starts_with(s@, p@),
{
    if p.len() > s.len() {
        return false;
    }
    let n = p.len();
    for i in 0..n
        invariant
            n == p@.len() <= s@.len(),
            forall|j: int| 0 <= j < i ==> s@[j] == p@[j],
    {
        if s[i] != p[i] {
            return false;
        }
    }
    true
}

/// What one declared buffer source resolves to, given the bytes the host
/// read for it if it is an external file URI: the decoded payload of a
/// supported data URI, the file bytes of a plain URI, or the error the
/// source is rejected with.
pub open spec fn resolve_source(src: BufferSource, file: Option<Vec<u8>>) -> Result<
    Seq<u8>,
    GltfError,
> {
    match src {
        BufferSource::Bin => Err(GltfError::BinaryBuffersUnsupported),
        BufferSource::Uri(uri) => if seq_starts_with(uri@, data_scheme_prefix()) {
            if seq_starts_with(uri@, octet_stream_prefix()) {
                match base64_decode_spec(uri@.skip(octet_stream_prefix().len() as int)) {
                    Some(b) => Ok(b),
                    None => Err(GltfError::Base64Decode),
                }
            } else {
                Err(GltfError::BufferFormatUnsupported)
            }
        } else {
            match file {
                Some(b) => Ok(b@),
                None => Err(GltfError::Io),
            }
        },
    }
}

/// What a buffer source list resolves to: one byte buffer per source in
/// declaration order, or the first source's error.
pub open spec fn resolve_all(srcs: Seq<BufferSource>, files: Seq<Option<Vec<u8>>>) -> Result<
    Seq<Seq<u8>>,
    GltfError,
>
    decreases srcs.len(),
{
    if srcs.len() == 0 {
        Ok(Seq::empty())
    } else {
        match resolve_source(srcs.first(), files.first()) {
            Err(e) => Err(e),
            Ok(b) => match resolve_all(srcs.drop_first(), files.drop_first()) {
                Err(e) => Err(e),
                Ok(bs) => Ok(seq![b] + bs),
            },
        }
    }
}

/// The byte contents of a list of byte vectors.
pub open spec fn bytes_view(s: Seq<Vec<u8>>) -> Seq<Seq<u8>> {
    s.map_values(|v: Vec<u8>| v@)
}

/// Copies a byte vector.
fn copy_bytes(src: &Vec<u8>) -> (r: Vec<u8>)
    ensures
        r@ == src@,
{
    let mut out: Vec<u8> = Vec::new();
    let n = src.len();
    for i in 0..n
        invariant
            n == src@.len(),
            out@ =~= src@.take(i as int),
    {
        out.push(src[i]);
        assert(out@ =~= src@.take(i as int + 1));
    }
    assert(out@ =~= src@);
    out
}

/// Resolves each declared buffer source into its raw bytes, in
/// declaration order. `files` holds, for each source, the bytes the host
/// read for it if it is an external file URI and the read succeeded.
/// Fails with the first failing source's error: `Base64Decode` on a
/// malformed supported data URI, `BufferFormatUnsupported` on a data URI
/// of another media type, `Io` on an unread external file, and
/// `BinaryBuffersUnsupported` on the embedded binary chunk.
pub fn load_buffers(sources: &Vec<BufferSource>, files: &Vec<Option<Vec<u8>>>) -> (r: Result<
    Vec<Vec<u8>>,
    GltfError,
>)
    requires
        files@.len() == sources@.len(),
    ensures
        match resolve_all(sources@, files@) {
            Ok(bs) => r is Ok && bytes_view(r->Ok_0@) == bs,
            Err(e) => r == Err::<Vec<Vec<u8>>, GltfError>(e),
        },
{
    let mut out: Vec<Vec<u8>> = Vec::new();
    let n = sources.len();
    let prefix = octet_stream_uri_prefix();
    assert(sources@.skip(0) =~= sources@ && files@.skip(0) =~= files@);
    assert(bytes_view(out@) =~= Seq::<Seq<u8>>::empty());
    for i in 0..n
        invariant
            n == sources@.len(),
            files@.len() == sources@.len(),
            out@.len() == i,
            prefix@ =~= octet_stream_prefix(),
            match resolve_all(sources@.skip(i as int), files@.skip(i as int)) {
                Ok(bs) => resolve_all(sources@, files@) == Ok::<Seq<Seq<u8>>, GltfError>(
                    bytes_view(out@) + bs,
                ),
                Err(e) => resolve_all(sources@, files@) == Err::<Seq<Seq<u8>>, GltfError>(e),
            },
    {
        proof {
            assert(sources@.skip(i as int).first() == sources@[i as int]);
            assert(files@.skip(i as int).first() == files@[i as int]);
            assert(sources@.skip(i as int).drop_first() =~= sources@.skip(i as int + 1));
            assert(files@.skip(i as int).drop_first() =~= files@.skip(i as int + 1));
        }
        let ghost prev = out@;
        match &sources[i] {
            BufferSource::Bin => {
                return Err(GltfError::BinaryBuffersUnsupported);
            },
            BufferSource::Uri(uri) => {
                let data_prefix = vstd::slice::slice_subrange(prefix.as_slice(), 0, 5);
                if bytes_start_with(uri.as_slice(), data_prefix) {
                    if bytes_start_with(uri.as_slice(), prefix.as_slice()) {
                        let payload = vstd::slice::slice_subrange(
                            uri.as_slice(),
                            37,
                            uri.len(),
                        );
                        assert(payload@ =~= uri@.skip(octet_stream_prefix().len() as int));
                        match base64_decode(payload) {
                            Some(b) => {
                                out.push(b);
                            },
                            None => {
                                return Err(GltfError::Base64Decode);
                            },
                        }
                    } else {
                        return Err(GltfError::BufferFormatUnsupported);
                    }
                } else {
                    match &files[i] {
                        Some(b) => {
                            let copied = copy_bytes(b);
                            out.push(copied);
                        },
                        None => {
                            return Err(GltfError::Io);
                        },
                    }
                }
            },
        }
        proof {
            assert(resolve_source(sources@[i as int], files@[i as int]) == Ok::<Seq<u8>, GltfError>(
                out@.last()@,
            ));
            assert(bytes_view(out@) =~= bytes_view(prev) + seq![out@.last()@]);
            match resolve_all(sources@.skip(i as int + 1), files@.skip(i as int + 1)) {
                Ok(bs) => {
                    assert(bytes_view(prev) + (seq![out@.last()@] + bs) =~= bytes_view(out@) + bs);
                },
                Err(_) => {},
            }
        }
    }
    proof {
        assert(sources@.skip(n as int) =~= Seq::<BufferSource>::empty());
        assert(resolve_all(sources@.skip(n as int), files@.skip(n as int)) == Ok::<
            Seq<Seq<u8>>,
            GltfError,
        >(Seq::empty()));
        assert(bytes_view(out@) + Seq::<Seq<u8>>::empty() =~= bytes_view(out@));
    }
    Ok(out)
}

/// The 32-bit scalar at a byte offset of a buffer, little-endian.
pub open spec fn u32_at(buf: Seq<u8>, off: int) -> u32 {
    (buf[off] as u32) | ((buf[off + 1] as u32) << 8u32) | ((buf[off + 2] as u32) << 16u32) | ((
    buf[off + 3] as u32) << 24u32)
}

/// The 16-bit scalar at a byte offset of a buffer, little-endian, widened.
pub open spec fn u16_at(buf: Seq<u8>, off: int) -> u32 {
    (buf[off] as u32) | ((buf[off + 1] as u32) << 8u32)
}

/// Whether an accessor of `comps` 32-bit components per element lies
/// within its buffer.
pub open spec fn accessor_readable(acc: Accessor, bufs: Seq<Seq<u8>>, comps: int) -> bool {
    acc.buffer < bufs.len() && acc.byte_offset + 4 * comps * acc.count <= bufs[
        acc.buffer as int
    ].len()
}

/// The scalars of an accessor of `comps` 32-bit components per element,
/// tightly packed and little-endian.
pub open spec fn read_accessor(acc: Accessor, bufs: Seq<Seq<u8>>, comps: int) -> Seq<u32> {
    Seq::new(
        (acc.count * comps) as nat,
        |i: int| u32_at(bufs[acc.buffer as int], acc.byte_offset + 4 * i),
    )
}

/// The byte width of one stored index value.
pub open spec fn index_width_bytes(w: IndexWidth) -> int {
    match w {
        IndexWidth::U8 => 1,
        IndexWidth::U16 => 2,
        IndexWidth::U32 => 4,
    }
}

/// Whether an index accessor lies within its buffer.
pub open spec fn index_readable(acc: IndexAccessor, bufs: Seq<Seq<u8>>) -> bool {
    acc.buffer < bufs.len() && acc.byte_offset + index_width_bytes(acc.width) * acc.count <= bufs[
        acc.buffer as int
    ].len()
}

/// The index values of an index accessor, each widened to 32 bits.
pub open spec fn read_indices(acc: IndexAccessor, bufs: Seq<Seq<u8>>) -> Seq<u32> {
    Seq::new(
        acc.count as nat,
        |i: int| match acc.width {
            IndexWidth::U8 => bufs[acc.buffer as int][acc.byte_offset + i] as u32,
            IndexWidth::U16 => u16_at(bufs[acc.buffer as int], acc.byte_offset + 2 * i),
            IndexWidth::U32 => u32_at(bufs[acc.buffer as int], acc.byte_offset + 4 * i),
        },
    )
}

/// Checks that `count` elements of `elem_bytes` bytes each, from
/// `byte_offset` on, lie within the buffer at `buffer`.
fn check_extent(
    buffer: usize,
    byte_offset: usize,
    count: usize,
    elem_bytes: usize,
    bufs: &Vec<Vec<u8>>,
) -> (r: bool)
    requires
        1 <= elem_bytes <= 12,
    ensures
        r == (buffer < bufs@.len() && byte_offset + elem_bytes * count <= bytes_view(bufs@)[
            buffer as int
        ].len()),
{
    if buffer >= bufs.len() {
        return false;
    }
    let len = bufs[buffer].len();
    if byte_offset > len {
        return false;
    }
    let avail = len - byte_offset;
    let fits = count <= avail / elem_bytes;
    proof {
        let c = count as int;
        let a = avail as int;
        let e = elem_bytes as int;
        assert((c <= a / e) == (e * c <= a)) by (nonlinear_arith)
            requires
                1 <= e,
                0 <= a,
                0 <= c,
        ;
    }
    fits
}

/// Reads the scalars of an accessor of `comps` components per element;
/// absent when the accessor does not lie within its buffer.
fn read_accessor_scalars(acc: &Accessor, bufs: &Vec<Vec<u8>>, comps: usize) -> (r: Option<
    Vec<u32>,
>)
    requires
        1 <= comps <= 3,
    ensures
        match r {
            Some(v) => accessor_readable(*acc, bytes_view(bufs@), comps as int) && v@
                == read_accessor(*acc, bytes_view(bufs@), comps as int),
            None => !accessor_readable(*acc, bytes_view(bufs@), comps as int),
        },
{
    if !check_extent(acc.buffer, acc.byte_offset, acc.count, 4 * comps, bufs) {
        proof {
            assert(4 * (comps as int) * (acc.count as int) == (4 * comps) as int * (
            acc.count as int)) by (nonlinear_arith);
        }
        return None;
    }
    proof {
        assert(4 * (comps as int) * (acc.count as int) == (4 * comps) as int * (
        acc.count as int)) by (nonlinear_arith);
    }
    let buf = &bufs[acc.buffer];
    let blen = buf.len();
    proof {
        let c = acc.count as int;
        let k = comps as int;
        let off = acc.byte_offset as int;
        assert(c * k * 4 == 4 * k * c && c * k <= blen as int && off + 4 * (c * k)
            <= blen as int) by (nonlinear_arith)
            requires
                1 <= k,
                0 <= c,
                0 <= off,
                off + 4 * k * c <= blen as int,
        ;
    }
    let total = acc.count * comps;
    let mut out: Vec<u32> = Vec::new();
    for i in 0..total
        invariant
            total == acc.count * comps,
            1 <= comps <= 3,
            accessor_readable(*acc, bytes_view(bufs@), comps as int),
            buf@ == bytes_view(bufs@)[acc.buffer as int],
            blen == buf@.len(),
            acc.byte_offset + 4 * total <= blen,
            out@ =~= read_accessor(*acc, bytes_view(bufs@), comps as int).take(i as int),
    {
        let off = acc.byte_offset + 4 * i;
        let x: u32 = (buf[off] as u32) | ((buf[off + 1] as u32) << 8u32) | ((buf[off
            + 2] as u32) << 16u32) | ((buf[off + 3] as u32) << 24u32);
        out.push(x);
        assert(out@ =~= read_accessor(*acc, bytes_view(bufs@), comps as int).take(i as int + 1));
    }
    assert(out@ =~= read_accessor(*acc, bytes_view(bufs@), comps as int));
    Some(out)
}

/// Reads the values of an index accessor, widened to 32 bits; absent when
/// the accessor does not lie within its buffer.
fn read_index_values(acc: &IndexAccessor, bufs: &Vec<Vec<u8>>) -> (r: Option<Vec<u32>>)
    ensures
        match r {
            Some(v) => index_readable(*acc, bytes_view(bufs@)) && v@ == read_indices(
                *acc,
                bytes_view(bufs@),
            ),
            None => !index_readable(*acc, bytes_view(bufs@)),
        },
{
    let w: usize = match acc.width {
        IndexWidth::U8 => 1,
        IndexWidth::U16 => 2,
        IndexWidth::U32 => 4,
    };
    if !check_extent(acc.buffer, acc.byte_offset, acc.count, w, bufs) {
        return None;
    }
    let buf = &bufs[acc.buffer];
    let blen = buf.len();
    let mut out: Vec<u32> = Vec::new();
    let n = acc.count;
    for i in 0..n
        invariant
            n == acc.count,
            w == index_width_bytes(acc.width),
            index_readable(*acc, bytes_view(bufs@)),
            buf@ == bytes_view(bufs@)[acc.buffer as int],
            blen == buf@.len(),
            acc.byte_offset + w * n <= blen,
            out@ =~= read_indices(*acc, bytes_view(bufs@)).take(i as int),
    {
        proof {
            let k = w as int;
            assert(k * (i as int) + k <= k * (n as int)) by (nonlinear_arith)
                requires
                    0 <= i < n as int,
                    1 <= k,
            ;
        }
        let x: u32 = match acc.width {
            IndexWidth::U8 => buf[acc.byte_offset + i] as u32,
            IndexWidth::U16 => {
                let off = acc.byte_offset + 2 * i;
                (buf[off] as u32) | ((buf[off + 1] as u32) << 8u32)
            },
            IndexWidth::U32 => {
                let off = acc.byte_offset + 4 * i;
                (buf[off] as u32) | ((buf[off + 1] as u32) << 8u32) | ((buf[off + 2] as u32)
                    << 16u32) | ((buf[off + 3] as u32) << 24u32)
            },
        };
        out.push(x);
        assert(out@ =~= read_indices(*acc, bytes_view(bufs@)).take(i as int + 1));
    }
    assert(out@ =~= read_indices(*acc, bytes_view(bufs@)));
    Some(out)
}

/// The position scalars a primitive yields: present when the accessor is
/// declared and lies within its buffer.
pub open spec fn prim_positions(p: Primitive, bufs: Seq<Seq<u8>>) -> Option<Seq<u32>> {
    match p.positions {
        Some(acc) => if accessor_readable(acc, bufs, 3) {
            Some(read_accessor(acc, bufs, 3))
        } else {
            None
        },
        None => None,
    }
}

/// The normal scalars a primitive yields.
pub open spec fn prim_normals(p: Primitive, bufs: Seq<Seq<u8>>) -> Option<Seq<u32>> {
    match p.normals {
        Some(acc) => if accessor_readable(acc, bufs, 3) {
            Some(read_accessor(acc, bufs, 3))
        } else {
            None
        },
        None => None,
    }
}

/// The texture-coordinate scalars a primitive yields (set 0 only).
pub open spec fn prim_uvs(p: Primitive, bufs: Seq<Seq<u8>>) -> Option<Seq<u32>> {
    match p.tex_coords {
        Some(acc) => if accessor_readable(acc, bufs, 2) {
            Some(read_accessor(acc, bufs, 2))
        } else {
            None
        },
        None => None,
    }
}

/// The 32-bit index values a primitive yields.
pub open spec fn prim_indices(p: Primitive, bufs: Seq<Seq<u8>>) -> Option<Seq<u32>> {
    match p.indices {
        Some(acc) => if index_readable(acc, bufs) {
            Some(read_indices(acc, bufs))
        } else {
            None
        },
        None => None,
    }
}

/// The attribute list a primitive extracts to: position, normal and
/// texture coordinates, in that order, each only when present.
pub open spec fn prim_attributes(p: Primitive, bufs: Seq<Seq<u8>>) -> Seq<
    (VertexSemantic, Seq<u32>),
> {
    (match prim_positions(p, bufs) {
        Some(v) => seq![(VertexSemantic::Position, v)],
        None => Seq::empty(),
    }) + (match prim_normals(p, bufs) {
        Some(v) => seq![(VertexSemantic::Normal, v)],
        None => Seq::empty(),
    }) + (match prim_uvs(p, bufs) {
        Some(v) => seq![(VertexSemantic::Uv, v)],
        None => Seq::empty(),
    })
}

/// The mesh a primitive extracts to: absent exactly when its draw mode is
/// unsupported.
pub open spec fn extract_primitive_model(p: Primitive, bufs: Seq<Seq<u8>>) -> Option<MeshModel> {
    match topology_of(p.mode) {
        None => None,
        Some(t) => Some(
            MeshModel {
                topology: t,
                attributes: prim_attributes(p, bufs),
                indices: prim_indices(p, bufs),
            },
        ),
    }
}

/// Extracts one primitive into a mesh: maps its draw mode to a topology,
/// reads its position, normal and texture-coordinate attributes and its
/// indices, omitting what is absent; fails exactly on an unsupported draw
/// mode, carrying that mode.
pub fn extract_primitive(primitive: &Primitive, buffer_data: &Vec<Vec<u8>>) -> (r: Result<
    Mesh,
    GltfError,
>)
    ensures
        match extract_primitive_model(*primitive, bytes_view(buffer_data@)) {
            None => r == Err::<Mesh, GltfError>(
                GltfError::UnsupportedPrimitive { mode: primitive.mode },
            ),
            Some(mm) => r is Ok && mesh_model(r->Ok_0) == mm,
        },
{
    let primitive_topology = match get_primitive_topology(primitive.mode) {
        Ok(t) => t,
        Err(e) => {
            return Err(e);
        },
    };
    let mut mesh = Mesh::new(primitive_topology);
    if let Some(acc) = &primitive.positions {
        if let Some(vals) = read_accessor_scalars(acc, buffer_data, 3) {
            mesh.attributes.push(VertexAttribute::position(vals));
        }
    }
    if let Some(acc) = &primitive.normals {
        if let Some(vals) = read_accessor_scalars(acc, buffer_data, 3) {
            mesh.attributes.push(VertexAttribute::normal(vals));
        }
    }
    if let Some(acc) = &primitive.tex_coords {
        if let Some(vals) = read_accessor_scalars(acc, buffer_data, 2) {
            mesh.attributes.push(VertexAttribute::uv(vals));
        }
    }
    if let Some(acc) = &primitive.indices {
        if let Some(ivals) = read_index_values(acc, buffer_data) {
            mesh.indices = Some(ivals);
        }
    }
    proof {
        let bufs = bytes_view(buffer_data@);
        let mm = extract_primitive_model(*primitive, bufs)->Some_0;
        assert(mesh_model(mesh).attributes =~~= mm.attributes);
        assert(mesh_model(mesh) =~~= mm);
    }
    Ok(mesh)
}

/// The models of a list of meshes.
pub open spec fn meshes_models(s: Seq<Mesh>) -> Seq<MeshModel> {
    s.map_values(|m: Mesh| mesh_model(m))
}

/// The meshes a primitive list extracts to, in order; a primitive with an
/// unsupported draw mode is skipped.
pub open spec fn prims_meshes(prims: Seq<Primitive>, bufs: Seq<Seq<u8>>) -> Seq<MeshModel>
    decreases prims.len(),
{
    if prims.len() == 0 {
        Seq::empty()
    } else {
        (match extract_primitive_model(prims.first(), bufs) {
            Some(mm) => seq![mm],
            None => Seq::empty(),
        }) + prims_meshes(prims.drop_first(), bufs)
    }
}

/// Every mesh reachable from a node: its own mesh's primitives first,
/// then each child's meshes in declaration order, depth-first. `fuel`
/// bounds the walked depth; out-of-range node or mesh indices yield
/// nothing.
pub open spec fn node_meshes(doc: GltfDocument, idx: int, bufs: Seq<Seq<u8>>, fuel: nat) -> Seq<
    MeshModel,
>
    decreases fuel, 0int,
{
    if fuel == 0 || !(0 <= idx < doc.nodes@.len()) {
        Seq::empty()
    } else {
        let node = doc.nodes@[idx];
        (match node.mesh {
            Some(mi) => if mi < doc.meshes@.len() {
                prims_meshes(doc.meshes@[mi as int].primitives@, bufs)
            } else {
                Seq::empty()
            },
            None => Seq::empty(),
        }) + nodes_meshes(doc, node.children@, bufs, (fuel - 1) as nat)
    }
}

/// The meshes reachable from a list of nodes, concatenated in order.
pub open spec fn nodes_meshes(
    doc: GltfDocument,
    idxs: Seq<usize>,
    bufs: Seq<Seq<u8>>,
    fuel: nat,
) -> Seq<MeshModel>
    decreases fuel, idxs.len() + 1,
{
    if idxs.len() == 0 {
        Seq::empty()
    } else {
        node_meshes(doc, idxs.first() as int, bufs, fuel) + nodes_meshes(
            doc,
            idxs.drop_first(),
            bufs,
            fuel,
        )
    }
}

/// Every mesh reachable from a node, depth-first: the node's own
/// primitives first, then each child's meshes in declaration order. A
/// primitive with an unsupported draw mode is skipped; a node with no
/// mesh and no mesh-bearing descendants yields an empty result. `fuel`
/// bounds the recursion depth; a walk started with one unit of fuel per
/// document node covers every acyclic hierarchy.
pub fn load_node(
    buffer_data: &Vec<Vec<u8>>,
    doc: &GltfDocument,
    node_index: usize,
    fuel: usize,
) -> (r: Vec<Mesh>)
    ensures
        meshes_models(r@) == node_meshes(*doc, node_index as int, bytes_view(buffer_data@), fuel as nat),
    decreases fuel,
{
    let ghost bufs = bytes_view(buffer_data@);
    let mut meshes: Vec<Mesh> = Vec::new();
    if fuel == 0 || node_index >= doc.nodes.len() {
        assert(meshes_models(meshes@) =~= node_meshes(*doc, node_index as int, bufs, fuel as nat));
        return meshes;
    }
    let node = &doc.nodes[node_index];
    let ghost own = match node.mesh {
        Some(mi) => if mi < doc.meshes@.len() {
            prims_meshes(doc.meshes@[mi as int].primitives@, bufs)
        } else {
            Seq::empty()
        },
        None => Seq::empty(),
    };
    if let Some(mi) = node.mesh {
        if mi < doc.meshes.len() {
            let prims = &doc.meshes[mi].primitives;
            let np = prims.len();
            assert(prims@.skip(0) =~= prims@);
            assert(meshes_models(meshes@) =~= Seq::<MeshModel>::empty());
            for i in 0..np
                invariant
                    np == prims@.len(),
                    bufs == bytes_view(buffer_data@),
                    meshes_models(meshes@) + prims_meshes(prims@.skip(i as int), bufs)
                        == prims_meshes(prims@, bufs),
            {
                proof {
                    assert(prims@.skip(i as int).first() == prims@[i as int]);
                    assert(prims@.skip(i as int).drop_first() =~= prims@.skip(i as int + 1));
                    assert(prims_meshes(prims@.skip(i as int), bufs) == (match
                    extract_primitive_model(prims@[i as int], bufs) {
                        Some(mm) => seq![mm],
                        None => Seq::<MeshModel>::empty(),
                    }) + prims_meshes(prims@.skip(i as int + 1), bufs));
                }
                let ghost before = meshes@;
                let extracted = extract_primitive(&prims[i], buffer_data);
                match extracted {
                    Ok(m) => {
                        meshes.push(m);
                        proof {
                            assert(meshes_models(meshes@) =~= meshes_models(before) + seq![
                                mesh_model(meshes@.last()),
                            ]);
                            assert(meshes_models(before) + (seq![mesh_model(meshes@.last())]
                                + prims_meshes(prims@.skip(i as int + 1), bufs)) =~= meshes_models(
                                meshes@,
                            ) + prims_meshes(prims@.skip(i as int + 1), bufs));
                        }
                    },
                    Err(_) => {
                        proof {
                            assert(meshes_models(meshes@) + (Seq::<MeshModel>::empty()
                                + prims_meshes(prims@.skip(i as int + 1), bufs)) =~= meshes_models(
                                meshes@,
                            ) + prims_meshes(prims@.skip(i as int + 1), bufs));
                        }
                    },
                }
            }
            proof {
                assert(prims@.skip(np as int) =~= Seq::<Primitive>::empty());
                assert(meshes_models(meshes@) + Seq::<MeshModel>::empty() =~= meshes_models(
                    meshes@,
                ));
                assert(meshes_models(meshes@) =~= prims_meshes(prims@, bufs));
            }
        }
    }
    assert(meshes_models(meshes@) =~= own);
    let ghost subfuel = (fuel - 1) as nat;
    let nc = node.children.len();
    assert(node.children@.skip(0) =~= node.children@);
    for c in 0..nc
        invariant
            nc == node.children@.len(),
            fuel >= 1,
            subfuel == (fuel - 1) as nat,
            bufs == bytes_view(buffer_data@),
            meshes_models(meshes@) + nodes_meshes(*doc, node.children@.skip(c as int), bufs, subfuel)
                == own + nodes_meshes(*doc, node.children@, bufs, subfuel),
    {
        proof {
            assert(node.children@.skip(c as int).first() == node.children@[c as int]);
            assert(node.children@.skip(c as int).drop_first() =~= node.children@.skip(c as int + 1));
            assert(nodes_meshes(*doc, node.children@.skip(c as int), bufs, subfuel) == node_meshes(
                *doc,
                node.children@[c as int] as int,
                bufs,
                subfuel,
            ) + nodes_meshes(*doc, node.children@.skip(c as int + 1), bufs, subfuel));
        }
        let ghost before = meshes@;
        let mut child_meshes = load_node(buffer_data, doc, node.children[c], fuel - 1);
        let ghost child_view = child_meshes@;
        meshes.append(&mut child_meshes);
        proof {
            assert(meshes@ == before + child_view);
            assert(meshes_models(meshes@) =~= meshes_models(before) + meshes_models(child_view));
            assert(meshes_models(before) + (meshes_models(child_view) + nodes_meshes(
                *doc,
                node.children@.skip(c as int + 1),
                bufs,
                subfuel,
            )) =~= meshes_models(meshes@) + nodes_meshes(
                *doc,
                node.children@.skip(c as int + 1),
                bufs,
                subfuel,
            ));
        }
    }
    proof {
        assert(node.children@.skip(nc as int) =~= Seq::<usize>::empty());
        assert(meshes_models(meshes@) + Seq::<MeshModel>::empty() =~= meshes_models(meshes@));
        assert(meshes_models(meshes@) =~= own + nodes_meshes(*doc, node.children@, bufs, subfuel));
        assert(own + nodes_meshes(*doc, node.children@, bufs, subfuel) =~= node_meshes(
            *doc,
            node_index as int,
            bufs,
            fuel as nat,
        ));
    }
    meshes
}

/// The meshes of a list of scenes: each scene's root nodes walked in
/// order, concatenated. Each walk is fueled with one unit per document
/// node.
pub open spec fn scene_list_meshes(
    doc: GltfDocument,
    scenes: Seq<crate::document::GltfSceneDesc>,
    bufs: Seq<Seq<u8>>,
) -> Seq<MeshModel>
    decreases scenes.len(),
{
    if scenes.len() == 0 {
        Seq::empty()
    } else {
        nodes_meshes(doc, scenes.first().nodes@, bufs, doc.nodes@.len()) + scene_list_meshes(
            doc,
            scenes.drop_first(),
            bufs,
        )
    }
}

/// Every mesh of a document: all scenes' trees flattened to one list.
pub open spec fn doc_meshes(doc: GltfDocument, bufs: Seq<Seq<u8>>) -> Seq<MeshModel> {
    scene_list_meshes(doc, doc.scenes@, bufs)
}

/// Loads a document model into a scene asset: resolves the buffers
/// (propagating any resolver error unchanged), walks every scene's root
/// nodes depth-first, and flattens all reached meshes into one list.
/// Fails with `NoMeshFound` exactly when the buffers resolve but no mesh
/// is found anywhere in the document.
pub fn load_gltf(doc: &GltfDocument, files: &Vec<Option<Vec<u8>>>) -> (r: Result<
    GltfScene,
    GltfError,
>)
    requires
        files@.len() == doc.buffers@.len(),
    ensures
        match resolve_all(doc.buffers@, files@) {
            Err(e) => r == Err::<GltfScene, GltfError>(e),
            Ok(bufs) => if doc_meshes(*doc, bufs).len() == 0 {
                r == Err::<GltfScene, GltfError>(GltfError::NoMeshFound)
            } else {
                r is Ok && meshes_models(r->Ok_0.meshes@) == doc_meshes(*doc, bufs)
            },
        },
{
    let buffer_data = match load_buffers(&doc.buffers, files) {
        Ok(b) => b,
        Err(e) => {
            return Err(e);
        },
    };
    let ghost bufs = bytes_view(buffer_data@);
    let mut meshes: Vec<Mesh> = Vec::new();
    let ns = doc.scenes.len();
    assert(doc.scenes@.skip(0) =~= doc.scenes@);
    assert(meshes_models(meshes@) =~= Seq::<MeshModel>::empty());
    for s in 0..ns
        invariant
            ns == doc.scenes@.len(),
            bufs == bytes_view(buffer_data@),
            meshes_models(meshes@) + scene_list_meshes(*doc, doc.scenes@.skip(s as int), bufs)
                == doc_meshes(*doc, bufs),
    {
        proof {
            assert(doc.scenes@.skip(s as int).first() == doc.scenes@[s as int]);
            assert(doc.scenes@.skip(s as int).drop_first() =~= doc.scenes@.skip(s as int + 1));
        }
        let roots = &doc.scenes[s].nodes;
        let nr = roots.len();
        assert(roots@.skip(0) =~= roots@);
        let fuel = doc.nodes.len();
        for k in 0..nr
            invariant
                ns == doc.scenes@.len(),
                s < ns,
                nr == roots@.len(),
                bufs == bytes_view(buffer_data@),
                roots@ == doc.scenes@[s as int].nodes@,
                fuel == doc.nodes@.len(),
                meshes_models(meshes@) + nodes_meshes(*doc, roots@.skip(k as int), bufs, fuel as nat)
                    + scene_list_meshes(*doc, doc.scenes@.skip(s as int + 1), bufs) == doc_meshes(
                    *doc,
                    bufs,
                ),
        {
            proof {
                assert(roots@.skip(k as int).first() == roots@[k as int]);
                assert(roots@.skip(k as int).drop_first() =~= roots@.skip(k as int + 1));
                assert(nodes_meshes(*doc, roots@.skip(k as int), bufs, fuel as nat) == node_meshes(
                    *doc,
                    roots@[k as int] as int,
                    bufs,
                    fuel as nat,
                ) + nodes_meshes(*doc, roots@.skip(k as int + 1), bufs, fuel as nat));
            }
            let ghost before = meshes@;
            let mut node_mesh_list = load_node(&buffer_data, doc, roots[k], fuel);
            let ghost child_view = node_mesh_list@;
            meshes.append(&mut node_mesh_list);
            proof {
                assert(meshes@ == before + child_view);
                assert(meshes_models(meshes@) =~= meshes_models(before) + meshes_models(
                    child_view,
                ));
                assert(meshes_models(before) + (meshes_models(child_view) + nodes_meshes(
                    *doc,
                    roots@.skip(k as int + 1),
                    bufs,
                    fuel as nat,
                )) =~= meshes_models(meshes@) + nodes_meshes(
                    *doc,
                    roots@.skip(k as int + 1),
                    bufs,
                    fuel as nat,
                ));
            }
        }
        proof {
            assert(roots@.skip(nr as int) =~= Seq::<usize>::empty());
            assert(nodes_meshes(*doc, roots@.skip(nr as int), bufs, fuel as nat) =~= Seq::<
                MeshModel,
            >::empty());
            assert(meshes_models(meshes@) + Seq::<MeshModel>::empty() + scene_list_meshes(
                *doc,
                doc.scenes@.skip(s as int + 1),
                bufs,
            ) =~= meshes_models(meshes@) + scene_list_meshes(
                *doc,
                doc.scenes@.skip(s as int + 1),
                bufs,
            ));
        }
    }
    proof {
        assert(doc.scenes@.skip(ns as int) =~= Seq::<crate::document::GltfSceneDesc>::empty());
        assert(meshes_models(meshes@) + Seq::<MeshModel>::empty() =~= meshes_models(meshes@));
        assert(meshes_models(meshes@) =~= doc_meshes(*doc, bufs));
    }
    if meshes.len() == 0 {
        assert(doc_meshes(*doc, bufs).len() == 0);
        return Err(GltfError::NoMeshFound);
    }
    Ok(GltfScene { meshes })
}

/// Loads meshes from glTF document models into scene assets.
#[derive(Default)]
pub struct GltfLoader;

impl GltfLoader {
    /// The file extensions this loader is advertised for.
    pub fn extensions(&self) -> (r: Vec<String>)
        ensures
            r@.len() == 1,
            r@[0]@ == "gltf"@,
    {
        let mut v: Vec<String> = Vec::new();
        v.push("gltf".to_owned());
        v
    }
}

/// A triangle-list primitive with a readable position accessor of N
/// elements and a readable index accessor of M values, and nothing else,
/// extracts to a mesh with exactly one attribute: a position attribute of
/// 3*N scalars carried unchanged from the buffer, and M indices carried
/// unchanged.
pub proof fn lemma_triangle_list_round_trip(p: Primitive, bufs: Seq<Seq<u8>>)
    requires
        p.mode == Mode::Triangles,
        p.positions is Some,
        accessor_readable(p.positions->Some_0, bufs, 3),
        p.normals is None,
        p.tex_coords is None,
        p.indices is Some,
        index_readable(p.indices->Some_0, bufs),
    ensures
        extract_primitive_model(p, bufs) is Some,
        ({
            let mm = extract_primitive_model(p, bufs)->Some_0;
            mm.topology == PrimitiveTopology::TriangleList && mm.attributes.len() == 1
                && mm.attributes[0].0 == VertexSemantic::Position && mm.attributes[0].1
                == read_accessor(p.positions->Some_0, bufs, 3) && mm.attributes[0].1.len() == 3 * (
            p.positions->Some_0.count as int) && mm.indices == Some(
                read_indices(p.indices->Some_0, bufs),
            ) && mm.indices->Some_0.len() == p.indices->Some_0.count
        }),
{
    let mm = extract_primitive_model(p, bufs)->Some_0;
    assert(mm.attributes =~= seq![
        (VertexSemantic::Position, read_accessor(p.positions->Some_0, bufs, 3)),
    ]);
    assert(read_accessor(p.positions->Some_0, bufs, 3).len() == (p.positions->Some_0.count as int)
        * 3);
}

/// A document whose scenes have no root nodes at all yields no meshes, so
/// loading it fails with `NoMeshFound` once its buffers resolve.
pub proof fn lemma_no_nodes_no_mesh(doc: GltfDocument, bufs: Seq<Seq<u8>>)
    requires
        forall|s: int| 0 <= s < doc.scenes@.len() ==> #[trigger] doc.scenes@[s].nodes@.len() == 0,
    ensures
        doc_meshes(doc, bufs).len() == 0,
{
    lemma_scene_list_no_roots(doc, doc.scenes@, bufs);
}

proof fn lemma_scene_list_no_roots(
    doc: GltfDocument,
    scenes: Seq<crate::document::GltfSceneDesc>,
    bufs: Seq<Seq<u8>>,
)
    requires
        forall|s: int| 0 <= s < scenes.len() ==> #[trigger] scenes[s].nodes@.len() == 0,
    ensures
        scene_list_meshes(doc, scenes, bufs).len() == 0,
    decreases scenes.len(),
{
    if scenes.len() > 0 {
        assert(scenes.first().nodes@.len() == 0);
        lemma_scene_list_no_roots(doc, scenes.drop_first(), bufs);
    }
}

} // verus!
