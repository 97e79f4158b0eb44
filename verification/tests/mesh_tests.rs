use gltf_loader::mesh::{
    as_vertex_buffer_descriptor, IndexFormat, Mesh, PrimitiveTopology, VertexAttribute,
    VertexBufferDescriptor, VertexSemantic,
};

#[test]
fn new_mesh_is_empty() {
    let mesh = Mesh::new(PrimitiveTopology::LineList);
    assert_eq!(mesh.primitive_topology, PrimitiveTopology::LineList);
    assert_eq!(mesh.attributes.len(), 0);
    assert_eq!(mesh.indices, None);
}

#[test]
fn attribute_constructors_set_semantics() {
    assert_eq!(VertexAttribute::position(vec![1]).name, VertexSemantic::Position);
    assert_eq!(VertexAttribute::normal(vec![2]).name, VertexSemantic::Normal);
    assert_eq!(VertexAttribute::uv(vec![3]).name, VertexSemantic::Uv);
    assert_eq!(VertexAttribute::uv(vec![3, 4]).values, vec![3, 4]);
}

#[test]
fn vertex_bytes_pack_position_normal_uv_records() {
    let mut mesh = Mesh::new(PrimitiveTopology::TriangleList);
    let p = [1.0f32.to_bits(), 2.0f32.to_bits(), 3.0f32.to_bits()];
    let n = [4.0f32.to_bits(), 5.0f32.to_bits(), 6.0f32.to_bits()];
    let t = [0.5f32.to_bits(), 0.25f32.to_bits()];
    mesh.attributes.push(VertexAttribute::position(p.to_vec()));
    mesh.attributes.push(VertexAttribute::normal(n.to_vec()));
    mesh.attributes.push(VertexAttribute::uv(t.to_vec()));
    let bytes = mesh.get_vertex_buffer_bytes();
    let mut expected = Vec::new();
    for x in p.iter().chain(n.iter()).chain(t.iter()) {
        expected.extend_from_slice(&x.to_le_bytes());
    }
    assert_eq!(bytes, expected);
}

#[test]
fn vertex_bytes_pad_missing_attributes_with_zero() {
    let mut mesh = Mesh::new(PrimitiveTopology::TriangleList);
    let p = [1.0f32.to_bits(), 2.0f32.to_bits(), 3.0f32.to_bits()];
    mesh.attributes.push(VertexAttribute::position(p.to_vec()));
    let bytes = mesh.get_vertex_buffer_bytes();
    assert_eq!(bytes.len(), 32);
    let mut expected = Vec::new();
    for x in p.iter() {
        expected.extend_from_slice(&x.to_le_bytes());
    }
    expected.extend_from_slice(&[0u8; 20]);
    assert_eq!(bytes, expected);
}

#[test]
fn mesh_without_positions_packs_no_vertices() {
    let mut mesh = Mesh::new(PrimitiveTopology::TriangleList);
    mesh.attributes.push(VertexAttribute::normal(vec![1, 2, 3]));
    assert_eq!(mesh.get_vertex_buffer_bytes(), Vec::<u8>::new());
}

#[test]
fn index_bytes_pack_low_16_bits_little_endian() {
    let mut mesh = Mesh::new(PrimitiveTopology::TriangleList);
    mesh.indices = Some(vec![0x12345678u32, 1]);
    assert_eq!(mesh.get_index_buffer_bytes(IndexFormat::Uint16), vec![0x78, 0x56, 1, 0]);
}

#[test]
fn index_bytes_pack_32_bits_little_endian() {
    let mut mesh = Mesh::new(PrimitiveTopology::TriangleList);
    mesh.indices = Some(vec![0x12345678u32]);
    assert_eq!(mesh.get_index_buffer_bytes(IndexFormat::Uint32), vec![0x78, 0x56, 0x34, 0x12]);
}

#[test]
fn mesh_without_indices_packs_no_index_bytes() {
    let mesh = Mesh::new(PrimitiveTopology::TriangleList);
    assert_eq!(mesh.get_index_buffer_bytes(IndexFormat::Uint16), Vec::<u8>::new());
}

#[test]
fn vertex_layout_descriptor_has_32_byte_stride() {
    assert_eq!(as_vertex_buffer_descriptor(), VertexBufferDescriptor { stride: 32 });
}
