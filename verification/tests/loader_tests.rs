use gltf_loader::document::{
    Accessor, BufferSource, GltfDocument, GltfMesh, GltfNode, GltfSceneDesc, IndexAccessor,
    IndexWidth, Mode, Primitive,
};
use gltf_loader::loader::{get_primitive_topology, load_buffers, load_gltf, GltfError, GltfLoader};
use gltf_loader::mesh::{PrimitiveTopology, VertexSemantic};

fn data_uri(bytes: &[u8]) -> Vec<u8> {
    let mut uri = b"data:application/octet-stream;base64,".to_vec();
    uri.extend_from_slice(base64::encode(bytes).as_bytes());
    uri
}

fn triangle_primitive() -> Primitive {
    Primitive {
        mode: Mode::Triangles,
        positions: Some(Accessor { buffer: 0, byte_offset: 0, count: 3 }),
        normals: None,
        tex_coords: None,
        indices: Some(IndexAccessor { buffer: 0, byte_offset: 36, count: 3, width: IndexWidth::U16 }),
    }
}

/// One buffer: three position triples as f32, then three u16 indices.
fn triangle_buffer_bytes() -> Vec<u8> {
    let positions: [f32; 9] = [0.0, 0.0, 0.0, 1.0, 0.0, 0.0, 0.0, 1.0, 0.0];
    let mut bytes = Vec::new();
    for p in positions.iter() {
        bytes.extend_from_slice(&p.to_bits().to_le_bytes());
    }
    for i in [0u16, 1, 2].iter() {
        bytes.extend_from_slice(&i.to_le_bytes());
    }
    bytes
}

fn triangle_doc(buffer: BufferSource) -> GltfDocument {
    GltfDocument {
        buffers: vec![buffer],
        meshes: vec![GltfMesh { primitives: vec![triangle_primitive()] }],
        nodes: vec![GltfNode { mesh: Some(0), children: vec![] }],
        scenes: vec![GltfSceneDesc { nodes: vec![0] }],
    }
}

#[test]
fn topology_mapping_supported_modes() {
    assert_eq!(get_primitive_topology(Mode::Points), Ok(PrimitiveTopology::PointList));
    assert_eq!(get_primitive_topology(Mode::Lines), Ok(PrimitiveTopology::LineList));
    assert_eq!(get_primitive_topology(Mode::LineStrip), Ok(PrimitiveTopology::LineStrip));
    assert_eq!(get_primitive_topology(Mode::Triangles), Ok(PrimitiveTopology::TriangleList));
    assert_eq!(get_primitive_topology(Mode::TriangleStrip), Ok(PrimitiveTopology::TriangleStrip));
}

#[test]
fn topology_mapping_unsupported_modes_carry_the_mode() {
    assert_eq!(
        get_primitive_topology(Mode::LineLoop),
        Err(GltfError::UnsupportedPrimitive { mode: Mode::LineLoop })
    );
    assert_eq!(
        get_primitive_topology(Mode::TriangleFan),
        Err(GltfError::UnsupportedPrimitive { mode: Mode::TriangleFan })
    );
}

#[test]
fn round_trip_triangle_list() {
    let doc = triangle_doc(BufferSource::Uri(data_uri(&triangle_buffer_bytes())));
    let scene = load_gltf(&doc, &vec![None]).unwrap();
    assert_eq!(scene.meshes.len(), 1);
    let mesh = &scene.meshes[0];
    assert_eq!(mesh.primitive_topology, PrimitiveTopology::TriangleList);
    assert_eq!(mesh.attributes.len(), 1);
    assert_eq!(mesh.attributes[0].name, VertexSemantic::Position);
    let expected: Vec<u32> = [0.0f32, 0.0, 0.0, 1.0, 0.0, 0.0, 0.0, 1.0, 0.0]
        .iter()
        .map(|x| x.to_bits())
        .collect();
    assert_eq!(mesh.attributes[0].values, expected);
    assert_eq!(mesh.indices, Some(vec![0u32, 1, 2]));
}

#[test]
fn data_uri_loads_without_filesystem_access() {
    let doc = triangle_doc(BufferSource::Uri(data_uri(&triangle_buffer_bytes())));
    assert!(load_gltf(&doc, &vec![None]).is_ok());
}

#[test]
fn invalid_base64_fails_with_decode_error() {
    let mut uri = b"data:application/octet-stream;base64,".to_vec();
    uri.extend_from_slice(b"!!!not-base64!!!");
    let doc = triangle_doc(BufferSource::Uri(uri));
    assert_eq!(load_gltf(&doc, &vec![None]).unwrap_err(), GltfError::Base64Decode);
}

#[test]
fn base64_payload_is_decoded_not_copied() {
    let sources = vec![BufferSource::Uri(b"data:application/octet-stream;base64,AAECAwQ=".to_vec())];
    let bufs = load_buffers(&sources, &vec![None]).unwrap();
    assert_eq!(bufs, vec![vec![0u8, 1, 2, 3, 4]]);
}

#[test]
fn other_data_uri_media_type_is_rejected() {
    let doc = triangle_doc(BufferSource::Uri(b"data:text/plain;base64,AAAA".to_vec()));
    assert_eq!(load_gltf(&doc, &vec![None]).unwrap_err(), GltfError::BufferFormatUnsupported);
}

#[test]
fn embedded_binary_chunk_is_rejected() {
    let doc = triangle_doc(BufferSource::Bin);
    assert_eq!(load_gltf(&doc, &vec![None]).unwrap_err(), GltfError::BinaryBuffersUnsupported);
}

#[test]
fn unread_external_file_fails_with_io_error() {
    let doc = triangle_doc(BufferSource::Uri(b"mesh.bin".to_vec()));
    assert_eq!(load_gltf(&doc, &vec![None]).unwrap_err(), GltfError::Io);
}

#[test]
fn external_file_bytes_are_used() {
    let doc = triangle_doc(BufferSource::Uri(b"mesh.bin".to_vec()));
    let scene = load_gltf(&doc, &vec![Some(triangle_buffer_bytes())]).unwrap();
    assert_eq!(scene.meshes.len(), 1);
    assert_eq!(scene.meshes[0].indices, Some(vec![0u32, 1, 2]));
}

#[test]
fn document_without_nodes_fails_with_no_mesh_found() {
    let doc = GltfDocument {
        buffers: vec![],
        meshes: vec![],
        nodes: vec![],
        scenes: vec![GltfSceneDesc { nodes: vec![] }, GltfSceneDesc { nodes: vec![] }],
    };
    assert_eq!(load_gltf(&doc, &vec![]).unwrap_err(), GltfError::NoMeshFound);
}

#[test]
fn unsupported_primitive_is_skipped_not_fatal() {
    let mut doc = triangle_doc(BufferSource::Uri(data_uri(&triangle_buffer_bytes())));
    let mut fan = triangle_primitive();
    fan.mode = Mode::TriangleFan;
    doc.meshes[0].primitives.insert(0, fan);
    let scene = load_gltf(&doc, &vec![None]).unwrap();
    assert_eq!(scene.meshes.len(), 1);
    assert_eq!(scene.meshes[0].primitive_topology, PrimitiveTopology::TriangleList);
}

#[test]
fn document_where_every_primitive_fails_is_no_mesh_found() {
    let mut doc = triangle_doc(BufferSource::Uri(data_uri(&triangle_buffer_bytes())));
    doc.meshes[0].primitives[0].mode = Mode::LineLoop;
    assert_eq!(load_gltf(&doc, &vec![None]).unwrap_err(), GltfError::NoMeshFound);
}

#[test]
fn child_node_meshes_follow_parent_meshes() {
    let bytes = triangle_buffer_bytes();
    let mut doc = triangle_doc(BufferSource::Uri(data_uri(&bytes)));
    let mut lines = triangle_primitive();
    lines.mode = Mode::Lines;
    doc.meshes.push(GltfMesh { primitives: vec![lines] });
    doc.nodes = vec![
        GltfNode { mesh: Some(0), children: vec![1] },
        GltfNode { mesh: Some(1), children: vec![] },
    ];
    let scene = load_gltf(&doc, &vec![None]).unwrap();
    assert_eq!(scene.meshes.len(), 2);
    assert_eq!(scene.meshes[0].primitive_topology, PrimitiveTopology::TriangleList);
    assert_eq!(scene.meshes[1].primitive_topology, PrimitiveTopology::LineList);
}

#[test]
fn normals_and_uvs_follow_position_in_order() {
    let mut bytes = Vec::new();
    for p in [1.0f32, 2.0, 3.0, 4.0, 5.0, 6.0, 0.5, 0.25].iter() {
        bytes.extend_from_slice(&p.to_bits().to_le_bytes());
    }
    let prim = Primitive {
        mode: Mode::Points,
        positions: Some(Accessor { buffer: 0, byte_offset: 0, count: 1 }),
        normals: Some(Accessor { buffer: 0, byte_offset: 12, count: 1 }),
        tex_coords: Some(Accessor { buffer: 0, byte_offset: 24, count: 1 }),
        indices: None,
    };
    let doc = GltfDocument {
        buffers: vec![BufferSource::Uri(data_uri(&bytes))],
        meshes: vec![GltfMesh { primitives: vec![prim] }],
        nodes: vec![GltfNode { mesh: Some(0), children: vec![] }],
        scenes: vec![GltfSceneDesc { nodes: vec![0] }],
    };
    let scene = load_gltf(&doc, &vec![None]).unwrap();
    let mesh = &scene.meshes[0];
    assert_eq!(mesh.attributes.len(), 3);
    assert_eq!(mesh.attributes[0].name, VertexSemantic::Position);
    assert_eq!(mesh.attributes[1].name, VertexSemantic::Normal);
    assert_eq!(mesh.attributes[2].name, VertexSemantic::Uv);
    assert_eq!(mesh.attributes[1].values, vec![4.0f32.to_bits(), 5.0f32.to_bits(), 6.0f32.to_bits()]);
    assert_eq!(mesh.attributes[2].values, vec![0.5f32.to_bits(), 0.25f32.to_bits()]);
    assert_eq!(mesh.indices, None);
}

#[test]
fn index_widths_widen_to_u32() {
    let mut bytes = Vec::new();
    for p in [0.0f32, 0.0, 0.0].iter() {
        bytes.extend_from_slice(&p.to_bits().to_le_bytes());
    }
    bytes.push(7u8);
    bytes.extend_from_slice(&0xdeadbeefu32.to_le_bytes());
    let mut prim8 = triangle_primitive();
    prim8.indices = Some(IndexAccessor { buffer: 0, byte_offset: 12, count: 1, width: IndexWidth::U8 });
    prim8.positions = Some(Accessor { buffer: 0, byte_offset: 0, count: 1 });
    let mut prim32 = prim8.clone();
    prim32.indices = Some(IndexAccessor { buffer: 0, byte_offset: 13, count: 1, width: IndexWidth::U32 });
    let doc = GltfDocument {
        buffers: vec![BufferSource::Uri(data_uri(&bytes))],
        meshes: vec![GltfMesh { primitives: vec![prim8, prim32] }],
        nodes: vec![GltfNode { mesh: Some(0), children: vec![] }],
        scenes: vec![GltfSceneDesc { nodes: vec![0] }],
    };
    let scene = load_gltf(&doc, &vec![None]).unwrap();
    assert_eq!(scene.meshes[0].indices, Some(vec![7u32]));
    assert_eq!(scene.meshes[1].indices, Some(vec![0xdeadbeefu32]));
}

#[test]
fn loader_advertises_gltf_extension() {
    let loader = GltfLoader;
    assert_eq!(loader.extensions(), vec!["gltf".to_string()]);
}
