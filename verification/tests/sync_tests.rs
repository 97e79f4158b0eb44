use gltf_loader::gltf_scene::{
    gttf_scene_resource_provider_system, AssetEvent, Assets, GltfScene,
    GltfSceneResourceProviderState, PipelineSpecialization, RenderPipeline, RenderPipelines,
    RenderResourceBindings, VertexBufferBinding, VertexBufferDescriptors,
};
use gltf_loader::mesh::{
    IndexFormat, Mesh, PrimitiveTopology, VertexAttribute, VertexBufferDescriptor,
};
use gltf_loader::render_resources::{
    RenderResourceContext, INDEX_BUFFER_ASSET_INDEX, VERTEX_BUFFER_ASSET_INDEX,
};

fn one_mesh_scene(topology: PrimitiveTopology) -> GltfScene {
    let mut mesh = Mesh::new(topology);
    mesh.attributes.push(VertexAttribute::position(vec![
        0.0f32.to_bits(),
        1.0f32.to_bits(),
        2.0f32.to_bits(),
    ]));
    mesh.indices = Some(vec![0u32, 0, 0]);
    GltfScene { meshes: vec![mesh] }
}

fn entity(handle: u64, topology: PrimitiveTopology) -> (u64, RenderPipelines) {
    (
        handle,
        RenderPipelines {
            pipelines: vec![RenderPipeline {
                specialization: PipelineSpecialization { primitive_topology: topology },
            }],
            bindings: RenderResourceBindings { vertex_buffer: None },
        },
    )
}

fn run_pass(
    state: &mut GltfSceneResourceProviderState,
    ctx: &mut RenderResourceContext,
    assets: &Assets,
    events: &Vec<AssetEvent>,
    query: &mut Vec<(u64, RenderPipelines)>,
) {
    let mut vbds = VertexBufferDescriptors::new();
    gttf_scene_resource_provider_system(state, ctx, assets, &mut vbds, events, query);
}

#[test]
fn created_asset_gets_vertex_and_index_buffers() {
    let mut state = GltfSceneResourceProviderState::default();
    let mut ctx = RenderResourceContext::new();
    let mut assets = Assets::new();
    assets.set(5, one_mesh_scene(PrimitiveTopology::TriangleList));
    let events = vec![AssetEvent::Created { handle: 5 }];
    let mut query = Vec::new();
    run_pass(&mut state, &mut ctx, &assets, &events, &mut query);
    assert_eq!(ctx.get_asset_resource(5, VERTEX_BUFFER_ASSET_INDEX), Some(0));
    assert_eq!(ctx.get_asset_resource(5, INDEX_BUFFER_ASSET_INDEX), Some(1));
    assert!(ctx.has_buffer(0));
    assert!(ctx.has_buffer(1));
}

#[test]
fn idle_pass_does_not_reallocate() {
    let mut state = GltfSceneResourceProviderState::default();
    let mut ctx = RenderResourceContext::new();
    let mut assets = Assets::new();
    assets.set(5, one_mesh_scene(PrimitiveTopology::TriangleList));
    let events = vec![AssetEvent::Created { handle: 5 }];
    let mut query = Vec::new();
    run_pass(&mut state, &mut ctx, &assets, &events, &mut query);
    run_pass(&mut state, &mut ctx, &assets, &events, &mut query);
    assert_eq!(ctx.get_asset_resource(5, VERTEX_BUFFER_ASSET_INDEX), Some(0));
    assert_eq!(ctx.get_asset_resource(5, INDEX_BUFFER_ASSET_INDEX), Some(1));
    assert!(!ctx.has_buffer(2));
    assert!(!ctx.has_buffer(3));
}

#[test]
fn create_modify_remove_in_one_pass_nets_nothing() {
    let mut state = GltfSceneResourceProviderState::default();
    let mut ctx = RenderResourceContext::new();
    let mut assets = Assets::new();
    assets.set(9, one_mesh_scene(PrimitiveTopology::TriangleList));
    let events = vec![
        AssetEvent::Created { handle: 9 },
        AssetEvent::Modified { handle: 9 },
        AssetEvent::Removed { handle: 9 },
    ];
    let mut query = Vec::new();
    run_pass(&mut state, &mut ctx, &assets, &events, &mut query);
    assert_eq!(ctx.get_asset_resource(9, VERTEX_BUFFER_ASSET_INDEX), None);
    assert_eq!(ctx.get_asset_resource(9, INDEX_BUFFER_ASSET_INDEX), None);
    assert!(!ctx.has_buffer(0));
    assert!(!ctx.has_buffer(1));
}

#[test]
fn removed_asset_frees_its_buffers() {
    let mut state = GltfSceneResourceProviderState::default();
    let mut ctx = RenderResourceContext::new();
    let mut assets = Assets::new();
    assets.set(3, one_mesh_scene(PrimitiveTopology::TriangleList));
    let mut events = vec![AssetEvent::Created { handle: 3 }];
    let mut query = Vec::new();
    run_pass(&mut state, &mut ctx, &assets, &events, &mut query);
    assert!(ctx.has_buffer(0));
    events.push(AssetEvent::Removed { handle: 3 });
    run_pass(&mut state, &mut ctx, &assets, &events, &mut query);
    assert_eq!(ctx.get_asset_resource(3, VERTEX_BUFFER_ASSET_INDEX), None);
    assert_eq!(ctx.get_asset_resource(3, INDEX_BUFFER_ASSET_INDEX), None);
    assert!(!ctx.has_buffer(0));
    assert!(!ctx.has_buffer(1));
}

#[test]
fn modified_entity_rebinds_to_fresh_buffers() {
    let mut state = GltfSceneResourceProviderState::default();
    let mut ctx = RenderResourceContext::new();
    let mut assets = Assets::new();
    assets.set(7, one_mesh_scene(PrimitiveTopology::TriangleList));
    let mut events = vec![AssetEvent::Created { handle: 7 }];
    let mut query = vec![entity(7, PrimitiveTopology::PointList)];
    run_pass(&mut state, &mut ctx, &assets, &events, &mut query);
    assert_eq!(
        query[0].1.bindings.vertex_buffer,
        Some(VertexBufferBinding { buffer: 0, index_buffer: Some(1) })
    );
    events.push(AssetEvent::Modified { handle: 7 });
    run_pass(&mut state, &mut ctx, &assets, &events, &mut query);
    assert_eq!(
        query[0].1.bindings.vertex_buffer,
        Some(VertexBufferBinding { buffer: 2, index_buffer: Some(3) })
    );
    assert!(!ctx.has_buffer(0));
    assert!(!ctx.has_buffer(1));
    assert!(ctx.has_buffer(2));
    assert!(ctx.has_buffer(3));
}

#[test]
fn entity_pipelines_track_asset_topology() {
    let mut state = GltfSceneResourceProviderState::default();
    let mut ctx = RenderResourceContext::new();
    let mut assets = Assets::new();
    assets.set(4, one_mesh_scene(PrimitiveTopology::LineStrip));
    let events = vec![AssetEvent::Created { handle: 4 }];
    let mut query = vec![entity(4, PrimitiveTopology::PointList)];
    run_pass(&mut state, &mut ctx, &assets, &events, &mut query);
    assert_eq!(
        query[0].1.pipelines[0].specialization.primitive_topology,
        PrimitiveTopology::LineStrip
    );
}

#[test]
fn entity_with_unresolvable_asset_keeps_its_state() {
    let mut state = GltfSceneResourceProviderState::default();
    let mut ctx = RenderResourceContext::new();
    let assets = Assets::new();
    let events = vec![AssetEvent::Created { handle: 8 }];
    let mut query = vec![entity(8, PrimitiveTopology::PointList)];
    run_pass(&mut state, &mut ctx, &assets, &events, &mut query);
    assert_eq!(ctx.get_asset_resource(8, VERTEX_BUFFER_ASSET_INDEX), None);
    assert_eq!(
        query[0].1.pipelines[0].specialization.primitive_topology,
        PrimitiveTopology::PointList
    );
    assert_eq!(query[0].1.bindings.vertex_buffer, None);
}

#[test]
fn modify_then_remove_in_one_pass_does_not_recreate() {
    let mut state = GltfSceneResourceProviderState::default();
    let mut ctx = RenderResourceContext::new();
    let mut assets = Assets::new();
    assets.set(2, one_mesh_scene(PrimitiveTopology::TriangleList));
    let mut events = vec![AssetEvent::Created { handle: 2 }];
    let mut query = Vec::new();
    run_pass(&mut state, &mut ctx, &assets, &events, &mut query);
    assert!(ctx.has_buffer(0));
    events.push(AssetEvent::Modified { handle: 2 });
    events.push(AssetEvent::Removed { handle: 2 });
    run_pass(&mut state, &mut ctx, &assets, &events, &mut query);
    assert_eq!(ctx.get_asset_resource(2, VERTEX_BUFFER_ASSET_INDEX), None);
    assert!(!ctx.has_buffer(0));
    assert!(!ctx.has_buffer(1));
    assert!(!ctx.has_buffer(2));
}

#[test]
fn descriptor_is_computed_once_and_published() {
    let mut state = GltfSceneResourceProviderState::default();
    let mut ctx = RenderResourceContext::new();
    let assets = Assets::new();
    let events = Vec::new();
    let mut query = Vec::new();
    let mut vbds = VertexBufferDescriptors::new();
    gttf_scene_resource_provider_system(
        &mut state,
        &mut ctx,
        &assets,
        &mut vbds,
        &events,
        &mut query,
    );
    assert_eq!(state.vertex_buffer_descriptor, Some(VertexBufferDescriptor { stride: 32 }));
    assert_eq!(vbds.descriptor, Some(VertexBufferDescriptor { stride: 32 }));
    let mut vbds2 = VertexBufferDescriptors::new();
    gttf_scene_resource_provider_system(
        &mut state,
        &mut ctx,
        &assets,
        &mut vbds2,
        &events,
        &mut query,
    );
    assert_eq!(vbds2.descriptor, None);
    assert_eq!(state.vertex_buffer_descriptor, Some(VertexBufferDescriptor { stride: 32 }));
}

#[test]
fn packed_buffers_hold_the_mesh_bytes() {
    let mut state = GltfSceneResourceProviderState::default();
    let mut ctx = RenderResourceContext::new();
    let mut assets = Assets::new();
    let scene = one_mesh_scene(PrimitiveTopology::TriangleList);
    let expected_vertex = scene.meshes[0].get_vertex_buffer_bytes();
    let expected_index = scene.meshes[0].get_index_buffer_bytes(IndexFormat::Uint16);
    assert_eq!(expected_vertex.len(), 32);
    assert_eq!(expected_index.len(), 6);
    assets.set(1, scene);
    let events = vec![AssetEvent::Created { handle: 1 }];
    let mut query = Vec::new();
    run_pass(&mut state, &mut ctx, &assets, &events, &mut query);
    assert_eq!(ctx.get_asset_resource(1, VERTEX_BUFFER_ASSET_INDEX), Some(0));
    assert_eq!(ctx.get_asset_resource(1, INDEX_BUFFER_ASSET_INDEX), Some(1));
}

#[test]
fn empty_scene_asset_constructor() {
    let scene = GltfScene::new();
    assert_eq!(scene.meshes.len(), 0);
}
