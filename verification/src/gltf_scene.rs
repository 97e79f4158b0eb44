//! The loaded scene asset and the resource synchronizer: a reconciliation
//! pass that drains the asset event stream in order, frees and allocates
//! GPU buffers per changed asset exactly once, and rebinds render-pipeline
//! state for every entity referencing a scene asset.

use vstd::prelude::*;

use std::collections::HashMap;

use crate::mesh::{
    as_vertex_buffer_descriptor, index_bytes, vertex_buffer_descriptor, vertex_bytes, IndexFormat,
    Mesh, PrimitiveTopology, VertexBufferDescriptor,
};
use crate::render_resources::{
    no_dangling, reg_inv, reg_wf, slots_exclusive, BufferUsage, RegistryModel,
    RenderResourceContext, INDEX_BUFFER_ASSET_INDEX, VERTEX_BUFFER_ASSET_INDEX,
};

verus! {

/// A loaded scene asset: the flat list of its meshes.
#[derive(Clone, Debug)]
pub struct GltfScene {
    pub meshes: Vec<Mesh>,
}

impl GltfScene {
    /// An empty scene.
    pub fn new() -> (r: GltfScene)
        ensures
            r.meshes@ =~= Seq::<Mesh>::empty(),
    {
        GltfScene { meshes: Vec::new() }
    }
}

/// A lifecycle event of a scene asset, identified by its handle.
#[derive(Clone, Copy, PartialEq, Eq, Structural, Debug)]
pub enum AssetEvent {
    Created { handle: u64 },
    Modified { handle: u64 },
    Removed { handle: u64 },
}

/// The asset store holding loaded scenes, looked up by handle.
pub struct Assets {
    entries: HashMap<u64, GltfScene>,
}

impl Assets {
    /// The store's contents.
    pub closed spec fn model(self) -> Map<u64, GltfScene> {
        self.entries@
    }

    /// An empty store.
    pub fn new() -> (r: Assets)
        ensures
            r.model() == Map::<u64, GltfScene>::empty(),
    {
        Assets { entries: HashMap::new() }
    }

    /// Stores a scene under a handle, replacing any earlier scene there.
    pub fn set(&mut self, handle: u64, scene: GltfScene)
        ensures
            final(self).model() == old(self).model().insert(handle, scene),
    {
        self.entries.insert(handle, scene);
    }

    /// Removes the scene under a handle, if any.
    pub fn remove(&mut self, handle: u64)
        ensures
            final(self).model() == old(self).model().remove(handle),
    {
        self.entries.remove(&handle);
    }

    /// The scene under a handle, if any.
    pub fn get(&self, handle: u64) -> (r: Option<&GltfScene>)
        ensures
            match r {
                Some(s) => self.model().contains_key(handle) && *s == self.model()[handle],
                None => !self.model().contains_key(handle),
            },
    {
        self.entries.get(&handle)
    }
}

/// One pipeline's specialization state.
#[derive(Clone, Copy, PartialEq, Eq, Structural, Debug)]
pub struct PipelineSpecialization {
    pub primitive_topology: PrimitiveTopology,
}

/// One render pipeline attached to an entity.
#[derive(Clone, Copy, PartialEq, Eq, Structural, Debug)]
pub struct RenderPipeline {
    pub specialization: PipelineSpecialization,
}

/// An entity's vertex-buffer binding: the bound vertex buffer and the
/// index buffer bound with it, if any.
#[derive(Clone, Copy, PartialEq, Eq, Structural, Debug)]
pub struct VertexBufferBinding {
    pub buffer: u64,
    pub index_buffer: Option<u64>,
}

/// An entity's render-resource bindings.
#[derive(Clone, Copy, PartialEq, Eq, Structural, Debug)]
pub struct RenderResourceBindings {
    pub vertex_buffer: Option<VertexBufferBinding>,
}

impl RenderResourceBindings {
    /// Binds a vertex buffer, together with an optional index buffer.
    pub fn set_vertex_buffer(&mut self, buffer: u64, index_buffer: Option<u64>)
        ensures
            final(self).vertex_buffer == Some(VertexBufferBinding { buffer, index_buffer }),
    {
        self.vertex_buffer = Some(VertexBufferBinding { buffer, index_buffer });
    }
}

/// The render pipelines and bindings attached to one entity.
#[derive(Clone, Debug)]
pub struct RenderPipelines {
    pub pipelines: Vec<RenderPipeline>,
    pub bindings: RenderResourceBindings,
}

/// The process-wide registry of vertex-buffer layout descriptors.
pub struct VertexBufferDescriptors {
    pub descriptor: Option<VertexBufferDescriptor>,
}

impl VertexBufferDescriptors {
    /// An empty descriptor registry.
    pub fn new() -> (r: VertexBufferDescriptors)
        ensures
            r.descriptor is None,
    {
        VertexBufferDescriptors { descriptor: None }
    }

    /// Publishes the vertex layout descriptor.
    pub fn set(&mut self, d: VertexBufferDescriptor)
        ensures
            final(self).descriptor == Some(d),
    {
        self.descriptor = Some(d);
    }
}

/// The synchronizer's persistent state: its read cursor into the event
/// stream and its cached vertex layout descriptor, computed at most once.
pub struct GltfSceneResourceProviderState {
    pub event_cursor: usize,
    pub vertex_buffer_descriptor: Option<VertexBufferDescriptor>,
}

impl Default for GltfSceneResourceProviderState {
    /// The state before any pass: nothing read, nothing cached.
    fn default() -> (r: GltfSceneResourceProviderState)
        ensures
            r.event_cursor == 0,
            r.vertex_buffer_descriptor is None,
    {
        GltfSceneResourceProviderState { event_cursor: 0, vertex_buffer_descriptor: None }
    }
}

/// A changed-handle list with `h` recorded once.
pub open spec fn insert_changed(changed: Seq<u64>, h: u64) -> Seq<u64> {
    if changed.contains(h) {
        changed
    } else {
        changed.push(h)
    }
}

/// A changed-handle list with every record of `h` cancelled.
pub open spec fn remove_changed(changed: Seq<u64>, h: u64) -> Seq<u64>
    decreases changed.len(),
{
    if changed.len() == 0 {
        Seq::empty()
    } else {
        let rest = remove_changed(changed.drop_last(), h);
        if changed.last() == h {
            rest
        } else {
            rest.push(changed.last())
        }
    }
}

/// Frees the buffer registered in a handle's vertex slot, if any, and
/// unregisters the slot.
pub open spec fn free_handle_vertex(m: RegistryModel, h: u64) -> RegistryModel {
    if m.vertex.contains_key(h) {
        RegistryModel { buffers: m.buffers.remove(m.vertex[h]), vertex: m.vertex.remove(h), ..m }
    } else {
        m
    }
}

/// Frees the buffer registered in a handle's index slot, if any, and
/// unregisters the slot.
pub open spec fn free_handle_index(m: RegistryModel, h: u64) -> RegistryModel {
    if m.index.contains_key(h) {
        RegistryModel { buffers: m.buffers.remove(m.index[h]), index: m.index.remove(h), ..m }
    } else {
        m
    }
}

/// Frees both of a handle's buffer slots.
pub open spec fn free_handle(m: RegistryModel, h: u64) -> RegistryModel {
    free_handle_index(free_handle_vertex(m, h), h)
}

/// One event's effect while draining: Created marks the handle changed;
/// Modified marks it changed and frees its buffers at once; Removed frees
/// its buffers and cancels an earlier mark of the same pass.
pub open spec fn apply_event(m: RegistryModel, changed: Seq<u64>, ev: AssetEvent) -> (
    RegistryModel,
    Seq<u64>,
) {
    match ev {
        AssetEvent::Created { handle } => (m, insert_changed(changed, handle)),
        AssetEvent::Modified { handle } => (free_handle(m, handle), insert_changed(changed, handle)),
        AssetEvent::Removed { handle } => (free_handle(m, handle), remove_changed(changed, handle)),
    }
}

/// The registry and changed-handle list after draining an event sequence
/// in stream order.
pub open spec fn drain_events(m: RegistryModel, changed: Seq<u64>, events: Seq<AssetEvent>) -> (
    RegistryModel,
    Seq<u64>,
)
    decreases events.len(),
{
    if events.len() == 0 {
        (m, changed)
    } else {
        let prev = drain_events(m, changed, events.drop_last());
        apply_event(prev.0, prev.1, events.last())
    }
}

/// The packed vertex bytes of a scene: its meshes' vertex buffers in
/// order.
pub open spec fn scene_vertex_bytes(meshes: Seq<Mesh>) -> Seq<u8>
    decreases meshes.len(),
{
    if meshes.len() == 0 {
        Seq::empty()
    } else {
        scene_vertex_bytes(meshes.drop_last()) + vertex_bytes(meshes.last())
    }
}

/// The packed index bytes of a scene: its meshes' index buffers in order,
/// 16 bits per index.
pub open spec fn scene_index_bytes(meshes: Seq<Mesh>) -> Seq<u8>
    decreases meshes.len(),
{
    if meshes.len() == 0 {
        Seq::empty()
    } else {
        scene_index_bytes(meshes.drop_last()) + index_bytes(meshes.last(), IndexFormat::Uint16)
    }
}

/// Allocates one changed handle's buffers: when its asset is present, a
/// fresh vertex buffer and a fresh index buffer hold the scene's packed
/// data and both slots are re-registered; an absent asset is skipped.
pub open spec fn alloc_handle(m: RegistryModel, h: u64, assets: Map<u64, GltfScene>) -> RegistryModel {
    if assets.contains_key(h) {
        let scene = assets[h];
        RegistryModel {
            next: m.next + 2,
            buffers: m.buffers.insert(
                m.next as u64,
                (BufferUsage::Vertex, scene_vertex_bytes(scene.meshes@)),
            ).insert((m.next + 1) as u64, (BufferUsage::Index, scene_index_bytes(scene.meshes@))),
            vertex: m.vertex.insert(h, m.next as u64),
            index: m.index.insert(h, (m.next + 1) as u64),
        }
    } else {
        m
    }
}

/// Allocates the changed handles' buffers in mark order.
pub open spec fn alloc_changed(
    m: RegistryModel,
    changed: Seq<u64>,
    assets: Map<u64, GltfScene>,
) -> RegistryModel
    decreases changed.len(),
{
    if changed.len() == 0 {
        m
    } else {
        alloc_handle(alloc_changed(m, changed.drop_last(), assets), changed.last(), assets)
    }
}

/// The registry after one reconciliation pass: the new events drained in
/// order, then every handle still marked changed re-allocated from its
/// current asset.
pub open spec fn reconciled_registry(
    m0: RegistryModel,
    events: Seq<AssetEvent>,
    assets: Map<u64, GltfScene>,
) -> RegistryModel {
    let d = drain_events(m0, Seq::empty(), events);
    alloc_changed(d.0, d.1, assets)
}

/// The topology an entity's pipelines show after a pass: the last mesh's
/// topology of its resolvable asset, else the topology it had.
pub open spec fn entity_topology(
    old_t: PrimitiveTopology,
    h: u64,
    assets: Map<u64, GltfScene>,
) -> PrimitiveTopology {
    if assets.contains_key(h) && assets[h].meshes@.len() > 0 {
        assets[h].meshes@.last().primitive_topology
    } else {
        old_t
    }
}

/// The bindings an entity shows after a pass: its handle's registered
/// vertex buffer (with the index buffer, if registered), else the
/// bindings it had.
pub open spec fn entity_bindings(
    old_b: RenderResourceBindings,
    h: u64,
    m: RegistryModel,
) -> RenderResourceBindings {
    if m.vertex.contains_key(h) {
        RenderResourceBindings {
            vertex_buffer: Some(
                VertexBufferBinding {
                    buffer: m.vertex[h],
                    index_buffer: if m.index.contains_key(h) {
                        Some(m.index[h])
                    } else {
                        None
                    },
                },
            ),
        }
    } else {
        old_b
    }
}

/// How a pass rewrites one entity: handle kept, every pipeline's topology
/// tracking the asset, bindings tracking the registry.
pub open spec fn entity_updated(
    e0: (u64, RenderPipelines),
    e1: (u64, RenderPipelines),
    assets: Map<u64, GltfScene>,
    m: RegistryModel,
) -> bool {
    &&& e1.0 == e0.0
    &&& e1.1.pipelines@.len() == e0.1.pipelines@.len()
    &&& forall|j: int|
        0 <= j < e0.1.pipelines@.len() ==> #[trigger] e1.1.pipelines@[j] == (RenderPipeline {
            specialization: PipelineSpecialization {
                primitive_topology: entity_topology(
                    e0.1.pipelines@[j].specialization.primitive_topology,
                    e0.0,
                    assets,
                ),
            },
        })
    &&& e1.1.bindings == entity_bindings(e0.1.bindings, e0.0, m)
}

/// Whether a handle is recorded in the changed list.
fn vec_contains(v: &Vec<u64>, x: u64) -> (r: bool)
    ensures
        r == v@.contains(x),
{
    let n = v.len();
    for i in 0..n
        invariant
            n == v@.len(),
            forall|j: int| 0 <= j < i ==> v@[j] != x,
    {
        if v[i] == x {
            return true;
        }
    }
    false
}

/// The changed list with every record of `x` cancelled.
fn vec_remove_value(v: &Vec<u64>, x: u64) -> (r: Vec<u64>)
    ensures
        r@ == remove_changed(v@, x),
{
    let mut out: Vec<u64> = Vec::new();
    let n = v.len();
    assert(remove_changed(v@.take(0), x) =~= Seq::<u64>::empty());
    for i in 0..n
        invariant
            n == v@.len(),
            out@ == remove_changed(v@.take(i as int), x),
    {
        proof {
            assert(v@.take(i as int + 1).drop_last() =~= v@.take(i as int));
            assert(v@.take(i as int + 1).last() == v@[i as int]);
        }
        if v[i] != x {
            out.push(v[i]);
        }
        assert(out@ =~= remove_changed(v@.take(i as int + 1), x));
    }
    assert(v@.take(n as int) =~= v@);
    out
}

/// Frees both GPU buffer slots registered for a handle, removing each
/// buffer and unregistering its slot.
pub fn remove_current_mesh_resources(
    render_resource_context: &mut RenderResourceContext,
    handle: u64,
)
    ensures
        final(render_resource_context).model() == free_handle(
            old(render_resource_context).model(),
            handle,
        ),
{
    let ghost m0 = render_resource_context.model();
    if let Some(buffer) = render_resource_context.get_asset_resource(
        handle,
        VERTEX_BUFFER_ASSET_INDEX,
    ) {
        render_resource_context.remove_buffer(buffer);
        render_resource_context.remove_asset_resource(handle, VERTEX_BUFFER_ASSET_INDEX);
    }
    proof {
        assert(render_resource_context.model() =~~= free_handle_vertex(m0, handle));
    }
    let ghost m1 = render_resource_context.model();
    if let Some(buffer) = render_resource_context.get_asset_resource(
        handle,
        INDEX_BUFFER_ASSET_INDEX,
    ) {
        render_resource_context.remove_buffer(buffer);
        render_resource_context.remove_asset_resource(handle, INDEX_BUFFER_ASSET_INDEX);
    }
    proof {
        assert(render_resource_context.model() =~~= free_handle_index(m1, handle));
    }
}

/// The packed vertex bytes of a scene's meshes, concatenated in order.
fn build_vertex_bytes(scene: &GltfScene) -> (r: Vec<u8>)
    ensures
        r@ == scene_vertex_bytes(scene.meshes@),
{
    let mut out: Vec<u8> = Vec::new();
    let n = scene.meshes.len();
    assert(scene_vertex_bytes(scene.meshes@.take(0)) =~= Seq::<u8>::empty());
    for i in 0..n
        invariant
            n == scene.meshes@.len(),
            out@ == scene_vertex_bytes(scene.meshes@.take(i as int)),
    {
        proof {
            assert(scene.meshes@.take(i as int + 1).drop_last() =~= scene.meshes@.take(i as int));
            assert(scene.meshes@.take(i as int + 1).last() == scene.meshes@[i as int]);
        }
        let mut b = scene.meshes[i].get_vertex_buffer_bytes();
        out.append(&mut b);
    }
    assert(scene.meshes@.take(n as int) =~= scene.meshes@);
    out
}

/// One reconciliation pass. Drains the event stream from the state's
/// cursor in order (Created marks a handle changed; Modified marks it and
/// frees its buffers at once; Removed frees its buffers and cancels a
/// mark of the same pass), then allocates fresh vertex and index buffers
/// holding the packed mesh data of every still-marked handle whose asset
/// is present, registering both slots. Finally every entity's pipelines
/// take the topology of its asset's last mesh, and its bindings take the
/// handle's registered buffers. The vertex layout descriptor is computed
/// and published at most once across all passes.
pub fn gttf_scene_resource_provider_system(
    state: &mut GltfSceneResourceProviderState,
    render_resource_context: &mut RenderResourceContext,
    gltf_scenes: &Assets,
    vertex_buffer_descriptors: &mut VertexBufferDescriptors,
    gltf_scene_events: &Vec<AssetEvent>,
    query: &mut Vec<(u64, RenderPipelines)>,
)
    requires
        old(state).event_cursor <= gltf_scene_events@.len(),
        old(render_resource_context).model().next + 2 * (gltf_scene_events@.len() - old(
            state,
        ).event_cursor) <= u64::MAX as int,
    ensures
        final(state).event_cursor == gltf_scene_events@.len(),
        final(state).vertex_buffer_descriptor == (match old(state).vertex_buffer_descriptor {
            Some(d) => Some(d),
            None => Some(vertex_buffer_descriptor()),
        }),
        final(vertex_buffer_descriptors).descriptor == (
        if old(state).vertex_buffer_descriptor is Some {
            old(vertex_buffer_descriptors).descriptor
        } else {
            Some(vertex_buffer_descriptor())
        }),
        final(render_resource_context).model() == reconciled_registry(
            old(render_resource_context).model(),
            gltf_scene_events@.skip(old(state).event_cursor as int),
            gltf_scenes.model(),
        ),
        final(query)@.len() == old(query)@.len(),
        forall|e: int|
            0 <= e < old(query)@.len() ==> entity_updated(
                old(query)@[e],
                final(query)@[e],
                gltf_scenes.model(),
                reconciled_registry(
                    old(render_resource_context).model(),
                    gltf_scene_events@.skip(old(state).event_cursor as int),
                    gltf_scenes.model(),
                ),
            ),
{
    if state.vertex_buffer_descriptor.is_none() {
        let d = as_vertex_buffer_descriptor();
        vertex_buffer_descriptors.set(d);
        state.vertex_buffer_descriptor = Some(d);
    }
    let ghost m0 = render_resource_context.model();
    let ghost am = gltf_scenes.model();
    let ghost evs = gltf_scene_events@.skip(state.event_cursor as int);
    let c0 = state.event_cursor;
    let ne = gltf_scene_events.len();
    let mut changed: Vec<u64> = Vec::new();
    assert(evs.take(0) =~= Seq::<AssetEvent>::empty());
    for e in c0..ne
        invariant
            c0 <= e <= ne,
            ne == gltf_scene_events@.len(),
            evs == gltf_scene_events@.skip(c0 as int),
            m0.next + 2 * (ne - c0) <= u64::MAX as int,
            render_resource_context.model() == drain_events(
                m0,
                Seq::empty(),
                evs.take(e - c0),
            ).0,
            changed@ == drain_events(m0, Seq::empty(), evs.take(e - c0)).1,
            changed@.len() <= e - c0,
            render_resource_context.model().next == m0.next,
    {
        let ghost j = e - c0;
        proof {
            assert(evs.take(j + 1).drop_last() =~= evs.take(j));
            assert(evs.take(j + 1).last() == evs[j]);
            assert(evs[j] == gltf_scene_events@[e as int]);
            assert(drain_events(m0, Seq::empty(), evs.take(j + 1)) == apply_event(
                drain_events(m0, Seq::empty(), evs.take(j)).0,
                drain_events(m0, Seq::empty(), evs.take(j)).1,
                evs[j],
            ));
        }
        match gltf_scene_events[e] {
            AssetEvent::Created { handle } => {
                if !vec_contains(&changed, handle) {
                    changed.push(handle);
                }
                assert(changed@ =~= insert_changed(
                    drain_events(m0, Seq::empty(), evs.take(j)).1,
                    handle,
                ));
            },
            AssetEvent::Modified { handle } => {
                if !vec_contains(&changed, handle) {
                    changed.push(handle);
                }
                remove_current_mesh_resources(render_resource_context, handle);
                assert(changed@ =~= insert_changed(
                    drain_events(m0, Seq::empty(), evs.take(j)).1,
                    handle,
                ));
            },
            AssetEvent::Removed { handle } => {
                remove_current_mesh_resources(render_resource_context, handle);
                changed = vec_remove_value(&changed, handle);
                proof {
                    lemma_remove_changed_len(
                        drain_events(m0, Seq::empty(), evs.take(j)).1,
                        handle,
                    );
                }
            },
        }
    }
    proof {
        assert(evs.take(ne - c0) =~= evs);
        render_resource_context.next_nonneg();
    }
    state.event_cursor = ne;
    let ghost m1 = drain_events(m0, Seq::empty(), evs).0;
    let ghost chs = changed@;
    let nch = changed.len();
    assert(chs.take(0) =~= Seq::<u64>::empty());
    assert(alloc_changed(m1, chs.take(0), am) == m1);
    for k in 0..nch
        invariant
            nch == chs.len(),
            chs == changed@,
            am == gltf_scenes.model(),
            0 <= m1.next,
            m1.next + 2 * nch <= u64::MAX as int,
            render_resource_context.model() == alloc_changed(m1, chs.take(k as int), am),
            render_resource_context.model().next <= m1.next + 2 * k,
            m1.next <= render_resource_context.model().next,
    {
        proof {
            assert(chs.take(k as int + 1).drop_last() =~= chs.take(k as int));
            assert(chs.take(k as int + 1).last() == chs[k as int]);
            assert(alloc_changed(m1, chs.take(k as int + 1), am) == alloc_handle(
                alloc_changed(m1, chs.take(k as int), am),
                chs[k as int],
                am,
            ));
        }
        let h = changed[k];
        let ghost prev = render_resource_context.model();
        match gltf_scenes.get(h) {
            Some(scene) => {
                let vbytes = build_vertex_bytes(scene);
                let ibytes = build_index_bytes(scene);
                let vertex_buffer = render_resource_context.create_buffer_with_data(
                    BufferUsage::Vertex,
                    vbytes,
                );
                let index_buffer = render_resource_context.create_buffer_with_data(
                    BufferUsage::Index,
                    ibytes,
                );
                render_resource_context.set_asset_resource(
                    h,
                    vertex_buffer,
                    VERTEX_BUFFER_ASSET_INDEX,
                );
                render_resource_context.set_asset_resource(
                    h,
                    index_buffer,
                    INDEX_BUFFER_ASSET_INDEX,
                );
                proof {
                    assert(vertex_buffer == prev.next as u64);
                    assert(index_buffer == (prev.next + 1) as u64);
                    assert(render_resource_context.model() =~~= alloc_handle(prev, h, am));
                }
            },
            None => {
                assert(render_resource_context.model() == alloc_handle(prev, h, am));
            },
        }
    }
    proof {
        assert(chs.take(nch as int) =~= chs);
        assert(render_resource_context.model() == reconciled_registry(m0, evs, am));
    }
    let ghost mfin = render_resource_context.model();
    let ghost qold = query@;
    let nq = query.len();
    for qi in 0..nq
        invariant
            nq == qold.len(),
            query@.len() == nq,
            am == gltf_scenes.model(),
            mfin == render_resource_context.model(),
            forall|e: int| 0 <= e < qi ==> entity_updated(qold[e], #[trigger] query@[e], am, mfin),
            forall|e: int| qi <= e < nq ==> #[trigger] query@[e] == qold[e],
    {
        let handle = query[qi].0;
        let topo_opt: Option<PrimitiveTopology> = match gltf_scenes.get(handle) {
            Some(scene) => {
                let nm = scene.meshes.len();
                if nm > 0 {
                    Some(scene.meshes[nm - 1].primitive_topology)
                } else {
                    None
                }
            },
            None => None,
        };
        proof {
            assert(forall|t: PrimitiveTopology| #[trigger]
                entity_topology(t, handle, am) == (match topo_opt {
                    Some(tt) => tt,
                    None => t,
                }));
        }
        let np = query[qi].1.pipelines.len();
        let mut new_pipes: Vec<RenderPipeline> = Vec::new();
        let ghost qmid = query@;
        for pi in 0..np
            invariant
                query@ == qmid,
                qi < nq,
                nq == qmid.len(),
                np == qmid[qi as int].1.pipelines@.len(),
                handle == qmid[qi as int].0,
                new_pipes@.len() == pi,
                forall|t: PrimitiveTopology| #[trigger]
                    entity_topology(t, handle, am) == (match topo_opt {
                        Some(tt) => tt,
                        None => t,
                    }),
                forall|j: int|
                    0 <= j < pi ==> #[trigger] new_pipes@[j] == (RenderPipeline {
                        specialization: PipelineSpecialization {
                            primitive_topology: entity_topology(
                                qmid[qi as int].1.pipelines@[j].specialization.primitive_topology,
                                handle,
                                am,
                            ),
                        },
                    }),
        {
            let p = query[qi].1.pipelines[pi];
            let t = match topo_opt {
                Some(tt) => tt,
                None => p.specialization.primitive_topology,
            };
            new_pipes.push(
                RenderPipeline { specialization: PipelineSpecialization { primitive_topology: t } },
            );
        }
        let mut b = query[qi].1.bindings;
        match render_resource_context.get_asset_resource(handle, VERTEX_BUFFER_ASSET_INDEX) {
            Some(vertex_buffer) => {
                let ib = render_resource_context.get_asset_resource(
                    handle,
                    INDEX_BUFFER_ASSET_INDEX,
                );
                b.set_vertex_buffer(vertex_buffer, ib);
            },
            None => {},
        }
        query[qi] = (handle, RenderPipelines { pipelines: new_pipes, bindings: b });
        proof {
            assert(entity_updated(qold[qi as int], query@[qi as int], am, mfin));
        }
    }
}

/// Freeing a handle's slots keeps the registry invariant and the next
/// id: exclusive ownership means no other slot loses its buffer.
pub proof fn lemma_free_handle_preserves_inv(m: RegistryModel, h: u64)
    requires
        reg_inv(m),
    ensures
        reg_inv(free_handle(m, h)),
        free_handle(m, h).next == m.next,
{
}

/// Draining events keeps the registry invariant, never allocates (the
/// next id stays), and marks at most one handle per drained event.
pub proof fn lemma_drain_preserves_inv(
    m: RegistryModel,
    changed: Seq<u64>,
    events: Seq<AssetEvent>,
)
    requires
        reg_inv(m),
    ensures
        ({
            let d = drain_events(m, changed, events);
            reg_inv(d.0) && d.0.next == m.next && d.1.len() <= changed.len() + events.len()
        }),
    decreases events.len(),
{
    if events.len() > 0 {
        lemma_drain_preserves_inv(m, changed, events.drop_last());
        let prev = drain_events(m, changed, events.drop_last());
        match events.last() {
            AssetEvent::Created { handle } => {},
            AssetEvent::Modified { handle } => {
                lemma_free_handle_preserves_inv(prev.0, handle);
            },
            AssetEvent::Removed { handle } => {
                lemma_free_handle_preserves_inv(prev.0, handle);
                lemma_remove_changed_len(prev.1, handle);
            },
        }
    }
}

/// Allocating the changed handles keeps the registry invariant: each
/// allocation hands out two fresh ids above everything registered.
pub proof fn lemma_alloc_preserves_inv(
    m: RegistryModel,
    changed: Seq<u64>,
    assets: Map<u64, GltfScene>,
)
    requires
        reg_inv(m),
        m.next + 2 * changed.len() <= u64::MAX as int,
    ensures
        ({
            let a = alloc_changed(m, changed, assets);
            reg_inv(a) && m.next <= a.next <= m.next + 2 * changed.len()
        }),
    decreases changed.len(),
{
    if changed.len() > 0 {
        lemma_alloc_preserves_inv(m, changed.drop_last(), assets);
        let sub = alloc_changed(m, changed.drop_last(), assets);
        let h = changed.last();
        let a = alloc_handle(sub, h, assets);
        if assets.contains_key(h) {
            assert((sub.next as u64) as int == sub.next);
            assert(((sub.next + 1) as u64) as int == sub.next + 1);
            assert(reg_wf(a));
            assert(no_dangling(a)) by {
                assert(forall|h2: u64| #[trigger]
                    a.vertex.contains_key(h2) ==> a.buffers.contains_key(a.vertex[h2]));
                assert(forall|h2: u64| #[trigger]
                    a.index.contains_key(h2) ==> a.buffers.contains_key(a.index[h2]));
            }
            assert(slots_exclusive(a));
        }
    }
}

/// One reconciliation pass keeps the registry invariant: well-formed
/// ids, no dangling slot, and exclusive buffer ownership all survive any
/// event sequence.
pub proof fn lemma_reconcile_preserves_inv(
    m0: RegistryModel,
    events: Seq<AssetEvent>,
    assets: Map<u64, GltfScene>,
)
    requires
        reg_inv(m0),
        m0.next + 2 * events.len() <= u64::MAX as int,
    ensures
        reg_inv(reconciled_registry(m0, events, assets)),
{
    lemma_drain_preserves_inv(m0, Seq::empty(), events);
    let d = drain_events(m0, Seq::empty(), events);
    lemma_alloc_preserves_inv(d.0, d.1, assets);
}

/// A pass that drains no events changes nothing: buffers already
/// allocated for a handle are never reallocated by an idle pass.
pub proof fn lemma_pass_without_events_is_identity(m: RegistryModel, assets: Map<u64, GltfScene>)
    ensures
        reconciled_registry(m, Seq::empty(), assets) == m,
{
}

/// A pass that drains `Created(h)` with `h`'s asset present allocates
/// its two buffers exactly once: the vertex slot gets the first fresh
/// id, the index slot the second, both buffers hold the scene's packed
/// data, and a later pass with no new events leaves all of it untouched.
pub proof fn lemma_created_allocates_once(m0: RegistryModel, h: u64, assets: Map<u64, GltfScene>)
    requires
        assets.contains_key(h),
        0 <= m0.next,
        m0.next + 2 <= u64::MAX as int,
    ensures
        ({
            let m1 = reconciled_registry(m0, seq![AssetEvent::Created { handle: h }], assets);
            &&& m1.vertex == m0.vertex.insert(h, m0.next as u64)
            &&& m1.index == m0.index.insert(h, (m0.next + 1) as u64)
            &&& m1.buffers.contains_key(m0.next as u64)
            &&& m1.buffers[m0.next as u64] == (
                BufferUsage::Vertex,
                scene_vertex_bytes(assets[h].meshes@),
            )
            &&& m1.buffers.contains_key((m0.next + 1) as u64)
            &&& m1.buffers[(m0.next + 1) as u64] == (
                BufferUsage::Index,
                scene_index_bytes(assets[h].meshes@),
            )
            &&& m1.next == m0.next + 2
            &&& reconciled_registry(m1, Seq::empty(), assets) == m1
        }),
{
    let evs = seq![AssetEvent::Created { handle: h }];
    assert(evs.drop_last() =~= Seq::<AssetEvent>::empty());
    assert(evs.last() == AssetEvent::Created { handle: h });
    assert(drain_events(m0, Seq::empty(), Seq::<AssetEvent>::empty()) == (
        m0,
        Seq::<u64>::empty(),
    ));
    assert(drain_events(m0, Seq::empty(), evs) == apply_event(
        m0,
        Seq::<u64>::empty(),
        AssetEvent::Created { handle: h },
    ));
    let marked = insert_changed(Seq::empty(), h);
    assert(!Seq::<u64>::empty().contains(h));
    assert(marked =~= Seq::<u64>::empty().push(h));
    assert(marked.len() == 1 && marked.last() == h);
    assert(marked.drop_last() =~= Seq::<u64>::empty());
    assert(alloc_changed(m0, Seq::<u64>::empty(), assets) == m0);
    assert(alloc_changed(m0, marked, assets) == alloc_handle(m0, h, assets));
    let m1 = reconciled_registry(m0, evs, assets);
    assert(m1 == alloc_handle(m0, h, assets));
    assert((m0.next as u64) as int == m0.next);
    assert(((m0.next + 1) as u64) as int == m0.next + 1);
    assert((m0.next as u64) != ((m0.next + 1) as u64));
    assert(drain_events(m1, Seq::empty(), Seq::<AssetEvent>::empty()) == (
        m1,
        Seq::<u64>::empty(),
    ));
    assert(alloc_changed(m1, Seq::<u64>::empty(), assets) == m1);
}

/// Created, Modified and Removed for one handle, drained in one pass,
/// net to exactly a free of that handle: its slots end unregistered,
/// the buffers they held are gone, nothing is allocated for it, and the
/// registry invariant still holds — no dangling id remains.
pub proof fn lemma_create_modify_remove_nets_nothing(
    m0: RegistryModel,
    h: u64,
    assets: Map<u64, GltfScene>,
)
    requires
        reg_inv(m0),
    ensures
        ({
            let evs = seq![
                AssetEvent::Created { handle: h },
                AssetEvent::Modified { handle: h },
                AssetEvent::Removed { handle: h },
            ];
            let m2 = reconciled_registry(m0, evs, assets);
            &&& m2 == free_handle(m0, h)
            &&& !m2.vertex.contains_key(h)
            &&& !m2.index.contains_key(h)
            &&& m2.next == m0.next
            &&& (m0.vertex.contains_key(h) ==> !m2.buffers.contains_key(m0.vertex[h]))
            &&& (m0.index.contains_key(h) ==> !m2.buffers.contains_key(m0.index[h]))
            &&& reg_inv(m2)
        }),
{
    let evs = seq![
        AssetEvent::Created { handle: h },
        AssetEvent::Modified { handle: h },
        AssetEvent::Removed { handle: h },
    ];
    let evs2 = seq![AssetEvent::Created { handle: h }, AssetEvent::Modified { handle: h }];
    let evs1 = seq![AssetEvent::Created { handle: h }];
    assert(evs.drop_last() =~= evs2);
    assert(evs.last() == AssetEvent::Removed { handle: h });
    assert(evs2.drop_last() =~= evs1);
    assert(evs2.last() == AssetEvent::Modified { handle: h });
    assert(evs1.drop_last() =~= Seq::<AssetEvent>::empty());
    assert(evs1.last() == AssetEvent::Created { handle: h });
    let marked = insert_changed(Seq::empty(), h);
    assert(!Seq::<u64>::empty().contains(h));
    assert(marked =~= Seq::<u64>::empty().push(h));
    assert(marked.len() == 1 && marked[0] == h);
    assert(marked.contains(h));
    assert(insert_changed(marked, h) == marked);
    assert(marked.drop_last() =~= Seq::<u64>::empty());
    assert(marked.last() == h);
    assert(remove_changed(Seq::<u64>::empty(), h) =~= Seq::<u64>::empty());
    assert(remove_changed(marked, h) =~= Seq::<u64>::empty());
    let mf = free_handle(m0, h);
    assert(drain_events(m0, Seq::empty(), Seq::<AssetEvent>::empty()) == (
        m0,
        Seq::<u64>::empty(),
    ));
    assert(drain_events(m0, Seq::empty(), evs1) == apply_event(
        m0,
        Seq::<u64>::empty(),
        AssetEvent::Created { handle: h },
    ));
    assert(drain_events(m0, Seq::empty(), evs1) == (m0, marked));
    assert(drain_events(m0, Seq::empty(), evs2) == apply_event(
        m0,
        marked,
        AssetEvent::Modified { handle: h },
    ));
    assert(drain_events(m0, Seq::empty(), evs2) == (mf, marked));
    assert(drain_events(m0, Seq::empty(), evs) == apply_event(
        mf,
        marked,
        AssetEvent::Removed { handle: h },
    ));
    assert(!mf.vertex.contains_key(h));
    assert(!mf.index.contains_key(h));
    assert(free_handle_vertex(mf, h) == mf);
    assert(free_handle_index(mf, h) == mf);
    assert(free_handle(mf, h) == mf);
    assert(drain_events(m0, Seq::empty(), evs) == (mf, Seq::<u64>::empty()));
    assert(alloc_changed(mf, Seq::<u64>::empty(), assets) == mf);
    assert(reconciled_registry(m0, evs, assets) == mf);
    lemma_free_handle_preserves_inv(m0, h);
}

/// After a pass that drains `Modified(h)` with `h`'s asset present, the
/// handle's slots hold freshly allocated ids, different from the ids
/// they held before, and an entity bound to `h` binds exactly those new
/// ids.
pub proof fn lemma_modified_rebinds_fresh_buffers(
    m0: RegistryModel,
    h: u64,
    assets: Map<u64, GltfScene>,
    b0: RenderResourceBindings,
)
    requires
        reg_wf(m0),
        m0.vertex.contains_key(h),
        m0.index.contains_key(h),
        assets.contains_key(h),
        m0.next + 2 <= u64::MAX as int,
    ensures
        ({
            let m2 = reconciled_registry(m0, seq![AssetEvent::Modified { handle: h }], assets);
            &&& m2.vertex.contains_key(h)
            &&& m2.index.contains_key(h)
            &&& m2.vertex[h] != m0.vertex[h]
            &&& m2.index[h] != m0.index[h]
            &&& entity_bindings(b0, h, m2) == (RenderResourceBindings {
                vertex_buffer: Some(
                    VertexBufferBinding {
                        buffer: m2.vertex[h],
                        index_buffer: Some(m2.index[h]),
                    },
                ),
            })
        }),
{
    let evs = seq![AssetEvent::Modified { handle: h }];
    assert(evs.drop_last() =~= Seq::<AssetEvent>::empty());
    assert(evs.last() == AssetEvent::Modified { handle: h });
    let marked = insert_changed(Seq::empty(), h);
    assert(!Seq::<u64>::empty().contains(h));
    assert(marked =~= Seq::<u64>::empty().push(h));
    assert(marked.len() == 1 && marked.last() == h);
    assert(marked.drop_last() =~= Seq::<u64>::empty());
    let mf = free_handle(m0, h);
    assert(mf.next == m0.next);
    assert(drain_events(m0, Seq::empty(), Seq::<AssetEvent>::empty()) == (
        m0,
        Seq::<u64>::empty(),
    ));
    assert(drain_events(m0, Seq::empty(), evs) == apply_event(
        m0,
        Seq::<u64>::empty(),
        AssetEvent::Modified { handle: h },
    ));
    assert(drain_events(m0, Seq::empty(), evs) == (mf, marked));
    assert(alloc_changed(mf, Seq::<u64>::empty(), assets) == mf);
    assert(alloc_changed(mf, marked, assets) == alloc_handle(mf, h, assets));
    let m2 = reconciled_registry(m0, evs, assets);
    assert(m2 == alloc_handle(mf, h, assets));
    assert((m0.next as u64) as int == m0.next);
    assert(((m0.next + 1) as u64) as int == m0.next + 1);
    assert(m2.vertex[h] == (m0.next as u64));
    assert(m2.index[h] == ((m0.next + 1) as u64));
    assert((m0.vertex[h] as int) < m0.next);
    assert((m0.index[h] as int) < m0.next);
}

/// A cancelled changed list is no longer than the list it came from.
proof fn lemma_remove_changed_len(s: Seq<u64>, h: u64)
    ensures
        remove_changed(s, h).len() <= s.len(),
    decreases s.len(),
{
    if s.len() > 0 {
        lemma_remove_changed_len(s.drop_last(), h);
    }
}

/// The packed 16-bit index bytes of a scene's meshes, concatenated in
/// order.
fn build_index_bytes(scene: &GltfScene) -> (r: Vec<u8>)
    ensures
        r@ == scene_index_bytes(scene.meshes@),
{
    let mut out: Vec<u8> = Vec::new();
    let n = scene.meshes.len();
    assert(scene_index_bytes(scene.meshes@.take(0)) =~= Seq::<u8>::empty());
    for i in 0..n
        invariant
            n == scene.meshes@.len(),
            out@ == scene_index_bytes(scene.meshes@.take(i as int)),
    {
        proof {
            assert(scene.meshes@.take(i as int + 1).drop_last() =~= scene.meshes@.take(i as int));
            assert(scene.meshes@.take(i as int + 1).last() == scene.meshes@[i as int]);
        }
        let mut b = scene.meshes[i].get_index_buffer_bytes(IndexFormat::Uint16);
        out.append(&mut b);
    }
    assert(scene.meshes@.take(n as int) =~= scene.meshes@);
    out
}

} // verus!

