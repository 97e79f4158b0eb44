//! The GPU resource registry: buffers created from byte data and looked
//! up by id, and per-asset resource slots binding a handle to its vertex
//! and index buffer. The registry is held in memory and fully modelled:
//! every operation's effect on the model is part of its contract.

use vstd::prelude::*;

use std::collections::HashMap;

verus! {

/// The registry slot of a handle's vertex buffer.
pub const VERTEX_BUFFER_ASSET_INDEX: u64 = 0;

/// The registry slot of a handle's index buffer.
pub const INDEX_BUFFER_ASSET_INDEX: u64 = 1;

/// What a GPU buffer is created for.
#[derive(Clone, Copy, PartialEq, Eq, Structural, Debug)]
pub enum BufferUsage {
    Vertex,
    Index,
}

/// The mathematical state of the registry: the id the next buffer gets,
/// the live buffers with their contents, and the two per-handle slot
/// maps.
#[verifier::ext_equal]
pub ghost struct RegistryModel {
    pub next: int,
    pub buffers: Map<u64, (BufferUsage, Seq<u8>)>,
    pub vertex: Map<u64, u64>,
    pub index: Map<u64, u64>,
}

/// The registry with nothing allocated and nothing bound.
pub open spec fn empty_registry() -> RegistryModel {
    RegistryModel {
        next: 0,
        buffers: Map::empty(),
        vertex: Map::empty(),
        index: Map::empty(),
    }
}

/// The slot map a slot index selects.
pub open spec fn slot_map(m: RegistryModel, index: u64) -> Map<u64, u64> {
    if index == VERTEX_BUFFER_ASSET_INDEX {
        m.vertex
    } else {
        m.index
    }
}

/// Every id the registry holds lies below the next id to be handed out.
pub open spec fn reg_wf(m: RegistryModel) -> bool {
    &&& 0 <= m.next
    &&& forall|id: u64| #[trigger] m.buffers.contains_key(id) ==> (id as int) < m.next
    &&& forall|h: u64| #[trigger] m.vertex.contains_key(h) ==> (m.vertex[h] as int) < m.next
    &&& forall|h: u64| #[trigger] m.index.contains_key(h) ==> (m.index[h] as int) < m.next
}

/// Every registered slot id refers to a live buffer: nothing dangles.
pub open spec fn no_dangling(m: RegistryModel) -> bool {
    &&& forall|h: u64| #[trigger] m.vertex.contains_key(h) ==> m.buffers.contains_key(m.vertex[h])
    &&& forall|h: u64| #[trigger] m.index.contains_key(h) ==> m.buffers.contains_key(m.index[h])
}

/// No two registered slots share a buffer id: each live slot owns its
/// buffer exclusively.
pub open spec fn slots_exclusive(m: RegistryModel) -> bool {
    &&& forall|h1: u64, h2: u64|
        #![trigger m.vertex[h1], m.vertex[h2]]
        m.vertex.contains_key(h1) && m.vertex.contains_key(h2) && h1 != h2 ==> m.vertex[h1]
            != m.vertex[h2]
    &&& forall|h1: u64, h2: u64|
        #![trigger m.index[h1], m.index[h2]]
        m.index.contains_key(h1) && m.index.contains_key(h2) && h1 != h2 ==> m.index[h1]
            != m.index[h2]
    &&& forall|h1: u64, h2: u64|
        #![trigger m.vertex[h1], m.index[h2]]
        m.vertex.contains_key(h1) && m.index.contains_key(h2) ==> m.vertex[h1] != m.index[h2]
}

/// The registry invariant: well-formed ids, no dangling slot, exclusive
/// buffer ownership.
pub open spec fn reg_inv(m: RegistryModel) -> bool {
    reg_wf(m) && no_dangling(m) && slots_exclusive(m)
}

/// The GPU resource registry.
pub struct RenderResourceContext {
    next_buffer_id: u64,
    buffers: HashMap<u64, (BufferUsage, Vec<u8>)>,
    vertex_resources: HashMap<u64, u64>,
    index_resources: HashMap<u64, u64>,
}

impl RenderResourceContext {
    /// The model of this registry.
    pub closed spec fn model(self) -> RegistryModel {
        RegistryModel {
            next: self.next_buffer_id as int,
            buffers: Map::new(
                |id: u64| self.buffers@.dom().contains(id),
                |id: u64| (self.buffers@[id].0, self.buffers@[id].1@),
            ),
            vertex: self.vertex_resources@,
            index: self.index_resources@,
        }
    }

    /// The next buffer id never lies below zero.
    pub proof fn next_nonneg(&self)
        ensures
            0 <= self.model().next,
    {
    }

    /// A registry with nothing allocated and nothing bound.
    pub fn new() -> (r: RenderResourceContext)
        ensures
            r.model() == empty_registry(),
    {
        let r = RenderResourceContext {
            next_buffer_id: 0,
            buffers: HashMap::new(),
            vertex_resources: HashMap::new(),
            index_resources: HashMap::new(),
        };
        proof {
            assert(r.model() =~~= empty_registry());
        }
        r
    }

    /// Creates a buffer holding the given data and returns its fresh id.
    pub fn create_buffer_with_data(&mut self, usage: BufferUsage, data: Vec<u8>) -> (id: u64)
        requires
            old(self).model().next + 1 <= u64::MAX as int,
        ensures
            id as int == old(self).model().next,
            final(self).model() == (RegistryModel {
                next: old(self).model().next + 1,
                buffers: old(self).model().buffers.insert(id, (usage, data@)),
                ..old(self).model()
            }),
    {
        let ghost pre = self.model();
        let id = self.next_buffer_id;
        let ghost d = data@;
        self.buffers.insert(id, (usage, data));
        self.next_buffer_id = self.next_buffer_id + 1;
        proof {
            assert(self.model().buffers =~~= pre.buffers.insert(id, (usage, d)));
            assert(self.model() =~~= (RegistryModel {
                next: pre.next + 1,
                buffers: pre.buffers.insert(id, (usage, d)),
                ..pre
            }));
        }
        id
    }

    /// Removes a buffer; its id is no longer live.
    pub fn remove_buffer(&mut self, buffer: u64)
        ensures
            final(self).model() == (RegistryModel {
                buffers: old(self).model().buffers.remove(buffer),
                ..old(self).model()
            }),
    {
        let ghost pre = self.model();
        self.buffers.remove(&buffer);
        proof {
            assert(self.model().buffers =~~= pre.buffers.remove(buffer));
            assert(self.model() =~~= (RegistryModel {
                buffers: pre.buffers.remove(buffer),
                ..pre
            }));
        }
    }

    /// Whether a buffer with the given id is live.
    pub fn has_buffer(&self, buffer: u64) -> (r: bool)
        ensures
            r == self.model().buffers.contains_key(buffer),
    {
        self.buffers.contains_key(&buffer)
    }

    /// The buffer id registered for a handle in a slot, if any.
    pub fn get_asset_resource(&self, handle: u64, index: u64) -> (r: Option<u64>)
        requires
            index == VERTEX_BUFFER_ASSET_INDEX || index == INDEX_BUFFER_ASSET_INDEX,
        ensures
            r == (if slot_map(self.model(), index).contains_key(handle) {
                Some(slot_map(self.model(), index)[handle])
            } else {
                None
            }),
    {
        let m = if index == VERTEX_BUFFER_ASSET_INDEX {
            &self.vertex_resources
        } else {
            &self.index_resources
        };
        match m.get(&handle) {
            Some(b) => Some(*b),
            None => None,
        }
    }

    /// Registers a buffer id for a handle in a slot, replacing any
    /// earlier registration of that slot.
    pub fn set_asset_resource(&mut self, handle: u64, buffer: u64, index: u64)
        requires
            index == VERTEX_BUFFER_ASSET_INDEX || index == INDEX_BUFFER_ASSET_INDEX,
        ensures
            index == VERTEX_BUFFER_ASSET_INDEX ==> final(self).model() == (RegistryModel {
                vertex: old(self).model().vertex.insert(handle, buffer),
                ..old(self).model()
            }),
            index == INDEX_BUFFER_ASSET_INDEX ==> final(self).model() == (RegistryModel {
                index: old(self).model().index.insert(handle, buffer),
                ..old(self).model()
            }),
    {
        let ghost pre = self.model();
        if index == VERTEX_BUFFER_ASSET_INDEX {
            self.vertex_resources.insert(handle, buffer);
            proof {
                assert(self.model() =~~= (RegistryModel {
                    vertex: pre.vertex.insert(handle, buffer),
                    ..pre
                }));
            }
        } else {
            self.index_resources.insert(handle, buffer);
            proof {
                assert(self.model() =~~= (RegistryModel {
                    index: pre.index.insert(handle, buffer),
                    ..pre
                }));
            }
        }
    }

    /// Unregisters a handle's slot, if registered.
    pub fn remove_asset_resource(&mut self, handle: u64, index: u64)
        requires
            index == VERTEX_BUFFER_ASSET_INDEX || index == INDEX_BUFFER_ASSET_INDEX,
        ensures
            index == VERTEX_BUFFER_ASSET_INDEX ==> final(self).model() == (RegistryModel {
                vertex: old(self).model().vertex.remove(handle),
                ..old(self).model()
            }),
            index == INDEX_BUFFER_ASSET_INDEX ==> final(self).model() == (RegistryModel {
                index: old(self).model().index.remove(handle),
                ..old(self).model()
            }),
    {
        let ghost pre = self.model();
        if index == VERTEX_BUFFER_ASSET_INDEX {
            self.vertex_resources.remove(&handle);
            proof {
                assert(self.model() =~~= (RegistryModel {
                    vertex: pre.vertex.remove(handle),
                    ..pre
                }));
            }
        } else {
            self.index_resources.remove(&handle);
            proof {
                assert(self.model() =~~= (RegistryModel {
                    index: pre.index.remove(handle),
                    ..pre
                }));
            }
        }
    }
}

} // verus!
