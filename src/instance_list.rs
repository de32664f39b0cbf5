use crate::error::ResourceError;
use crate::handle::{Handle, HandleArena, SlotKey};
use crate::instance::Instance;
use crate::mesh::Mesh;
use crate::pipeline::Pipeline;
use crate::resizable_buffer::{ResizableBuffer, MAX_DATA_LEN};
use vstd::prelude::*;

verus! {

/// Bit of `wgpu::BufferUsages` for a buffer that can be copied into.
pub const USAGE_COPY_DST: u32 = 8;

/// Bit of `wgpu::BufferUsages` for a buffer that feeds vertex (or instance) attributes.
pub const USAGE_VERTEX: u32 = 32;

/// Initial size in bytes of an instance list's GPU buffer.
pub const INITIAL_INSTANCE_BUFFER_CAPACITY: u64 = 100;

/// `ks` names the active instances of `m`, each once, by increasing slot: the order in which
/// an arena walks its values.
pub open spec fn active_in_slot_order<X>(m: Map<SlotKey, Instance<X>>, ks: Seq<SlotKey>) -> bool {
    &&& forall|i: int| 0 <= i < ks.len() ==> m.contains_key(#[trigger] ks[i]) && m[ks[i]].active_spec()
    &&& forall|k: SlotKey| m.contains_key(k) && #[trigger] m[k].active_spec() ==> ks.contains(k)
    &&& forall|i: int, j: int| 0 <= i < j < ks.len() ==> (#[trigger] ks[i]).0 < (#[trigger] ks[j]).0
}

/// `staged` holds the transforms of the active instances of `m`, in slot order.
pub open spec fn stages_active<X>(m: Map<SlotKey, Instance<X>>, staged: Seq<X>) -> bool {
    exists|ks: Seq<SlotKey>|
        {
            &&& active_in_slot_order(m, ks)
            &&& #[trigger] ks.len() == staged.len()
            &&& forall|i: int| 0 <= i < ks.len() ==> staged[i] == m[#[trigger] ks[i]].transform_spec()
        }
}

/// The keys of the active instances of `m`.
pub open spec fn active_keys<X>(m: Map<SlotKey, Instance<X>>) -> Set<SlotKey> {
    m.dom().filter(|k: SlotKey| m[k].active_spec())
}

/// After a rebuild, as many instances are staged, and so drawn, as are active.
pub proof fn lemma_staged_count_is_active_count<X>(m: Map<SlotKey, Instance<X>>, staged: Seq<X>)
    requires
        stages_active(m, staged),
    ensures
        staged.len() == active_keys(m).len(),
{
    let ks = choose|ks: Seq<SlotKey>|
        {
            &&& active_in_slot_order(m, ks)
            &&& #[trigger] ks.len() == staged.len()
            &&& forall|i: int| 0 <= i < ks.len() ==> staged[i] == m[#[trigger] ks[i]].transform_spec()
        };
    assert(ks.no_duplicates()) by {
        assert forall|i: int, j: int| 0 <= i < ks.len() && 0 <= j < ks.len() && i != j implies ks[i] != ks[j] by {
            if i < j {
                assert(ks[i].0 < ks[j].0);
            } else {
                assert(ks[j].0 < ks[i].0);
            }
        }
    }
    assert(ks.to_set() =~= active_keys(m)) by {
        assert forall|k: SlotKey| ks.to_set().contains(k) implies active_keys(m).contains(k) by {
            let i = choose|i: int| 0 <= i < ks.len() && ks[i] == k;
            assert(m.contains_key(ks[i]) && m[ks[i]].active_spec());
        }
        assert forall|k: SlotKey| active_keys(m).contains(k) implies ks.to_set().contains(k) by {
            assert(m.contains_key(k) && m[k].active_spec());
        }
    }
    ks.unique_seq_to_set();
}

/// The instances of one mesh drawn with one pipeline, and the GPU-bound copy of the
/// transforms of those that are active.
pub struct InstanceList<X> {
    mesh: Handle<Mesh>,
    pipeline: Handle<Pipeline>,
    instances: HandleArena<Instance<X>>,
    instance_data: Vec<X>,
    instance_buffer: ResizableBuffer,
}

impl<X: Copy> InstanceList<X> {
    pub closed spec fn mesh_spec(&self) -> Handle<Mesh> {
        self.mesh
    }

    pub closed spec fn pipeline_spec(&self) -> Handle<Pipeline> {
        self.pipeline
    }

    /// The live instances, by key.
    pub closed spec fn instances_spec(&self) -> Map<SlotKey, Instance<X>> {
        self.instances@
    }

    /// The keys of every instance removed from this list.
    pub closed spec fn retired_spec(&self) -> Set<SlotKey> {
        self.instances.retired()
    }

    /// Whether one more instance can be removed from this list.
    pub closed spec fn can_remove_spec(&self) -> bool {
        self.instances.can_remove()
    }

    /// The transforms staged by the last rebuild.
    pub closed spec fn staged_spec(&self) -> Seq<X> {
        self.instance_data@
    }

    pub closed spec fn buffer_spec(&self) -> ResizableBuffer {
        self.instance_buffer
    }

    /// `self` draws the same mesh with the same pipeline as `other`, and holds the same staged
    /// transforms and buffer.
    pub open spec fn same_frame(&self, other: Self) -> bool {
        &&& self.mesh_spec() == other.mesh_spec()
        &&& self.pipeline_spec() == other.pipeline_spec()
        &&& self.staged_spec() == other.staged_spec()
        &&& self.buffer_spec() == other.buffer_spec()
    }

    pub closed spec fn wf(&self) -> bool {
        &&& self.instances.wf()
        &&& self.instance_buffer.wf()
    }

    /// A well-formed list holds finitely many instances.
    pub proof fn lemma_finite(&self)
        requires
            self.wf(),
        ensures
            self.instances_spec().dom().finite(),
    {
        self.instances.lemma_finite();
    }

    pub fn pipeline(&self) -> (r: Handle<Pipeline>)
        ensures
            r == self.pipeline_spec(),
    {
        self.pipeline
    }

    pub fn mesh(&self) -> (r: Handle<Mesh>)
        ensures
            r == self.mesh_spec(),
    {
        self.mesh
    }

    pub fn instance_buffer(&self) -> (r: &ResizableBuffer)
        ensures
            *r == self.buffer_spec(),
    {
        &self.instance_buffer
    }

    /// The transforms staged by the last rebuild, the ones the GPU buffer is filled from.
    pub fn instance_data(&self) -> (r: &Vec<X>)
        ensures
            r@ == self.staged_spec(),
    {
        &self.instance_data
    }

    /// Whether `instance` is live in this list.
    pub fn contains_instance(&self, instance: Handle<Instance<X>>) -> (r: bool)
        requires
            self.wf(),
        ensures
            r == self.instances_spec().contains_key(instance@),
    {
        self.instances.contains(instance)
    }

    /// Whether one more instance can be removed: see [`HandleArena::can_remove`].
    pub fn instance_removals_left(&self) -> (r: bool)
        requires
            self.wf(),
        ensures
            r == self.can_remove_spec(),
    {
        self.instances.removals_left()
    }

    /// How many instances the list holds, active or not.
    pub fn instance_count(&self) -> (r: u32)
        requires
            self.wf(),
        ensures
            r == self.instances_spec().len() as u32,
    {
        self.instances.len() as u32
    }

    /// How many instances the last rebuild staged, which is how many are drawn.
    pub fn buffered_instance_count(&self) -> (r: u32)
        ensures
            r == self.staged_spec().len() as u32,
    {
        self.instance_data.len() as u32
    }

    /// An empty list drawing `mesh` with `pipeline`.
    pub fn new(mesh: Handle<Mesh>, pipeline: Handle<Pipeline>) -> (r: Self)
        ensures
            r.wf(),
            r.mesh_spec() == mesh,
            r.pipeline_spec() == pipeline,
            r.instances_spec() == Map::<SlotKey, Instance<X>>::empty(),
            r.retired_spec() == Set::<SlotKey>::empty(),
            r.can_remove_spec(),
            r.staged_spec() == Seq::<X>::empty(),
            r.buffer_spec().capacity_spec() == INITIAL_INSTANCE_BUFFER_CAPACITY,
            r.buffer_spec().size_spec() == 0,
            r.buffer_spec().usage_spec() == USAGE_VERTEX | USAGE_COPY_DST,
    {
        InstanceList {
            mesh,
            pipeline,
            instances: HandleArena::new(),
            instance_data: Vec::new(),
            instance_buffer: ResizableBuffer::new(INITIAL_INSTANCE_BUFFER_CAPACITY, USAGE_VERTEX | USAGE_COPY_DST),
        }
    }

    /// Adds an active instance; its handle is fresh in this list.
    pub fn add_instance(&mut self, transform: X) -> (r: Handle<Instance<X>>)
        requires
            old(self).wf(),
        ensures
            final(self).wf(),
            !old(self).instances_spec().contains_key(r@),
            !old(self).retired_spec().contains(r@),
            final(self).instances_spec() == old(self).instances_spec().insert(r@, Instance::new_spec(transform)),
            final(self).instances_spec().len() == old(self).instances_spec().len() + 1,
            final(self).retired_spec() == old(self).retired_spec(),
            final(self).can_remove_spec() == old(self).can_remove_spec(),
            final(self).same_frame(*old(self)),
    {
        let instance = Instance::new(transform);
        self.instances.insert(instance)
    }

    /// Gives a live instance a new transform.
    pub fn update_instance(&mut self, instance: Handle<Instance<X>>, transform: X) -> (r: Result<(), ResourceError>)
        requires
            old(self).wf(),
        ensures
            final(self).wf(),
            r is Err <==> !old(self).instances_spec().contains_key(instance@),
            r is Err ==> r->Err_0 == ResourceError::StaleHandle,
            r is Ok ==> final(self).instances_spec() == old(self).instances_spec().insert(
                instance@,
                old(self).instances_spec()[instance@].with_transform(transform),
            ),
            r is Err ==> final(self).instances_spec() == old(self).instances_spec(),
            final(self).retired_spec() == old(self).retired_spec(),
            final(self).can_remove_spec() == old(self).can_remove_spec(),
            final(self).same_frame(*old(self)),
    {
        if !self.instances.contains(instance) {
            return Err(ResourceError::StaleHandle);
        }
        let entry = self.instances.get_mut(instance);
        entry.set_transform(transform);
        Ok(())
    }

    /// Shows or hides a live instance without removing it.
    pub fn set_instance_active(&mut self, instance: Handle<Instance<X>>, active: bool) -> (r: Result<(), ResourceError>)
        requires
            old(self).wf(),
        ensures
            final(self).wf(),
            r is Err <==> !old(self).instances_spec().contains_key(instance@),
            r is Err ==> r->Err_0 == ResourceError::StaleHandle,
            r is Ok ==> final(self).instances_spec() == old(self).instances_spec().insert(
                instance@,
                old(self).instances_spec()[instance@].with_active(active),
            ),
            r is Err ==> final(self).instances_spec() == old(self).instances_spec(),
            final(self).retired_spec() == old(self).retired_spec(),
            final(self).can_remove_spec() == old(self).can_remove_spec(),
            final(self).same_frame(*old(self)),
    {
        if !self.instances.contains(instance) {
            return Err(ResourceError::StaleHandle);
        }
        let entry = self.instances.get_mut(instance);
        entry.set_active(active);
        Ok(())
    }

    /// Removes a live instance; its handle is retired and never valid again here.
    pub fn remove_instance(&mut self, instance: Handle<Instance<X>>) -> (r: Result<(), ResourceError>)
        requires
            old(self).wf(),
        ensures
            final(self).wf(),
            !old(self).instances_spec().contains_key(instance@) ==> r == Err::<(), ResourceError>(ResourceError::StaleHandle),
            old(self).instances_spec().contains_key(instance@) && !old(self).can_remove_spec() ==> r == Err::<(), ResourceError>(ResourceError::GenerationsExhausted),
            r is Ok <==> old(self).instances_spec().contains_key(instance@) && old(self).can_remove_spec(),
            r is Ok ==> final(self).instances_spec() == old(self).instances_spec().remove(instance@),
            r is Ok ==> final(self).instances_spec().len() == old(self).instances_spec().len() - 1,
            r is Ok ==> final(self).retired_spec() == old(self).retired_spec().insert(instance@),
            r is Err ==> final(self).instances_spec() == old(self).instances_spec(),
            r is Err ==> final(self).retired_spec() == old(self).retired_spec(),
            r is Err ==> final(self).can_remove_spec() == old(self).can_remove_spec(),
            final(self).same_frame(*old(self)),
    {
        if !self.instances.contains(instance) {
            return Err(ResourceError::StaleHandle);
        }
        if !self.instances.removals_left() {
            return Err(ResourceError::GenerationsExhausted);
        }
        let _ = self.instances.remove(instance);
        Ok(())
    }

    /// Stages the transforms of the active instances, in slot order, replacing what the last
    /// rebuild staged. The GPU buffer is filled from them by [`InstanceList::upload_instance_data`].
    pub fn build_instance_data(&mut self)
        requires
            old(self).wf(),
        ensures
            final(self).wf(),
            stages_active(final(self).instances_spec(), final(self).staged_spec()),
            final(self).instances_spec() == old(self).instances_spec(),
            final(self).retired_spec() == old(self).retired_spec(),
            final(self).can_remove_spec() == old(self).can_remove_spec(),
            final(self).buffer_spec() == old(self).buffer_spec(),
            final(self).mesh_spec() == old(self).mesh_spec(),
            final(self).pipeline_spec() == old(self).pipeline_spec(),
    {
        let handles = self.instances.handles();
        let mut staged: Vec<X> = Vec::new();
        let ghost mut ks: Seq<SlotKey> = Seq::empty();
        let ghost m = self.instances@;
        let mut i: usize = 0;
        while i < handles.len()
            invariant
                self.wf(),
                m == self.instances@,
                i <= handles@.len(),
                forall|j: int| 0 <= j < handles@.len() ==> m.contains_key(#[trigger] handles@[j]@),
                forall|k: SlotKey| m.contains_key(k) ==> exists|j: int| 0 <= j < handles@.len() && #[trigger] handles@[j]@ == k,
                forall|a: int, b: int| 0 <= a < b < handles@.len() ==> (#[trigger] handles@[a]@).0 < (#[trigger] handles@[b]@).0,
                ks.len() == staged@.len(),
                forall|a: int| 0 <= a < ks.len() ==> m.contains_key(#[trigger] ks[a]) && m[ks[a]].active_spec(),
                forall|a: int| 0 <= a < ks.len() ==> staged@[a] == m[#[trigger] ks[a]].transform_spec(),
                forall|a: int| 0 <= a < ks.len() ==> exists|j: int| 0 <= j < i && #[trigger] ks[a] == handles@[j]@,
                forall|j: int| 0 <= j < i && (#[trigger] m[handles@[j]@]).active_spec() ==> ks.contains(handles@[j]@),
                forall|a: int, b: int| 0 <= a < b < ks.len() ==> (#[trigger] ks[a]).0 < (#[trigger] ks[b]).0,
                forall|a: int| 0 <= a < ks.len() ==> (#[trigger] ks[a]).0 < (if i < handles@.len() { handles@[i as int]@.0 as int } else { usize::MAX as int + 1 }),
            decreases handles@.len() - i,
        {
            let h = handles[i];
            let instance = self.instances.index(h);
            let ghost ks_before = ks;
            if instance.active() {
                let t: X = *instance.transform();
                staged.push(t);
                proof {
                    ks = ks.push(h@);
                }
            }
            proof {
                assert forall|j: int| 0 <= j < i + 1 && (#[trigger] m[handles@[j]@]).active_spec() implies ks.contains(handles@[j]@) by {
                    if j < i {
                        let a = choose|a: int| 0 <= a < ks_before.len() && ks_before[a] == handles@[j]@;
                        assert(ks[a] == handles@[j]@);
                    } else {
                        assert(ks[ks.len() - 1] == h@);
                    }
                }
                assert forall|a: int| 0 <= a < ks.len() implies (#[trigger] ks[a]).0 < (if i + 1 < handles@.len() { handles@[i + 1]@.0 as int } else { usize::MAX as int + 1 }) by {
                    if i + 1 < handles@.len() {
                        let j = choose|j: int| 0 <= j < i + 1 && ks[a] == handles@[j]@;
                        assert(handles@[j]@.0 < handles@[i + 1]@.0);
                    }
                }
            }
            i = i + 1;
        }
        proof {
            assert forall|k: SlotKey| m.contains_key(k) && #[trigger] m[k].active_spec() implies ks.contains(k) by {
                let j = choose|j: int| 0 <= j < handles@.len() && handles@[j]@ == k;
                assert(m[handles@[j]@].active_spec());
            }
            assert(active_in_slot_order(m, ks));
        }
        self.instance_data = staged;
    }

    /// Hands the packed form of the staged transforms to the GPU buffer; returns the capacity
    /// of the new allocation when the buffer had to grow (see [`ResizableBuffer::update`]).
    pub fn upload_instance_data(&mut self, packed: &[u8]) -> (r: Option<u64>)
        requires
            old(self).wf(),
            packed@.len() <= MAX_DATA_LEN,
        ensures
            final(self).wf(),
            final(self).instances_spec() == old(self).instances_spec(),
            final(self).retired_spec() == old(self).retired_spec(),
            final(self).can_remove_spec() == old(self).can_remove_spec(),
            final(self).staged_spec() == old(self).staged_spec(),
            final(self).mesh_spec() == old(self).mesh_spec(),
            final(self).pipeline_spec() == old(self).pipeline_spec(),
            ResizableBuffer::updates_to(old(self).buffer_spec(), packed@, r, final(self).buffer_spec()),
    {
        self.instance_buffer.update(packed)
    }
}

} // verus!
