use crate::error::ResourceError;
use crate::handle::{Handle, HandleArena, SlotKey};
use crate::instance::{Instance, InstanceRef};
use crate::instance_list::{stages_active, InstanceList};
use crate::mesh::Mesh;
use crate::pipeline::Pipeline;
use crate::resizable_buffer::{ResizableBuffer, MAX_DATA_LEN};
use vstd::prelude::*;

verus! {

/// Removes the one occurrence of `k` from `v`, keeping the order of the rest.
fn remove_key(v: &mut Vec<SlotKey>, k: SlotKey)
    requires
        old(v)@.no_duplicates(),
        old(v)@.contains(k),
    ensures
        final(v)@.no_duplicates(),
        final(v)@.to_set() == old(v)@.to_set().remove(k),
{
    let mut i: usize = 0;
    while i < v.len()
        invariant
            v@ == old(v)@,
            i <= v@.len(),
            forall|j: int| 0 <= j < i ==> v@[j] != k,
            v@.contains(k),
        ensures
            v@ == old(v)@,
            i <= v@.len(),
            forall|j: int| 0 <= j < i ==> v@[j] != k,
            i < v@.len() ==> v@[i as int] == k,
        decreases v@.len() - i,
    {
        if v[i].0 == k.0 && v[i].1 == k.1 {
            break;
        }
        i = i + 1;
    }
    let ghost before = v@;
    proof {
        if i == v@.len() {
            let j = choose|j: int| 0 <= j < v@.len() && v@[j] == k;
            assert(false);
        }
    }
    v.remove(i);
    proof {
        assert(before[i as int] == k);
        assert(v@ == before.remove(i as int));
        assert forall|a: int, b: int| 0 <= a < b < v@.len() implies v@[a] != v@[b] by {
            let a2 = if a < i { a } else { a + 1 };
            let b2 = if b < i { b } else { b + 1 };
            assert(before[a2] != before[b2]);
        }
        assert forall|x: SlotKey| #[trigger] v@.to_set().contains(x) <==> before.to_set().remove(k).contains(x) by {
            if v@.to_set().contains(x) {
                let a = choose|a: int| 0 <= a < v@.len() && v@[a] == x;
                let a2 = if a < i { a } else { a + 1 };
                assert(before[a2] == x);
                assert(a2 != i);
            }
            if before.to_set().remove(k).contains(x) {
                let a2 = choose|a2: int| 0 <= a2 < before.len() && before[a2] == x;
                assert(a2 != i);
                let a = if a2 < i { a2 } else { a2 - 1 };
                assert(v@[a] == x);
            }
        }
        assert(v@.to_set() =~= before.to_set().remove(k));
    }
}

/// The registry of GPU resources: meshes, pipelines, and the instance lists that draw a mesh
/// with a pipeline. Every pipeline and mesh knows which instance lists depend on it, and is
/// only removed once none do.
pub struct Resources<X> {
    pipelines: HandleArena<Pipeline>,
    meshes: HandleArena<Mesh>,
    instance_lists: HandleArena<InstanceList<X>>,
}

impl<X: Copy> Resources<X> {
    /// The live pipelines, by key.
    pub open spec fn pipelines_spec(&self) -> Map<SlotKey, Pipeline> {
        self.pipelines_arena()@
    }

    /// The live meshes, by key.
    pub open spec fn meshes_spec(&self) -> Map<SlotKey, Mesh> {
        self.meshes_arena()@
    }

    /// The live instance lists, by key.
    pub open spec fn lists_spec(&self) -> Map<SlotKey, InstanceList<X>> {
        self.lists_arena()@
    }

    pub closed spec fn pipelines_arena(&self) -> HandleArena<Pipeline> {
        self.pipelines
    }

    pub closed spec fn meshes_arena(&self) -> HandleArena<Mesh> {
        self.meshes
    }

    pub closed spec fn lists_arena(&self) -> HandleArena<InstanceList<X>> {
        self.instance_lists
    }

    /// The keys of the instance lists that draw with pipeline `p`.
    pub open spec fn pipeline_dependents(&self, p: SlotKey) -> Set<SlotKey> {
        self.pipelines_spec()[p].dependents_spec().to_set()
    }

    /// The keys of the instance lists that draw mesh `m`.
    pub open spec fn mesh_dependents(&self, m: SlotKey) -> Set<SlotKey> {
        self.meshes_spec()[m].dependents_spec().to_set()
    }

    /// The keys of the live instance lists that draw with pipeline `p`.
    pub open spec fn lists_with_pipeline(&self, p: SlotKey) -> Set<SlotKey> {
        self.lists_spec().dom().filter(|l: SlotKey| self.lists_spec()[l].pipeline_spec()@ == p)
    }

    /// The keys of the live instance lists that draw mesh `m`.
    pub open spec fn lists_with_mesh(&self, m: SlotKey) -> Set<SlotKey> {
        self.lists_spec().dom().filter(|l: SlotKey| self.lists_spec()[l].mesh_spec()@ == m)
    }

    /// The dependents of a live pipeline are exactly the live instance lists that draw with
    /// it: so it can be removed once, and only once, every such list is gone.
    pub proof fn lemma_pipeline_dependents_are_its_lists(&self, p: SlotKey)
        requires
            self.wf(),
            self.pipelines_spec().contains_key(p),
        ensures
            self.pipeline_dependents(p) == self.lists_with_pipeline(p),
    {
        let deps = self.pipelines@[p].dependents_spec();
        assert forall|l: SlotKey| #[trigger] self.pipeline_dependents(p).contains(l) <==> self.lists_with_pipeline(p).contains(l) by {
            if self.pipeline_dependents(p).contains(l) {
                let i = choose|i: int| 0 <= i < deps.len() && deps[i] == l;
                assert(self.instance_lists@.contains_key(deps[i]));
            }
            if self.lists_with_pipeline(p).contains(l) {
                assert(self.instance_lists@.contains_key(l));
            }
        }
        assert(self.pipeline_dependents(p) =~= self.lists_with_pipeline(p));
    }

    /// The dependents of a live mesh are exactly the live instance lists that draw it: so it
    /// can be removed once, and only once, every such list is gone.
    pub proof fn lemma_mesh_dependents_are_its_lists(&self, m: SlotKey)
        requires
            self.wf(),
            self.meshes_spec().contains_key(m),
        ensures
            self.mesh_dependents(m) == self.lists_with_mesh(m),
    {
        let deps = self.meshes@[m].dependents_spec();
        assert forall|l: SlotKey| #[trigger] self.mesh_dependents(m).contains(l) <==> self.lists_with_mesh(m).contains(l) by {
            if self.mesh_dependents(m).contains(l) {
                let i = choose|i: int| 0 <= i < deps.len() && deps[i] == l;
                assert(self.instance_lists@.contains_key(deps[i]));
            }
            if self.lists_with_mesh(m).contains(l) {
                assert(self.instance_lists@.contains_key(l));
            }
        }
        assert(self.mesh_dependents(m) =~= self.lists_with_mesh(m));
    }

    pub closed spec fn wf(&self) -> bool {
        let lists = self.instance_lists@;
        let pipelines = self.pipelines@;
        let meshes = self.meshes@;
        &&& self.pipelines.wf()
        &&& self.meshes.wf()
        &&& self.instance_lists.wf()
        &&& forall|l: SlotKey| #[trigger] lists.contains_key(l) ==> {
            &&& lists[l].wf()
            &&& pipelines.contains_key(lists[l].pipeline_spec()@)
            &&& meshes.contains_key(lists[l].mesh_spec()@)
            &&& pipelines[lists[l].pipeline_spec()@].dependents_spec().contains(l)
            &&& meshes[lists[l].mesh_spec()@].dependents_spec().contains(l)
        }
        &&& forall|p: SlotKey| #[trigger] pipelines.contains_key(p) ==> {
            &&& pipelines[p].dependents_spec().no_duplicates()
            &&& forall|i: int| 0 <= i < pipelines[p].dependents_spec().len() ==> {
                let l = #[trigger] pipelines[p].dependents_spec()[i];
                lists.contains_key(l) && lists[l].pipeline_spec()@ == p
            }
        }
        &&& forall|m: SlotKey| #[trigger] meshes.contains_key(m) ==> {
            &&& meshes[m].dependents_spec().no_duplicates()
            &&& forall|i: int| 0 <= i < meshes[m].dependents_spec().len() ==> {
                let l = #[trigger] meshes[m].dependents_spec()[i];
                lists.contains_key(l) && lists[l].mesh_spec()@ == m
            }
        }
    }

    pub fn new() -> (r: Self)
        ensures
            r.wf(),
            r.pipelines_spec() == Map::<SlotKey, Pipeline>::empty(),
            r.meshes_spec() == Map::<SlotKey, Mesh>::empty(),
            r.lists_spec() == Map::<SlotKey, InstanceList<X>>::empty(),
    {
        Resources { pipelines: HandleArena::new(), meshes: HandleArena::new(), instance_lists: HandleArena::new() }
    }

    /// The mesh under a live handle.
    pub fn mesh(&self, mesh: Handle<Mesh>) -> (r: &Mesh)
        requires
            self.wf(),
            self.meshes_spec().contains_key(mesh@),
        ensures
            *r == self.meshes_spec()[mesh@],
    {
        self.meshes.index(mesh)
    }

    /// The pipeline under a live handle.
    pub fn pipeline(&self, pipeline: Handle<Pipeline>) -> (r: &Pipeline)
        requires
            self.wf(),
            self.pipelines_spec().contains_key(pipeline@),
        ensures
            *r == self.pipelines_spec()[pipeline@],
    {
        self.pipelines.index(pipeline)
    }

    /// The instance list under a live handle.
    pub fn instance_list(&self, list: Handle<InstanceList<X>>) -> (r: &InstanceList<X>)
        requires
            self.wf(),
            self.lists_spec().contains_key(list@),
        ensures
            *r == self.lists_spec()[list@],
            r.wf(),
    {
        self.instance_lists.index(list)
    }
    /// Registers a compiled pipeline, with no dependents yet.
    pub fn add_pipeline(&mut self) -> (r: Handle<Pipeline>)
        requires
            old(self).wf(),
        ensures
            final(self).wf(),
            !old(self).pipelines_spec().contains_key(r@),
            !old(self).pipelines_arena().retired().contains(r@),
            final(self).pipelines_spec().remove(r@) == old(self).pipelines_spec(),
            final(self).pipelines_spec().contains_key(r@),
            final(self).pipeline_dependents(r@) == Set::<SlotKey>::empty(),
            final(self).pipelines_arena().retired() == old(self).pipelines_arena().retired(),
            final(self).meshes_arena() == old(self).meshes_arena(),
            final(self).lists_arena() == old(self).lists_arena(),
    {
        let ghost before = self.pipelines@;
        let r = self.pipelines.insert(Pipeline::new());
        proof {
            assert(self.pipelines@.remove(r@) =~= before);
            assert(self.pipeline_dependents(r@) =~= Set::<SlotKey>::empty());
        }
        r
    }

    /// Registers a mesh of `index_count` indices uploaded to the GPU, with no dependents yet.
    pub fn add_mesh(&mut self, index_count: u32) -> (r: Handle<Mesh>)
        requires
            old(self).wf(),
        ensures
            final(self).wf(),
            !old(self).meshes_spec().contains_key(r@),
            !old(self).meshes_arena().retired().contains(r@),
            final(self).meshes_spec().remove(r@) == old(self).meshes_spec(),
            final(self).meshes_spec().contains_key(r@),
            final(self).meshes_spec()[r@].index_count_spec() == index_count,
            final(self).mesh_dependents(r@) == Set::<SlotKey>::empty(),
            final(self).meshes_arena().retired() == old(self).meshes_arena().retired(),
            final(self).pipelines_arena() == old(self).pipelines_arena(),
            final(self).lists_arena() == old(self).lists_arena(),
    {
        let ghost before = self.meshes@;
        let r = self.meshes.insert(Mesh::new(index_count));
        proof {
            assert(self.meshes@.remove(r@) =~= before);
            assert(self.mesh_dependents(r@) =~= Set::<SlotKey>::empty());
        }
        r
    }

    /// Creates an empty instance list drawing `mesh` with `pipeline`, and records it as a
    /// dependent of both. Refused when either handle is not live.
    pub fn add_instance_list(&mut self, pipeline: Handle<Pipeline>, mesh: Handle<Mesh>) -> (r: Result<Handle<InstanceList<X>>, ResourceError>)
        requires
            old(self).wf(),
        ensures
            final(self).wf(),
            r is Err <==> !old(self).pipelines_spec().contains_key(pipeline@) || !old(self).meshes_spec().contains_key(mesh@),
            r is Err ==> r->Err_0 == ResourceError::StaleHandle && *final(self) == *old(self),
            r is Ok ==> !old(self).lists_spec().contains_key(r->Ok_0@),
            r is Ok ==> !old(self).lists_arena().retired().contains(r->Ok_0@),
            r is Ok ==> final(self).lists_arena().retired() == old(self).lists_arena().retired(),
            r is Ok ==> final(self).lists_spec().remove(r->Ok_0@) == old(self).lists_spec(),
            r is Ok ==> final(self).lists_spec().contains_key(r->Ok_0@),
            r is Ok ==> final(self).lists_spec()[r->Ok_0@].pipeline_spec() == pipeline,
            r is Ok ==> final(self).lists_spec()[r->Ok_0@].mesh_spec() == mesh,
            r is Ok ==> final(self).lists_spec()[r->Ok_0@].instances_spec() == Map::<SlotKey, Instance<X>>::empty(),
            r is Ok ==> final(self).lists_spec()[r->Ok_0@].staged_spec() == Seq::<X>::empty(),
            r is Ok ==> final(self).lists_spec()[r->Ok_0@].retired_spec() == Set::<SlotKey>::empty(),
            r is Ok ==> final(self).lists_spec()[r->Ok_0@].can_remove_spec(),
            r is Ok ==> final(self).pipeline_dependents(pipeline@) == old(self).pipeline_dependents(pipeline@).insert(r->Ok_0@),
            r is Ok ==> final(self).mesh_dependents(mesh@) == old(self).mesh_dependents(mesh@).insert(r->Ok_0@),
            r is Ok ==> forall|p: SlotKey| p != pipeline@ && #[trigger] old(self).pipelines_spec().contains_key(p) ==> final(self).pipelines_spec()[p] == old(self).pipelines_spec()[p],
            r is Ok ==> forall|m: SlotKey| m != mesh@ && #[trigger] old(self).meshes_spec().contains_key(m) ==> final(self).meshes_spec()[m] == old(self).meshes_spec()[m],
            r is Ok ==> final(self).pipelines_spec().dom() == old(self).pipelines_spec().dom(),
            r is Ok ==> final(self).meshes_spec().dom() == old(self).meshes_spec().dom(),
    {
        if !self.pipelines.contains(pipeline) || !self.meshes.contains(mesh) {
            return Err(ResourceError::StaleHandle);
        }
        let ghost old_lists = self.instance_lists@;
        let ghost old_pipelines = self.pipelines@;
        let ghost old_meshes = self.meshes@;
        let list = InstanceList::new(mesh, pipeline);
        let h = self.instance_lists.insert(list);
        let key = h.index();
        let p = self.pipelines.get_mut(pipeline);
        p.dependents_mut().push(key);
        let m = self.meshes.get_mut(mesh);
        m.dependents_mut().push(key);
        proof {
            let lists = self.instance_lists@;
            let pipelines = self.pipelines@;
            let meshes = self.meshes@;
            assert(lists.remove(key) =~= old_lists);
            assert(pipelines.dom() =~= old_pipelines.dom());
            assert(meshes.dom() =~= old_meshes.dom());
            assert forall|l: SlotKey| #[trigger] lists.contains_key(l) implies {
                &&& lists[l].wf()
                &&& pipelines.contains_key(lists[l].pipeline_spec()@)
                &&& meshes.contains_key(lists[l].mesh_spec()@)
                &&& pipelines[lists[l].pipeline_spec()@].dependents_spec().contains(l)
                &&& meshes[lists[l].mesh_spec()@].dependents_spec().contains(l)
            } by {
                if l != key {
                    assert(old_lists.contains_key(l));
                    let op = old_pipelines[lists[l].pipeline_spec()@].dependents_spec();
                    let om = old_meshes[lists[l].mesh_spec()@].dependents_spec();
                    let j = choose|j: int| 0 <= j < op.len() && op[j] == l;
                    let jm = choose|j: int| 0 <= j < om.len() && om[j] == l;
                    assert(pipelines[lists[l].pipeline_spec()@].dependents_spec()[j] == l);
                    assert(meshes[lists[l].mesh_spec()@].dependents_spec()[jm] == l);
                } else {
                    let np = pipelines[pipeline@].dependents_spec();
                    assert(np[np.len() - 1] == key);
                    let nm = meshes[mesh@].dependents_spec();
                    assert(nm[nm.len() - 1] == key);
                }
            }
            assert forall|q: SlotKey| #[trigger] pipelines.contains_key(q) implies {
                &&& pipelines[q].dependents_spec().no_duplicates()
                &&& forall|i: int| 0 <= i < pipelines[q].dependents_spec().len() ==> {
                    let l = #[trigger] pipelines[q].dependents_spec()[i];
                    lists.contains_key(l) && lists[l].pipeline_spec()@ == q
                }
            } by {
                let od = old_pipelines[q].dependents_spec();
                assert(old_pipelines.contains_key(q));
                assert forall|i: int| 0 <= i < od.len() implies #[trigger] od[i] != key by {
                    assert(old_lists.contains_key(od[i]));
                }
                if q == pipeline@ {
                    assert(pipelines[q].dependents_spec() =~= od.push(key));
                }
            }
            assert forall|q: SlotKey| #[trigger] meshes.contains_key(q) implies {
                &&& meshes[q].dependents_spec().no_duplicates()
                &&& forall|i: int| 0 <= i < meshes[q].dependents_spec().len() ==> {
                    let l = #[trigger] meshes[q].dependents_spec()[i];
                    lists.contains_key(l) && lists[l].mesh_spec()@ == q
                }
            } by {
                let od = old_meshes[q].dependents_spec();
                assert(old_meshes.contains_key(q));
                assert forall|i: int| 0 <= i < od.len() implies #[trigger] od[i] != key by {
                    assert(old_lists.contains_key(od[i]));
                }
                if q == mesh@ {
                    assert(meshes[q].dependents_spec() =~= od.push(key));
                }
            }
            assert(pipelines[pipeline@].dependents_spec() =~= old_pipelines[pipeline@].dependents_spec().push(key));
            old_pipelines[pipeline@].dependents_spec().lemma_push_to_set_commute(key);
            assert(meshes[mesh@].dependents_spec() =~= old_meshes[mesh@].dependents_spec().push(key));
            old_meshes[mesh@].dependents_spec().lemma_push_to_set_commute(key);
        }
        Ok(h)
    }
    /// Removes a live instance list and its entries among its pipeline's and its mesh's
    /// dependents. Its handle is retired for good.
    pub fn remove_instance_list(&mut self, list: Handle<InstanceList<X>>) -> (r: Result<(), ResourceError>)
        requires
            old(self).wf(),
        ensures
            final(self).wf(),
            !old(self).lists_spec().contains_key(list@) ==> r == Err::<(), ResourceError>(ResourceError::StaleHandle),
            old(self).lists_spec().contains_key(list@) && !old(self).lists_arena().can_remove() ==> r == Err::<(), ResourceError>(ResourceError::GenerationsExhausted),
            r is Ok <==> old(self).lists_spec().contains_key(list@) && old(self).lists_arena().can_remove(),
            r is Err ==> *final(self) == *old(self),
            r is Ok ==> final(self).lists_spec() == old(self).lists_spec().remove(list@),
            r is Ok ==> final(self).lists_arena().retired() == old(self).lists_arena().retired().insert(list@),
            r is Ok ==> final(self).pipeline_dependents(old(self).lists_spec()[list@].pipeline_spec()@) == old(self).pipeline_dependents(old(self).lists_spec()[list@].pipeline_spec()@).remove(list@),
            r is Ok ==> final(self).mesh_dependents(old(self).lists_spec()[list@].mesh_spec()@) == old(self).mesh_dependents(old(self).lists_spec()[list@].mesh_spec()@).remove(list@),
            r is Ok ==> forall|p: SlotKey| p != old(self).lists_spec()[list@].pipeline_spec()@ && #[trigger] old(self).pipelines_spec().contains_key(p) ==> final(self).pipelines_spec()[p] == old(self).pipelines_spec()[p],
            r is Ok ==> forall|m: SlotKey| m != old(self).lists_spec()[list@].mesh_spec()@ && #[trigger] old(self).meshes_spec().contains_key(m) ==> final(self).meshes_spec()[m] == old(self).meshes_spec()[m],
            r is Ok ==> final(self).pipelines_spec().dom() == old(self).pipelines_spec().dom(),
            r is Ok ==> final(self).meshes_spec().dom() == old(self).meshes_spec().dom(),
    {
        if !self.instance_lists.contains(list) {
            return Err(ResourceError::StaleHandle);
        }
        if !self.instance_lists.removals_left() {
            return Err(ResourceError::GenerationsExhausted);
        }
        let ghost old_lists = self.instance_lists@;
        let ghost old_pipelines = self.pipelines@;
        let ghost old_meshes = self.meshes@;
        let entry = self.instance_lists.index(list);
        let pipeline = entry.pipeline();
        let mesh = entry.mesh();
        let key = list.index();
        proof {
            assert(old_lists.contains_key(key));
        }
        remove_key(self.pipelines.get_mut(pipeline).dependents_mut(), key);
        remove_key(self.meshes.get_mut(mesh).dependents_mut(), key);
        let _ = self.instance_lists.remove(list);
        proof {
            let lists = self.instance_lists@;
            let pipelines = self.pipelines@;
            let meshes = self.meshes@;
            assert(pipelines.dom() =~= old_pipelines.dom());
            assert(meshes.dom() =~= old_meshes.dom());
            assert forall|l: SlotKey| #[trigger] lists.contains_key(l) implies {
                &&& lists[l].wf()
                &&& pipelines.contains_key(lists[l].pipeline_spec()@)
                &&& meshes.contains_key(lists[l].mesh_spec()@)
                &&& pipelines[lists[l].pipeline_spec()@].dependents_spec().contains(l)
                &&& meshes[lists[l].mesh_spec()@].dependents_spec().contains(l)
            } by {
                assert(old_lists.contains_key(l));
                assert(l != key);
                let op = old_pipelines[lists[l].pipeline_spec()@].dependents_spec();
                let om = old_meshes[lists[l].mesh_spec()@].dependents_spec();
                assert(op.to_set().contains(l));
                assert(om.to_set().contains(l));
                assert(pipelines[lists[l].pipeline_spec()@].dependents_spec().to_set().contains(l));
                assert(meshes[lists[l].mesh_spec()@].dependents_spec().to_set().contains(l));
            }
            assert forall|q: SlotKey| #[trigger] pipelines.contains_key(q) implies {
                &&& pipelines[q].dependents_spec().no_duplicates()
                &&& forall|i: int| 0 <= i < pipelines[q].dependents_spec().len() ==> {
                    let l = #[trigger] pipelines[q].dependents_spec()[i];
                    lists.contains_key(l) && lists[l].pipeline_spec()@ == q
                }
            } by {
                assert(old_pipelines.contains_key(q));
                let nd = pipelines[q].dependents_spec();
                let od = old_pipelines[q].dependents_spec();
                assert forall|i: int| 0 <= i < nd.len() implies {
                    let l = #[trigger] nd[i];
                    lists.contains_key(l) && lists[l].pipeline_spec()@ == q
                } by {
                    let l = nd[i];
                    if q == pipeline@ {
                        assert(nd.to_set().contains(l));
                        assert(od.to_set().contains(l));
                        assert(l != key);
                    } else {
                        assert(nd == od);
                    }
                    let j = choose|j: int| 0 <= j < od.len() && od[j] == l;
                    assert(old_lists.contains_key(od[j]));
                    assert(l != key);
                }
            }
            assert forall|q: SlotKey| #[trigger] meshes.contains_key(q) implies {
                &&& meshes[q].dependents_spec().no_duplicates()
                &&& forall|i: int| 0 <= i < meshes[q].dependents_spec().len() ==> {
                    let l = #[trigger] meshes[q].dependents_spec()[i];
                    lists.contains_key(l) && lists[l].mesh_spec()@ == q
                }
            } by {
                assert(old_meshes.contains_key(q));
                let nd = meshes[q].dependents_spec();
                let od = old_meshes[q].dependents_spec();
                assert forall|i: int| 0 <= i < nd.len() implies {
                    let l = #[trigger] nd[i];
                    lists.contains_key(l) && lists[l].mesh_spec()@ == q
                } by {
                    let l = nd[i];
                    if q == mesh@ {
                        assert(nd.to_set().contains(l));
                        assert(od.to_set().contains(l));
                        assert(l != key);
                    } else {
                        assert(nd == od);
                    }
                    let j = choose|j: int| 0 <= j < od.len() && od[j] == l;
                    assert(old_lists.contains_key(od[j]));
                    assert(l != key);
                }
            }
        }
        Ok(())
    }

    /// Removes a live pipeline that no instance list draws with. Refused with
    /// [`ResourceError::ResourceInUse`] while it has dependents.
    pub fn remove_pipeline(&mut self, pipeline: Handle<Pipeline>) -> (r: Result<(), ResourceError>)
        requires
            old(self).wf(),
        ensures
            final(self).wf(),
            !old(self).pipelines_spec().contains_key(pipeline@) ==> r == Err::<(), ResourceError>(ResourceError::StaleHandle),
            old(self).pipelines_spec().contains_key(pipeline@) && old(self).pipeline_dependents(pipeline@) != Set::<SlotKey>::empty() ==> r == Err::<(), ResourceError>(ResourceError::ResourceInUse),
            old(self).pipelines_spec().contains_key(pipeline@) && old(self).pipeline_dependents(pipeline@) == Set::<SlotKey>::empty() && !old(self).pipelines_arena().can_remove() ==> r == Err::<(), ResourceError>(ResourceError::GenerationsExhausted),
            r is Ok <==> old(self).pipelines_spec().contains_key(pipeline@) && old(self).pipeline_dependents(pipeline@) == Set::<SlotKey>::empty() && old(self).pipelines_arena().can_remove(),
            r is Err ==> *final(self) == *old(self),
            r is Ok ==> final(self).pipelines_spec() == old(self).pipelines_spec().remove(pipeline@),
            r is Ok ==> final(self).pipelines_arena().retired() == old(self).pipelines_arena().retired().insert(pipeline@),
            r is Ok ==> final(self).meshes_arena() == old(self).meshes_arena(),
            r is Ok ==> final(self).lists_arena() == old(self).lists_arena(),
    {
        if !self.pipelines.contains(pipeline) {
            return Err(ResourceError::StaleHandle);
        }
        let ghost deps = self.pipelines@[pipeline@].dependents_spec();
        if self.pipelines.index(pipeline).dependents().len() > 0 {
            proof {
                assert(deps.to_set().contains(deps[0]));
            }
            return Err(ResourceError::ResourceInUse);
        }
        proof {
            assert(deps.to_set() =~= Set::<SlotKey>::empty());
        }
        if !self.pipelines.removals_left() {
            return Err(ResourceError::GenerationsExhausted);
        }
        let ghost old_lists = self.instance_lists@;
        let ghost old_pipelines = self.pipelines@;
        let _ = self.pipelines.remove(pipeline);
        proof {
            assert forall|l: SlotKey| #[trigger] old_lists.contains_key(l) implies old_lists[l].pipeline_spec()@ != pipeline@ by {
                if old_lists[l].pipeline_spec()@ == pipeline@ {
                    assert(old_pipelines[pipeline@].dependents_spec().contains(l));
                }
            }
        }
        Ok(())
    }

    /// Removes a live mesh that no instance list draws. Refused with
    /// [`ResourceError::ResourceInUse`] while it has dependents.
    pub fn remove_mesh(&mut self, mesh: Handle<Mesh>) -> (r: Result<(), ResourceError>)
        requires
            old(self).wf(),
        ensures
            final(self).wf(),
            !old(self).meshes_spec().contains_key(mesh@) ==> r == Err::<(), ResourceError>(ResourceError::StaleHandle),
            old(self).meshes_spec().contains_key(mesh@) && old(self).mesh_dependents(mesh@) != Set::<SlotKey>::empty() ==> r == Err::<(), ResourceError>(ResourceError::ResourceInUse),
            old(self).meshes_spec().contains_key(mesh@) && old(self).mesh_dependents(mesh@) == Set::<SlotKey>::empty() && !old(self).meshes_arena().can_remove() ==> r == Err::<(), ResourceError>(ResourceError::GenerationsExhausted),
            r is Ok <==> old(self).meshes_spec().contains_key(mesh@) && old(self).mesh_dependents(mesh@) == Set::<SlotKey>::empty() && old(self).meshes_arena().can_remove(),
            r is Err ==> *final(self) == *old(self),
            r is Ok ==> final(self).meshes_spec() == old(self).meshes_spec().remove(mesh@),
            r is Ok ==> final(self).meshes_arena().retired() == old(self).meshes_arena().retired().insert(mesh@),
            r is Ok ==> final(self).pipelines_arena() == old(self).pipelines_arena(),
            r is Ok ==> final(self).lists_arena() == old(self).lists_arena(),
    {
        if !self.meshes.contains(mesh) {
            return Err(ResourceError::StaleHandle);
        }
        let ghost deps = self.meshes@[mesh@].dependents_spec();
        if self.meshes.index(mesh).dependents().len() > 0 {
            proof {
                assert(deps.to_set().contains(deps[0]));
            }
            return Err(ResourceError::ResourceInUse);
        }
        proof {
            assert(deps.to_set() =~= Set::<SlotKey>::empty());
        }
        if !self.meshes.removals_left() {
            return Err(ResourceError::GenerationsExhausted);
        }
        let ghost old_lists = self.instance_lists@;
        let ghost old_meshes = self.meshes@;
        let _ = self.meshes.remove(mesh);
        proof {
            assert forall|l: SlotKey| #[trigger] old_lists.contains_key(l) implies old_lists[l].mesh_spec()@ != mesh@ by {
                if old_lists[l].mesh_spec()@ == mesh@ {
                    assert(old_meshes[mesh@].dependents_spec().contains(l));
                }
            }
        }
        Ok(())
    }
    /// `self` differs from `before` in list `l` alone, which still draws the same mesh with the
    /// same pipeline.
    pub open spec fn only_list_changed(&self, before: Self, l: SlotKey) -> bool {
        &&& self.lists_spec().dom() == before.lists_spec().dom()
        &&& forall|k: SlotKey| k != l && #[trigger] before.lists_spec().contains_key(k) ==> self.lists_spec()[k] == before.lists_spec()[k]
        &&& before.lists_spec().contains_key(l) ==> self.lists_spec()[l].mesh_spec() == before.lists_spec()[l].mesh_spec()
        &&& before.lists_spec().contains_key(l) ==> self.lists_spec()[l].pipeline_spec() == before.lists_spec()[l].pipeline_spec()
        &&& self.lists_arena().retired() == before.lists_arena().retired()
        &&& self.lists_arena().can_remove() == before.lists_arena().can_remove()
        &&& self.pipelines_arena() == before.pipelines_arena()
        &&& self.meshes_arena() == before.meshes_arena()
    }

    proof fn lemma_list_change_keeps_wf(&self, before: Self, l: SlotKey)
        requires
            before.wf(),
            self.pipelines_arena() == before.pipelines_arena(),
            self.meshes_arena() == before.meshes_arena(),
            self.instance_lists.wf(),
            self.instance_lists@ == before.instance_lists@.insert(l, self.instance_lists@[l]),
            before.instance_lists@.contains_key(l),
            self.instance_lists@[l].wf(),
            self.instance_lists@[l].mesh_spec() == before.instance_lists@[l].mesh_spec(),
            self.instance_lists@[l].pipeline_spec() == before.instance_lists@[l].pipeline_spec(),
        ensures
            self.wf(),
            self.lists_spec().dom() == before.lists_spec().dom(),
    {
        assert(self.instance_lists@.dom() =~= before.instance_lists@.dom());
    }

    /// Adds an active instance with `transform` to a live list.
    pub fn add_instance(&mut self, list: Handle<InstanceList<X>>, transform: X) -> (r: Result<InstanceRef<X>, ResourceError>)
        requires
            old(self).wf(),
        ensures
            final(self).wf(),
            r is Err <==> !old(self).lists_spec().contains_key(list@),
            r is Err ==> r->Err_0 == ResourceError::StaleHandle && *final(self) == *old(self),
            final(self).only_list_changed(*old(self), list@),
            r is Ok ==> r->Ok_0.list_spec() == list,
            r is Ok ==> !old(self).lists_spec()[list@].instances_spec().contains_key(r->Ok_0.instance_spec()@),
            r is Ok ==> !old(self).lists_spec()[list@].retired_spec().contains(r->Ok_0.instance_spec()@),
            r is Ok ==> final(self).lists_spec()[list@].instances_spec() == old(self).lists_spec()[list@].instances_spec().insert(
                r->Ok_0.instance_spec()@,
                Instance::new_spec(transform),
            ),
            r is Ok ==> final(self).lists_spec()[list@].instances_spec().len() == old(self).lists_spec()[list@].instances_spec().len() + 1,
            r is Ok ==> final(self).lists_spec()[list@].retired_spec() == old(self).lists_spec()[list@].retired_spec(),
            r is Ok ==> final(self).lists_spec()[list@].can_remove_spec() == old(self).lists_spec()[list@].can_remove_spec(),
            r is Ok ==> final(self).lists_spec()[list@].staged_spec() == old(self).lists_spec()[list@].staged_spec(),
    {
        if !self.instance_lists.contains(list) {
            return Err(ResourceError::StaleHandle);
        }
        let ghost before = *self;
        let entry = self.instance_lists.get_mut(list);
        let instance = entry.add_instance(transform);
        proof {
            self.lemma_list_change_keeps_wf(before, list@);
        }
        Ok(InstanceRef::new(list, instance))
    }

    /// Gives the addressed instance a new transform.
    pub fn update_instance(&mut self, instance: InstanceRef<X>, transform: X) -> (r: Result<(), ResourceError>)
        requires
            old(self).wf(),
        ensures
            final(self).wf(),
            r is Err <==> !old(self).lists_spec().contains_key(instance.list_spec()@)
                || !old(self).lists_spec()[instance.list_spec()@].instances_spec().contains_key(instance.instance_spec()@),
            r is Err ==> r->Err_0 == ResourceError::StaleHandle && *final(self) == *old(self),
            final(self).only_list_changed(*old(self), instance.list_spec()@),
            r is Ok ==> final(self).lists_spec()[instance.list_spec()@].instances_spec() == old(self).lists_spec()[instance.list_spec()@].instances_spec().insert(
                instance.instance_spec()@,
                old(self).lists_spec()[instance.list_spec()@].instances_spec()[instance.instance_spec()@].with_transform(transform),
            ),
            r is Ok ==> final(self).lists_spec()[instance.list_spec()@].retired_spec() == old(self).lists_spec()[instance.list_spec()@].retired_spec(),
            r is Ok ==> final(self).lists_spec()[instance.list_spec()@].can_remove_spec() == old(self).lists_spec()[instance.list_spec()@].can_remove_spec(),
            r is Ok ==> final(self).lists_spec()[instance.list_spec()@].staged_spec() == old(self).lists_spec()[instance.list_spec()@].staged_spec(),
    {
        let list = instance.list();
        if !self.instance_lists.contains(list) {
            return Err(ResourceError::StaleHandle);
        }
        if !self.instance_lists.index(list).contains_instance(instance.instance()) {
            return Err(ResourceError::StaleHandle);
        }
        let ghost before = *self;
        let entry = self.instance_lists.get_mut(list);
        let _ = entry.update_instance(instance.instance(), transform);
        proof {
            self.lemma_list_change_keeps_wf(before, list@);
        }
        Ok(())
    }

    /// Shows or hides the addressed instance.
    pub fn set_instance_active(&mut self, instance: InstanceRef<X>, active: bool) -> (r: Result<(), ResourceError>)
        requires
            old(self).wf(),
        ensures
            final(self).wf(),
            r is Err <==> !old(self).lists_spec().contains_key(instance.list_spec()@)
                || !old(self).lists_spec()[instance.list_spec()@].instances_spec().contains_key(instance.instance_spec()@),
            r is Err ==> r->Err_0 == ResourceError::StaleHandle && *final(self) == *old(self),
            final(self).only_list_changed(*old(self), instance.list_spec()@),
            r is Ok ==> final(self).lists_spec()[instance.list_spec()@].instances_spec() == old(self).lists_spec()[instance.list_spec()@].instances_spec().insert(
                instance.instance_spec()@,
                old(self).lists_spec()[instance.list_spec()@].instances_spec()[instance.instance_spec()@].with_active(active),
            ),
            r is Ok ==> final(self).lists_spec()[instance.list_spec()@].retired_spec() == old(self).lists_spec()[instance.list_spec()@].retired_spec(),
            r is Ok ==> final(self).lists_spec()[instance.list_spec()@].can_remove_spec() == old(self).lists_spec()[instance.list_spec()@].can_remove_spec(),
            r is Ok ==> final(self).lists_spec()[instance.list_spec()@].staged_spec() == old(self).lists_spec()[instance.list_spec()@].staged_spec(),
    {
        let list = instance.list();
        if !self.instance_lists.contains(list) {
            return Err(ResourceError::StaleHandle);
        }
        if !self.instance_lists.index(list).contains_instance(instance.instance()) {
            return Err(ResourceError::StaleHandle);
        }
        let ghost before = *self;
        let entry = self.instance_lists.get_mut(list);
        let _ = entry.set_instance_active(instance.instance(), active);
        proof {
            self.lemma_list_change_keeps_wf(before, list@);
        }
        Ok(())
    }

    /// Removes the addressed instance from its list; its handle is retired there for good.
    pub fn remove_instance(&mut self, instance: InstanceRef<X>) -> (r: Result<(), ResourceError>)
        requires
            old(self).wf(),
        ensures
            final(self).wf(),
            !old(self).lists_spec().contains_key(instance.list_spec()@)
                || !old(self).lists_spec()[instance.list_spec()@].instances_spec().contains_key(instance.instance_spec()@)
                ==> r == Err::<(), ResourceError>(ResourceError::StaleHandle),
            r is Ok <==> old(self).lists_spec().contains_key(instance.list_spec()@)
                && old(self).lists_spec()[instance.list_spec()@].instances_spec().contains_key(instance.instance_spec()@)
                && old(self).lists_spec()[instance.list_spec()@].can_remove_spec(),
            r is Err ==> r->Err_0 == ResourceError::StaleHandle || r->Err_0 == ResourceError::GenerationsExhausted,
            r is Err ==> *final(self) == *old(self),
            final(self).only_list_changed(*old(self), instance.list_spec()@),
            r is Ok ==> final(self).lists_spec()[instance.list_spec()@].instances_spec() == old(self).lists_spec()[instance.list_spec()@].instances_spec().remove(instance.instance_spec()@),
            r is Ok ==> final(self).lists_spec()[instance.list_spec()@].instances_spec().len() == old(self).lists_spec()[instance.list_spec()@].instances_spec().len() - 1,
            r is Ok ==> final(self).lists_spec()[instance.list_spec()@].retired_spec() == old(self).lists_spec()[instance.list_spec()@].retired_spec().insert(instance.instance_spec()@),
            r is Ok ==> final(self).lists_spec()[instance.list_spec()@].staged_spec() == old(self).lists_spec()[instance.list_spec()@].staged_spec(),
    {
        let list = instance.list();
        if !self.instance_lists.contains(list) {
            return Err(ResourceError::StaleHandle);
        }
        if !self.instance_lists.index(list).contains_instance(instance.instance()) {
            return Err(ResourceError::StaleHandle);
        }
        if !self.instance_lists.index(list).instance_removals_left() {
            return Err(ResourceError::GenerationsExhausted);
        }
        let ghost before = *self;
        let entry = self.instance_lists.get_mut(list);
        let _ = entry.remove_instance(instance.instance());
        proof {
            self.lemma_list_change_keeps_wf(before, list@);
        }
        Ok(())
    }

    /// Restages a live list from its active instances (see [`InstanceList::build_instance_data`]).
    pub fn build_instance_data(&mut self, list: Handle<InstanceList<X>>) -> (r: Result<(), ResourceError>)
        requires
            old(self).wf(),
        ensures
            final(self).wf(),
            r is Err <==> !old(self).lists_spec().contains_key(list@),
            r is Err ==> r->Err_0 == ResourceError::StaleHandle && *final(self) == *old(self),
            final(self).only_list_changed(*old(self), list@),
            r is Ok ==> stages_active(final(self).lists_spec()[list@].instances_spec(), final(self).lists_spec()[list@].staged_spec()),
            r is Ok ==> final(self).lists_spec()[list@].instances_spec() == old(self).lists_spec()[list@].instances_spec(),
            r is Ok ==> final(self).lists_spec()[list@].retired_spec() == old(self).lists_spec()[list@].retired_spec(),
            r is Ok ==> final(self).lists_spec()[list@].buffer_spec() == old(self).lists_spec()[list@].buffer_spec(),
    {
        if !self.instance_lists.contains(list) {
            return Err(ResourceError::StaleHandle);
        }
        let ghost before = *self;
        let entry = self.instance_lists.get_mut(list);
        entry.build_instance_data();
        proof {
            self.lemma_list_change_keeps_wf(before, list@);
        }
        Ok(())
    }

    /// Hands a live list's packed staged data to its GPU buffer (see
    /// [`InstanceList::upload_instance_data`]).
    pub fn upload_instance_data(&mut self, list: Handle<InstanceList<X>>, packed: &[u8]) -> (r: Result<Option<u64>, ResourceError>)
        requires
            old(self).wf(),
            packed@.len() <= MAX_DATA_LEN,
        ensures
            final(self).wf(),
            r is Err <==> !old(self).lists_spec().contains_key(list@),
            r is Err ==> r->Err_0 == ResourceError::StaleHandle && *final(self) == *old(self),
            final(self).only_list_changed(*old(self), list@),
            r is Ok ==> ResizableBuffer::updates_to(
                old(self).lists_spec()[list@].buffer_spec(),
                packed@,
                r->Ok_0,
                final(self).lists_spec()[list@].buffer_spec(),
            ),
            r is Ok ==> final(self).lists_spec()[list@].instances_spec() == old(self).lists_spec()[list@].instances_spec(),
            r is Ok ==> final(self).lists_spec()[list@].retired_spec() == old(self).lists_spec()[list@].retired_spec(),
            r is Ok ==> final(self).lists_spec()[list@].staged_spec() == old(self).lists_spec()[list@].staged_spec(),
    {
        if !self.instance_lists.contains(list) {
            return Err(ResourceError::StaleHandle);
        }
        let ghost before = *self;
        let entry = self.instance_lists.get_mut(list);
        let grown = entry.upload_instance_data(packed);
        proof {
            self.lemma_list_change_keeps_wf(before, list@);
        }
        Ok(grown)
    }

    /// The handles of every live instance list, in arena order.
    pub fn iterate_instance_lists(&self) -> (r: Vec<Handle<InstanceList<X>>>)
        requires
            self.wf(),
        ensures
            forall|i: int| 0 <= i < r@.len() ==> self.lists_spec().contains_key(#[trigger] r@[i]@),
            forall|k: SlotKey| self.lists_spec().contains_key(k) ==> exists|i: int| 0 <= i < r@.len() && #[trigger] r@[i]@ == k,
            forall|i: int, j: int| 0 <= i < j < r@.len() ==> (#[trigger] r@[i]@).0 < (#[trigger] r@[j]@).0,
    {
        self.instance_lists.handles()
    }

    /// The handles of every live pipeline, in arena order.
    pub fn iterate_pipelines(&self) -> (r: Vec<Handle<Pipeline>>)
        requires
            self.wf(),
        ensures
            forall|i: int| 0 <= i < r@.len() ==> self.pipelines_spec().contains_key(#[trigger] r@[i]@),
            forall|k: SlotKey| self.pipelines_spec().contains_key(k) ==> exists|i: int| 0 <= i < r@.len() && #[trigger] r@[i]@ == k,
            forall|i: int, j: int| 0 <= i < j < r@.len() ==> (#[trigger] r@[i]@).0 < (#[trigger] r@[j]@).0,
    {
        self.pipelines.handles()
    }

    /// The handles of the instance lists that draw with a live pipeline, each once, so that
    /// draws can be grouped by pipeline.
    pub fn iterate_pipeline_dependents(&self, pipeline: Handle<Pipeline>) -> (r: Vec<Handle<InstanceList<X>>>)
        requires
            self.wf(),
            self.pipelines_spec().contains_key(pipeline@),
        ensures
            r@.len() == self.pipelines_spec()[pipeline@].dependents_spec().len(),
            forall|i: int| 0 <= i < r@.len() ==> #[trigger] r@[i]@ == self.pipelines_spec()[pipeline@].dependents_spec()[i],
            forall|i: int, j: int| 0 <= i < j < r@.len() ==> (#[trigger] r@[i])@ != (#[trigger] r@[j])@,
            forall|l: SlotKey| #[trigger] self.lists_with_pipeline(pipeline@).contains(l) <==> exists|i: int| 0 <= i < r@.len() && r@[i]@ == l,
            forall|i: int| 0 <= i < r@.len() ==> self.lists_spec().contains_key(#[trigger] r@[i]@)
                && self.lists_spec()[r@[i]@].pipeline_spec()@ == pipeline@,
    {
        let keys = self.pipelines.index(pipeline).dependents();
        let mut r: Vec<Handle<InstanceList<X>>> = Vec::new();
        let mut i: usize = 0;
        while i < keys.len()
            invariant
                i <= keys@.len(),
                r@.len() == i,
                forall|j: int| 0 <= j < i ==> #[trigger] r@[j]@ == keys@[j],
            decreases keys@.len() - i,
        {
            r.push(Handle::new(keys[i]));
            i = i + 1;
        }
        proof {
            assert(self.pipelines@.contains_key(pipeline@));
            let deps = self.pipelines@[pipeline@].dependents_spec();
            self.lemma_pipeline_dependents_are_its_lists(pipeline@);
            assert forall|l: SlotKey| #[trigger] self.lists_with_pipeline(pipeline@).contains(l) implies exists|i: int| 0 <= i < r@.len() && r@[i]@ == l by {
                assert(deps.to_set().contains(l));
                let i = choose|i: int| 0 <= i < deps.len() && deps[i] == l;
                assert(r@[i]@ == l);
            }
            assert forall|l: SlotKey| (exists|i: int| 0 <= i < r@.len() && r@[i]@ == l) implies #[trigger] self.lists_with_pipeline(pipeline@).contains(l) by {
                let i = choose|i: int| 0 <= i < r@.len() && r@[i]@ == l;
                assert(deps.to_set().contains(deps[i]));
            }
        }
        r
    }

    /// A live pipeline that no live instance list draws with has no dependents, so
    /// [`Resources::remove_pipeline`] removes it (given room in the generation counter).
    pub proof fn lemma_unused_pipeline_is_removable(&self, p: SlotKey)
        requires
            self.wf(),
            self.pipelines_spec().contains_key(p),
            forall|l: SlotKey| #[trigger] self.lists_spec().contains_key(l) ==> self.lists_spec()[l].pipeline_spec()@ != p,
        ensures
            self.pipeline_dependents(p) == Set::<SlotKey>::empty(),
    {
        self.lemma_pipeline_dependents_are_its_lists(p);
        assert(self.lists_with_pipeline(p) =~= Set::<SlotKey>::empty());
    }

    /// A live mesh that no live instance list draws has no dependents, so
    /// [`Resources::remove_mesh`] removes it (given room in the generation counter).
    pub proof fn lemma_unused_mesh_is_removable(&self, m: SlotKey)
        requires
            self.wf(),
            self.meshes_spec().contains_key(m),
            forall|l: SlotKey| #[trigger] self.lists_spec().contains_key(l) ==> self.lists_spec()[l].mesh_spec()@ != m,
        ensures
            self.mesh_dependents(m) == Set::<SlotKey>::empty(),
    {
        self.lemma_mesh_dependents_are_its_lists(m);
        assert(self.lists_with_mesh(m) =~= Set::<SlotKey>::empty());
    }
}

} // verus!
