use crate::handle::SlotKey;
use vstd::prelude::*;

verus! {

/// A mesh whose vertex and index data live on the GPU: the number of indices to draw, and the
/// keys of the instance lists that draw it.
pub struct Mesh {
    index_count: u32,
    dependents: Vec<SlotKey>,
}

impl Mesh {
    pub closed spec fn index_count_spec(&self) -> u32 {
        self.index_count
    }

    /// The keys of the instance lists that draw this mesh.
    pub closed spec fn dependents_spec(&self) -> Seq<SlotKey> {
        self.dependents@
    }

    pub fn index_count(&self) -> (r: u32)
        ensures
            r == self.index_count_spec(),
    {
        self.index_count
    }

    pub fn dependents(&self) -> (r: &Vec<SlotKey>)
        ensures
            r@ == self.dependents_spec(),
    {
        &self.dependents
    }

    /// A mesh of `index_count` indices that nothing draws yet.
    pub fn new(index_count: u32) -> (r: Mesh)
        ensures
            r.index_count_spec() == index_count,
            r.dependents_spec() == Seq::<SlotKey>::empty(),
    {
        Mesh { index_count, dependents: Vec::new() }
    }

    pub(crate) fn dependents_mut(&mut self) -> (r: &mut Vec<SlotKey>)
        ensures
            r@ == old(self).dependents_spec(),
            final(self).dependents_spec() == final(r)@,
            final(self).index_count_spec() == old(self).index_count_spec(),
    {
        &mut self.dependents
    }
}

} // verus!
