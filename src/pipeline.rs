use crate::handle::SlotKey;
use vstd::prelude::*;

verus! {

/// A compiled render pipeline, known by the keys of the instance lists that draw with it.
pub struct Pipeline {
    dependents: Vec<SlotKey>,
}

impl Pipeline {
    /// The keys of the instance lists that draw with this pipeline.
    pub closed spec fn dependents_spec(&self) -> Seq<SlotKey> {
        self.dependents@
    }

    pub fn dependents(&self) -> (r: &Vec<SlotKey>)
        ensures
            r@ == self.dependents_spec(),
    {
        &self.dependents
    }

    /// A pipeline that nothing draws with yet.
    pub fn new() -> (r: Pipeline)
        ensures
            r.dependents_spec() == Seq::<SlotKey>::empty(),
    {
        Pipeline { dependents: Vec::new() }
    }

    pub(crate) fn dependents_mut(&mut self) -> (r: &mut Vec<SlotKey>)
        ensures
            r@ == old(self).dependents_spec(),
            final(self).dependents_spec() == final(r)@,
    {
        &mut self.dependents
    }
}

} // verus!
