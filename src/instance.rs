use crate::handle::Handle;
use crate::instance_list::InstanceList;
use vstd::prelude::*;

verus! {

/// A placed occurrence of a mesh: a transform, and whether it is drawn.
pub struct Instance<X> {
    pub transform: X,
    pub active: bool,
}

impl<X> Instance<X> {
    pub open spec fn transform_spec(&self) -> X {
        self.transform
    }

    pub open spec fn active_spec(&self) -> bool {
        self.active
    }

    pub open spec fn new_spec(transform: X) -> Instance<X> {
        Instance { transform, active: true }
    }

    pub open spec fn with_transform(self, transform: X) -> Instance<X> {
        Instance { transform, ..self }
    }

    pub open spec fn with_active(self, active: bool) -> Instance<X> {
        Instance { active, ..self }
    }

    pub fn active(&self) -> (r: bool)
        ensures
            r == self.active_spec(),
    {
        self.active
    }

    pub fn transform(&self) -> (r: &X)
        ensures
            *r == self.transform_spec(),
    {
        &self.transform
    }

    /// A new instance is drawn until it is made inactive.
    pub fn new(transform: X) -> (r: Instance<X>)
        ensures
            r == Instance::new_spec(transform),
    {
        Instance { transform, active: true }
    }

    pub fn set_transform(&mut self, transform: X)
        ensures
            *final(self) == old(self).with_transform(transform),
    {
        self.transform = transform;
    }

    pub fn set_active(&mut self, active: bool)
        ensures
            *final(self) == old(self).with_active(active),
    {
        self.active = active;
    }
}

/// The address of an instance: the list that owns it and its handle within that list.
pub struct InstanceRef<X> {
    list: Handle<InstanceList<X>>,
    instance: Handle<Instance<X>>,
}

impl<X> InstanceRef<X> {
    pub closed spec fn list_spec(&self) -> Handle<InstanceList<X>> {
        self.list
    }

    pub closed spec fn instance_spec(&self) -> Handle<Instance<X>> {
        self.instance
    }

    pub fn list(&self) -> (r: Handle<InstanceList<X>>)
        ensures
            r == self.list_spec(),
    {
        self.list
    }

    pub fn instance(&self) -> (r: Handle<Instance<X>>)
        ensures
            r == self.instance_spec(),
    {
        self.instance
    }

    pub fn new(list: Handle<InstanceList<X>>, instance: Handle<Instance<X>>) -> (r: Self)
        ensures
            r.list_spec() == list,
            r.instance_spec() == instance,
    {
        InstanceRef { list, instance }
    }
}

impl<X> Clone for InstanceRef<X> {
    fn clone(&self) -> (r: Self)
        ensures
            r == *self,
    {
        InstanceRef { list: self.list, instance: self.instance }
    }
}

impl<X> Copy for InstanceRef<X> {
}

} // verus!
