use std::marker::PhantomData;
use vstd::prelude::*;

verus! {

/// The key of a live slot: its position and the arena generation it was filled in.
pub type SlotKey = (usize, u64);

/// `generational_arena`'s arena: it hands out the keys of [`HandleArena`] (a free slot, stamped
/// with a generation that grows with every removal) and tells which keys are live.
#[verifier::external_type_specification]
#[verifier::external_body]
#[verifier::reject_recursive_types(T)]
pub struct ExSlotArena<T>(generational_arena::Arena<T>);

/// The keys that a slot arena currently holds.
pub uninterp spec fn live_keys(a: generational_arena::Arena<()>) -> Set<SlotKey>;

/// The generation that a slot arena stamps on the next key it hands out.
pub uninterp spec fn next_generation(a: generational_arena::Arena<()>) -> u64;

/// Relies on `generational_arena::Arena::new`: an empty arena whose generation starts at 0.
#[verifier::external_body]
fn slots_new() -> (r: generational_arena::Arena<()>)
    ensures
        live_keys(r) == Set::<SlotKey>::empty(),
        next_generation(r) == 0,
{
    generational_arena::Arena::new()
}

/// Relies on `generational_arena::Arena::insert`: the value goes into a free slot (one that no
/// live key names) and is stamped with the current generation, which does not change.
#[verifier::external_body]
fn slots_insert(a: &mut generational_arena::Arena<()>) -> (r: SlotKey)
    ensures
        forall|k: SlotKey| live_keys(*old(a)).contains(k) ==> k.0 != r.0,
        r.1 == next_generation(*old(a)),
        live_keys(*final(a)) == live_keys(*old(a)).insert(r),
        next_generation(*final(a)) == next_generation(*old(a)),
{
    a.insert(()).into_raw_parts()
}

/// Relies on `generational_arena::Arena::remove`: a live key is freed and the generation goes up
/// by one (a plain `+=`, hence the bound); any other key leaves the arena as it was.
#[verifier::external_body]
fn slots_remove(a: &mut generational_arena::Arena<()>, k: SlotKey) -> (r: bool)
    requires
        next_generation(*old(a)) < u64::MAX,
    ensures
        r == live_keys(*old(a)).contains(k),
        r ==> live_keys(*final(a)) == live_keys(*old(a)).remove(k),
        r ==> next_generation(*final(a)) == next_generation(*old(a)) + 1,
        !r ==> live_keys(*final(a)) == live_keys(*old(a)),
        !r ==> next_generation(*final(a)) == next_generation(*old(a)),
{
    a.remove(generational_arena::Index::from_raw_parts(k.0, k.1)).is_some()
}

/// Relies on `generational_arena::Arena::contains`: whether the key is live.
#[verifier::external_body]
fn slots_contains(a: &generational_arena::Arena<()>, k: SlotKey) -> (r: bool)
    ensures
        r == live_keys(*a).contains(k),
{
    a.contains(generational_arena::Index::from_raw_parts(k.0, k.1))
}

/// Relies on `generational_arena::Arena::iter`: every live key once, by increasing slot.
#[verifier::external_body]
fn slots_keys(a: &generational_arena::Arena<()>) -> (r: Vec<SlotKey>)
    ensures
        r@.to_set() == live_keys(*a),
        forall|i: int, j: int| 0 <= i < j < r@.len() ==> r@[i].0 < r@[j].0,
{
    a.iter().map(|(i, _)| i.into_raw_parts()).collect()
}

/// A typed reference to a slot of an [`HandleArena`], valid while the value it was issued for stays.
pub struct Handle<T> {
    slot: usize,
    generation: u64,
    phantom: PhantomData<T>,
}

impl<T> View for Handle<T> {
    type V = SlotKey;

    closed spec fn view(&self) -> SlotKey {
        (self.slot, self.generation)
    }
}

impl<T> Handle<T> {
    /// The slot position and generation of this handle.
    pub fn index(&self) -> (r: SlotKey)
        ensures
            r == self@,
    {
        (self.slot, self.generation)
    }

    pub fn new(index: SlotKey) -> (r: Self)
        ensures
            r@ == index,
    {
        Handle { slot: index.0, generation: index.1, phantom: PhantomData }
    }

    /// Stores `item` in `arena` and returns its handle.
    pub fn insert(arena: &mut HandleArena<T>, item: T) -> (r: Self)
        requires
            old(arena).wf(),
        ensures
            final(arena).wf(),
            !old(arena)@.contains_key(r@),
            !old(arena).retired().contains(r@),
            final(arena)@ == old(arena)@.insert(r@, item),
            final(arena)@.dom().finite(),
            final(arena)@.len() == old(arena)@.len() + 1,
            final(arena).retired() == old(arena).retired(),
            final(arena).generation() == old(arena).generation(),
            HandleArena::inserted(*old(arena), *final(arena), r@, item),
    {
        arena.insert(item)
    }
}

impl<T> Clone for Handle<T> {
    fn clone(&self) -> (r: Self)
        ensures
            r@ == self@,
    {
        Handle { slot: self.slot, generation: self.generation, phantom: PhantomData }
    }
}

impl<T> Copy for Handle<T> {
}

impl<T> PartialEq for Handle<T> {
    fn eq(&self, other: &Self) -> (r: bool)
        ensures
            r == (self@ == other@),
    {
        self.slot == other.slot && self.generation == other.generation
    }
}

impl<T> vstd::std_specs::cmp::PartialEqSpecImpl for Handle<T> {
    open spec fn obeys_eq_spec() -> bool {
        true
    }

    open spec fn eq_spec(&self, other: &Self) -> bool {
        self@ == other@
    }
}

impl<T> Eq for Handle<T> {
}

/// A store of values addressed by [`Handle`]s. A handle stays valid until its value is removed
/// and is never valid again afterwards, even when its slot is filled anew.
pub struct HandleArena<T> {
    slots: generational_arena::Arena<()>,
    values: Vec<Option<T>>,
    generation: u64,
    retired: Ghost<Set<SlotKey>>,
}

impl<T> View for HandleArena<T> {
    type V = Map<SlotKey, T>;

    closed spec fn view(&self) -> Map<SlotKey, T> {
        Map::new(|k: SlotKey| live_keys(self.slots).contains(k), |k: SlotKey| self.values@[k.0 as int]->Some_0)
    }
}

impl<T> HandleArena<T> {
    /// The keys of every value that was removed from this arena.
    pub closed spec fn retired(&self) -> Set<SlotKey> {
        self.retired@
    }

    /// The generation that the next inserted value gets.
    pub closed spec fn generation(&self) -> u64 {
        next_generation(self.slots)
    }

    /// Whether one more value can be removed: the generation counter has room to grow.
    pub open spec fn can_remove(&self) -> bool {
        self.generation() < u64::MAX
    }

    pub closed spec fn wf(&self) -> bool {
        let keys = live_keys(self.slots);
        &&& keys.finite()
        &&& self.generation == next_generation(self.slots)
        &&& forall|k: SlotKey| #[trigger] keys.contains(k) ==> k.0 < self.values@.len() && self.values@[k.0 as int] is Some
        &&& forall|k: SlotKey| #[trigger] keys.contains(k) ==> k.1 <= next_generation(self.slots)
        &&& forall|s: int| 0 <= s < self.values@.len() && #[trigger] self.values@[s] is Some ==> exists|k: SlotKey| keys.contains(k) && k.0 == s
        &&& forall|k1: SlotKey, k2: SlotKey| #[trigger] keys.contains(k1) && #[trigger] keys.contains(k2) && k1.0 == k2.0 ==> k1 == k2
        &&& forall|k: SlotKey| #[trigger] self.retired@.contains(k) ==> k.1 < next_generation(self.slots)
        &&& forall|k: SlotKey| #[trigger] self.retired@.contains(k) ==> !keys.contains(k)
    }

    /// A handle stays valid until its value is removed and is never valid again: once retired,
    /// a key stays retired through every later insertion and removal (each of which keeps
    /// `retired()` or grows it), and no retired key is live.
    pub proof fn lemma_handle_identity(before: Self, after: Self, k: SlotKey)
        requires
            before.wf(),
            after.wf(),
            before.retired().contains(k),
            before.retired().subset_of(after.retired()),
        ensures
            !after@.contains_key(k),
    {
        assert(after.retired@.contains(k));
    }

    /// The keys of the live values are finitely many.
    proof fn lemma_dom(&self)
        requires
            self.wf(),
        ensures
            self@.dom() == live_keys(self.slots),
            self@.dom().finite(),
    {
        assert(self@.dom() =~= live_keys(self.slots));
    }

    /// A well-formed arena holds finitely many values.
    pub proof fn lemma_finite(&self)
        requires
            self.wf(),
        ensures
            self@.dom().finite(),
    {
        self.lemma_dom();
    }

    /// `after` is `before` with `value` stored under `k`, a key that was neither live nor
    /// retired; nothing is retired anew.
    pub open spec fn inserted(before: Self, after: Self, k: SlotKey, value: T) -> bool {
        &&& !before@.contains_key(k)
        &&& !before.retired().contains(k)
        &&& after@ == before@.insert(k, value)
        &&& after.retired() == before.retired()
    }

    /// `after` is `before` with the value under `k` removed and `k` retired, or, if `k` was not
    /// live, `before` unchanged.
    pub open spec fn removed(before: Self, after: Self, k: SlotKey) -> bool {
        &&& after@ == before@.remove(k)
        &&& if before@.contains_key(k) {
            after.retired() == before.retired().insert(k)
        } else {
            after.retired() == before.retired()
        }
    }

    /// `after` is what one insertion or one removal made of `before`.
    pub open spec fn step(before: Self, after: Self) -> bool {
        ||| exists|k: SlotKey, value: T| #[trigger] Self::inserted(before, after, k, value)
        ||| exists|k: SlotKey| #[trigger] Self::removed(before, after, k)
    }

    /// Over any sequence of insertions and removals, a handle that is live at the start keeps
    /// its value for as long as it has not been removed, and once removed it is never live
    /// again, even when its slot is filled anew.
    pub proof fn lemma_handle_valid_until_removed(arenas: Seq<Self>, k: SlotKey, value: T)
        requires
            arenas.len() > 0,
            forall|i: int| 0 <= i < arenas.len() ==> (#[trigger] arenas[i]).wf(),
            forall|i: int| 0 <= i < arenas.len() - 1 ==> Self::step(#[trigger] arenas[i], arenas[i + 1]),
            arenas[0]@.contains_key(k),
            arenas[0]@[k] == value,
        ensures
            forall|i: int| 0 <= i < arenas.len() && !(#[trigger] arenas[i]).retired().contains(k) ==> arenas[i]@.contains_key(k) && arenas[i]@[k] == value,
            forall|i: int, j: int| 0 <= i <= j < arenas.len() && (#[trigger] arenas[i]).retired().contains(k) ==> !(#[trigger] arenas[j])@.contains_key(k),
        decreases arenas.len(),
    {
        let n = arenas.len();
        if n > 1 {
            let prefix = arenas.drop_last();
            assert forall|i: int| 0 <= i < prefix.len() - 1 implies Self::step(#[trigger] prefix[i], prefix[i + 1]) by {
                assert(prefix[i] == arenas[i] && prefix[i + 1] == arenas[i + 1]);
            }
            assert forall|i: int| 0 <= i < prefix.len() implies (#[trigger] prefix[i]).wf() by {
                assert(prefix[i] == arenas[i]);
            }
            Self::lemma_handle_valid_until_removed(prefix, k, value);
            let a = arenas[n - 2];
            let b = arenas[n - 1];
            assert(Self::step(a, b));
            assert(a.retired().subset_of(b.retired())) by {
                if exists|k2: SlotKey, v2: T| #[trigger] Self::inserted(a, b, k2, v2) {
                    let (k2, v2) = choose|k2: SlotKey, v2: T| #[trigger] Self::inserted(a, b, k2, v2);
                } else {
                    let k2 = choose|k2: SlotKey| #[trigger] Self::removed(a, b, k2);
                }
            }
            assert(!a.retired().contains(k) ==> !b.retired().contains(k) ==> b@.contains_key(k) && b@[k] == value) by {
                if !a.retired().contains(k) && !b.retired().contains(k) {
                    assert(prefix[n - 2] == a);
                    if exists|k2: SlotKey, v2: T| #[trigger] Self::inserted(a, b, k2, v2) {
                        let (k2, v2) = choose|k2: SlotKey, v2: T| #[trigger] Self::inserted(a, b, k2, v2);
                        assert(k2 != k);
                    } else {
                        let k2 = choose|k2: SlotKey| #[trigger] Self::removed(a, b, k2);
                        if k2 == k {
                            assert(b.retired().contains(k));
                        }
                    }
                }
            }
            assert forall|i: int| 0 <= i < n && !(#[trigger] arenas[i]).retired().contains(k) implies arenas[i]@.contains_key(k) && arenas[i]@[k] == value by {
                if i < n - 1 {
                    assert(prefix[i] == arenas[i]);
                } else {
                    assert(prefix[n - 2] == a);
                    if a.retired().contains(k) {
                        assert(b.retired().contains(k));
                    }
                }
            }
            assert forall|i: int, j: int| 0 <= i <= j < n && (#[trigger] arenas[i]).retired().contains(k) implies !(#[trigger] arenas[j])@.contains_key(k) by {
                if j < n - 1 {
                    assert(prefix[i] == arenas[i] && prefix[j] == arenas[j]);
                } else if i == n - 1 {
                    assert(b.retired@.contains(k));
                } else {
                    assert(prefix[i] == arenas[i] && prefix[n - 2] == a);
                    if !a.retired().contains(k) {
                        assert(a@.contains_key(k));
                        assert(!prefix[n - 2]@.contains_key(k));
                    }
                    assert(b.retired@.contains(k));
                }
            }
        } else {
            assert(!arenas[0].retired@.contains(k));
        }
    }

    pub fn new() -> (r: Self)
        ensures
            r.wf(),
            r@ == Map::<SlotKey, T>::empty(),
            r@.dom().finite(),
            r.retired() == Set::<SlotKey>::empty(),
            r.generation() == 0,
    {
        let r = HandleArena { slots: slots_new(), values: Vec::new(), generation: 0, retired: Ghost(Set::empty()) };
        assert(r@ =~= Map::<SlotKey, T>::empty());
        r
    }

    /// Stores `value` under a fresh handle: one that is neither live nor was ever removed.
    pub fn insert(&mut self, value: T) -> (r: Handle<T>)
        requires
            old(self).wf(),
        ensures
            final(self).wf(),
            !old(self)@.contains_key(r@),
            !old(self).retired().contains(r@),
            final(self)@ == old(self)@.insert(r@, value),
            final(self)@.dom().finite(),
            final(self)@.len() == old(self)@.len() + 1,
            final(self).retired() == old(self).retired(),
            final(self).generation() == old(self).generation(),
            Self::inserted(*old(self), *final(self), r@, value),
    {
        proof {
            self.lemma_dom();
        }
        let ghost old_keys = live_keys(self.slots);
        let ghost old_values = self.values@;
        let k = slots_insert(&mut self.slots);
        let ghost slots_now = self.slots;
        let slot = k.0;
        while self.values.len() <= slot
            invariant
                forall|s: int| 0 <= s < old_values.len() ==> self.values@[s] == old_values[s],
                forall|s: int| old_values.len() <= s < self.values@.len() ==> self.values@[s] is None,
                old_values.len() <= self.values@.len() <= slot + 1 || self.values@.len() == old_values.len(),
                slot == k.0,
                self.slots == slots_now,
                self.retired == old(self).retired,
                self.generation == old(self).generation,
            decreases slot + 1 - self.values@.len(),
        {
            self.values.push(None);
        }
        self.values.set(slot, Some(value));
        let h = Handle::new(k);
        proof {
            let keys = live_keys(self.slots);
            assert(keys == old_keys.insert(k));
            assert forall|s: int| 0 <= s < self.values@.len() && #[trigger] self.values@[s] is Some implies exists|k2: SlotKey| keys.contains(k2) && k2.0 == s by {
                if s != k.0 as int {
                    assert(old_values[s] is Some);
                    let k2 = choose|k2: SlotKey| old_keys.contains(k2) && k2.0 == s;
                    assert(keys.contains(k2));
                } else {
                    assert(keys.contains(k));
                }
            }
            assert(!old_keys.contains(k));
            assert(self@ =~= old(self)@.insert(k, value));
        }
        h
    }

    /// Whether [`HandleArena::remove`] may be called: see [`HandleArena::can_remove`].
    pub fn removals_left(&self) -> (r: bool)
        requires
            self.wf(),
        ensures
            r == self.can_remove(),
    {
        self.generation < u64::MAX
    }

    pub fn contains(&self, h: Handle<T>) -> (r: bool)
        requires
            self.wf(),
        ensures
            r == self@.contains_key(h@),
    {
        slots_contains(&self.slots, h.index())
    }

    /// The value under `h`, or `None` when `h` is not live.
    pub fn get(&self, h: Handle<T>) -> (r: Option<&T>)
        requires
            self.wf(),
        ensures
            r is Some == self@.contains_key(h@),
            r is Some ==> *r->Some_0 == self@[h@],
    {
        let k = h.index();
        if slots_contains(&self.slots, k) {
            self.values[k.0].as_ref()
        } else {
            None
        }
    }

    /// The value under a live handle.
    pub fn index(&self, h: Handle<T>) -> (r: &T)
        requires
            self.wf(),
            self@.contains_key(h@),
        ensures
            *r == self@[h@],
    {
        let k = h.index();
        self.values[k.0].as_ref().unwrap()
    }

    /// The value under a live handle, to change in place.
    pub fn get_mut(&mut self, h: Handle<T>) -> (r: &mut T)
        requires
            old(self).wf(),
            old(self)@.contains_key(h@),
        ensures
            *r == old(self)@[h@],
            final(self).wf(),
            final(self)@ == old(self)@.insert(h@, *final(r)),
            final(self).retired() == old(self).retired(),
            final(self).generation() == old(self).generation(),
    {
        let k = h.index();
        proof {
            assert(live_keys(self.slots).contains(k));
        }
        let entry = &mut self.values[k.0];
        entry.as_mut().unwrap()
    }

    /// Removes the value under `h`, if it is live; its handle is then retired for good.
    pub fn remove(&mut self, h: Handle<T>) -> (r: Option<T>)
        requires
            old(self).wf(),
            old(self).can_remove(),
        ensures
            final(self).wf(),
            r is Some == old(self)@.contains_key(h@),
            r is Some ==> r->Some_0 == old(self)@[h@],
            final(self)@ == old(self)@.remove(h@),
            final(self)@.dom().finite(),
            r is Some ==> final(self)@.len() == old(self)@.len() - 1,
            r is None ==> final(self)@.len() == old(self)@.len(),
            Self::removed(*old(self), *final(self), h@),
            r is Some ==> final(self).retired() == old(self).retired().insert(h@),
            r is Some ==> final(self).generation() == old(self).generation() + 1,
            r is None ==> final(self).retired() == old(self).retired(),
            r is None ==> final(self).generation() == old(self).generation(),
    {
        let k = h.index();
        proof {
            self.lemma_dom();
        }
        let ghost old_keys = live_keys(self.slots);
        let ghost old_values = self.values@;
        if slots_remove(&mut self.slots, k) {
            let mut taken: Option<T> = None;
            proof {
                assert(old_keys.contains(k));
            }
            std::mem::swap(&mut taken, &mut self.values[k.0]);
            self.retired = Ghost(self.retired@.insert(k));
            self.generation = self.generation + 1;
            proof {
                let keys = live_keys(self.slots);
                assert forall|s: int| 0 <= s < self.values@.len() && #[trigger] self.values@[s] is Some implies exists|k2: SlotKey| keys.contains(k2) && k2.0 == s by {
                    assert(old_values[s] is Some);
                    let k2 = choose|k2: SlotKey| old_keys.contains(k2) && k2.0 == s;
                    assert(k2 != k);
                    assert(keys.contains(k2));
                }
                assert(self@ =~= old(self)@.remove(k));
            }
            taken
        } else {
            proof {
                assert(self@ =~= old(self)@.remove(k));
            }
            None
        }
    }

    /// The handles of every live value, by increasing slot.
    pub fn handles(&self) -> (r: Vec<Handle<T>>)
        requires
            self.wf(),
        ensures
            forall|i: int| 0 <= i < r@.len() ==> self@.contains_key(#[trigger] r@[i]@),
            forall|k: SlotKey| self@.contains_key(k) ==> exists|i: int| 0 <= i < r@.len() && #[trigger] r@[i]@ == k,
            forall|i: int, j: int| 0 <= i < j < r@.len() ==> (#[trigger] r@[i]@).0 < (#[trigger] r@[j]@).0,
    {
        let keys = slots_keys(&self.slots);
        let mut r: Vec<Handle<T>> = Vec::new();
        let mut i: usize = 0;
        while i < keys.len()
            invariant
                i <= keys@.len(),
                r@.len() == i,
                forall|j: int| 0 <= j < i ==> (#[trigger] r@[j])@ == keys@[j],
            decreases keys@.len() - i,
        {
            r.push(Handle::new(keys[i]));
            i = i + 1;
        }
        proof {
            assert forall|k: SlotKey| self@.contains_key(k) implies exists|i: int| 0 <= i < r@.len() && #[trigger] r@[i]@ == k by {
                assert(keys@.to_set().contains(k));
                let j = choose|j: int| 0 <= j < keys@.len() && keys@[j] == k;
                assert(r@[j]@ == k);
            }
            assert forall|j: int| 0 <= j < r@.len() implies self@.contains_key(#[trigger] r@[j]@) by {
                assert(keys@.to_set().contains(keys@[j]));
            }
        }
        r
    }

    pub fn len(&self) -> (r: usize)
        requires
            self.wf(),
        ensures
            r == self@.len(),
    {
        let keys = slots_keys(&self.slots);
        proof {
            assert(keys@.no_duplicates());
            keys@.unique_seq_to_set();
            assert(self@.dom() =~= live_keys(self.slots));
        }
        keys.len()
    }
}

} // verus!
