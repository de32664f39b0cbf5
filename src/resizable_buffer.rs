use vstd::prelude::*;

verus! {

/// Byte alignment that GPU buffer sizes and copies must keep.
pub const ALIGNMENT: u64 = 4;

/// The longest upload a buffer accepts: its grown capacity must still be a `u64` byte count.
pub const MAX_DATA_LEN: u64 = 0x4000_0000_0000_0000;

/// `n` rounded up to the next multiple of [`ALIGNMENT`].
pub open spec fn align_up(n: int) -> int {
    ((n + 3) / 4) * 4
}

/// The capacity a buffer is reallocated to when `len` bytes do not fit: a quarter more than
/// asked for, then aligned.
pub open spec fn grown_capacity(len: int) -> int {
    align_up(len + len / 4)
}

fn align_up_exec(n: u64) -> (r: u64)
    requires
        n <= u64::MAX - 3,
    ensures
        r == align_up(n as int),
        n <= r,
        r % 4 == 0,
{
    (n + 3) / 4 * 4
}

/// A GPU buffer that grows when asked to hold more than it can. It tracks the capacity of the
/// GPU allocation, the number of bytes last written, the usage flags, and (as ghost state) what
/// the allocation holds.
///
/// The owner of the GPU object carries out what [`ResizableBuffer::update`] decides: allocate a
/// new buffer of the returned capacity when there is one, then write the data at offset 0.
pub struct ResizableBuffer {
    capacity: u64,
    size: u64,
    usage: u32,
    contents: Ghost<Seq<u8>>,
}

impl ResizableBuffer {
    /// The size in bytes of the GPU allocation.
    pub closed spec fn capacity_spec(&self) -> nat {
        self.capacity as nat
    }

    /// The number of bytes that the last update wrote.
    pub closed spec fn size_spec(&self) -> nat {
        self.size as nat
    }

    pub closed spec fn usage_spec(&self) -> u32 {
        self.usage
    }

    /// The bytes of the GPU allocation, one per byte of capacity.
    pub closed spec fn contents(&self) -> Seq<u8> {
        self.contents@
    }

    pub closed spec fn wf(&self) -> bool {
        &&& self.capacity % 4 == 0
        &&& self.size <= self.capacity
        &&& self.contents@.len() == self.capacity
    }

    pub fn capacity(&self) -> (r: u64)
        ensures
            r == self.capacity_spec(),
    {
        self.capacity
    }

    pub fn size(&self) -> (r: u64)
        ensures
            r == self.size_spec(),
    {
        self.size
    }

    pub fn usage(&self) -> (r: u32)
        ensures
            r == self.usage_spec(),
    {
        self.usage
    }

    /// What an update with `data` that returned `r` made of the buffer `before`: it now reads
    /// `data` from offset 0 (see [`ResizableBuffer::update`]).
    pub open spec fn updates_to(before: ResizableBuffer, data: Seq<u8>, r: Option<u64>, after: ResizableBuffer) -> bool {
        &&& r is Some <==> data.len() > before.capacity_spec()
        &&& r is Some ==> r->Some_0 == grown_capacity(data.len() as int)
        &&& r is Some ==> after.capacity_spec() == r->Some_0
        &&& r is None ==> after.capacity_spec() == before.capacity_spec()
        &&& after.capacity_spec() >= before.capacity_spec()
        &&& after.capacity_spec() >= data.len()
        &&& after.size_spec() == data.len()
        &&& after.usage_spec() == before.usage_spec()
        &&& before.contents().len() == before.capacity_spec()
        &&& after.contents().len() == after.capacity_spec()
        &&& after.contents().subrange(0, data.len() as int) == data
        &&& r is None ==> after.contents() == data + before.contents().subrange(
            data.len() as int,
            before.capacity_spec() as int,
        )
        &&& r is Some ==> after.contents() == data + Seq::new((r->Some_0 - data.len()) as nat, |i: int| 0u8)
    }

    /// A buffer of at least `capacity` bytes (rounded up to the alignment), zero-filled as a new
    /// GPU allocation is, and holding no data yet.
    pub fn new(capacity: u64, usage: u32) -> (r: Self)
        requires
            capacity <= u64::MAX - 3,
        ensures
            r.wf(),
            r.capacity_spec() == align_up(capacity as int),
            r.size_spec() == 0,
            r.usage_spec() == usage,
            r.contents() == Seq::new(r.capacity_spec(), |i: int| 0u8),
            r.contents().len() == r.capacity_spec(),
    {
        let cap = align_up_exec(capacity);
        ResizableBuffer { capacity: cap, size: 0, usage, contents: Ghost(Seq::new(cap as nat, |i: int| 0u8)) }
    }

    /// Takes `data` as the buffer's new contents. When it does not fit, the buffer moves to a
    /// new, zero-filled allocation of [`grown_capacity`] bytes, whose size is returned; else
    /// the allocation stays and `None` is returned. Either way `data` is then written at offset
    /// 0, so the first `data.len()` bytes are `data` and the rest keep what they held.
    pub fn update(&mut self, data: &[u8]) -> (r: Option<u64>)
        requires
            old(self).wf(),
            data@.len() <= MAX_DATA_LEN,
        ensures
            final(self).wf(),
            Self::updates_to(*old(self), data@, r, *final(self)),
    {
        let len = data.len() as u64;
        let mut r: Option<u64> = None;
        if len > self.capacity {
            let cap = align_up_exec(len + len / 4);
            self.capacity = cap;
            self.contents = Ghost(Seq::new(cap as nat, |i: int| 0u8));
            r = Some(cap);
        }
        let ghost before = self.contents@;
        self.contents = Ghost(data@ + before.subrange(len as int, before.len() as int));
        self.size = len;
        proof {
            assert(self.contents@.subrange(0, len as int) =~= data@);
            if r is Some {
                assert(before.subrange(len as int, before.len() as int) =~= Seq::new(
                    (self.capacity - len) as nat,
                    |i: int| 0u8,
                ));
            }
        }
        r
    }
}

} // verus!
