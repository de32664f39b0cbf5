use crate::instance_list::{USAGE_COPY_DST, USAGE_VERTEX};
use crate::resizable_buffer::{ResizableBuffer, MAX_DATA_LEN};
use vstd::prelude::*;

verus! {

/// Initial size in bytes of the line vertex buffer.
pub const INITIAL_LINE_BUFFER_CAPACITY: u64 = 32;

/// Immediate-mode debug lines: lines drawn between two renders are shown by the next render
/// only. A frame in which no line was drawn shows none (the GPU buffer keeps its old bytes,
/// but the vertex count to draw drops to zero).
pub struct LineRenderer<V> {
    vertices: Vec<V>,
    buffer: ResizableBuffer,
    count: u32,
}

impl<V: Copy> LineRenderer<V> {
    /// The vertices of the lines drawn since the last upload, two per line.
    pub closed spec fn pending_spec(&self) -> Seq<V> {
        self.vertices@
    }

    pub closed spec fn buffer_spec(&self) -> ResizableBuffer {
        self.buffer
    }

    /// How many vertices the next render draws from the buffer.
    pub closed spec fn count_spec(&self) -> u32 {
        self.count
    }

    pub closed spec fn wf(&self) -> bool {
        self.buffer.wf()
    }

    pub fn new() -> (r: Self)
        ensures
            r.wf(),
            r.pending_spec() == Seq::<V>::empty(),
            r.count_spec() == 0,
            r.buffer_spec().capacity_spec() == INITIAL_LINE_BUFFER_CAPACITY,
            r.buffer_spec().size_spec() == 0,
            r.buffer_spec().usage_spec() == USAGE_VERTEX | USAGE_COPY_DST,
    {
        LineRenderer {
            vertices: Vec::new(),
            buffer: ResizableBuffer::new(INITIAL_LINE_BUFFER_CAPACITY, USAGE_VERTEX | USAGE_COPY_DST),
            count: 0,
        }
    }

    pub fn vertices(&self) -> (r: &Vec<V>)
        ensures
            r@ == self.pending_spec(),
    {
        &self.vertices
    }

    pub fn buffer(&self) -> (r: &ResizableBuffer)
        ensures
            *r == self.buffer_spec(),
    {
        &self.buffer
    }

    pub fn count(&self) -> (r: u32)
        ensures
            r == self.count_spec(),
    {
        self.count
    }

    /// Queues a line from `start` to `end` for the next render.
    pub fn draw_line(&mut self, start: V, end: V)
        ensures
            final(self).pending_spec() == old(self).pending_spec().push(start).push(end),
            final(self).buffer_spec() == old(self).buffer_spec(),
            final(self).count_spec() == old(self).count_spec(),
            old(self).wf() ==> final(self).wf(),
    {
        self.vertices.push(start);
        self.vertices.push(end);
    }

    /// Once per rendered frame, after the frame's lines are drawn: hands `packed`, the packed
    /// form of the queued vertices, to the buffer, sets the count to draw, and empties the
    /// queue. With nothing queued the buffer is left alone and nothing will be drawn. Returns
    /// the capacity of the new allocation when the buffer had to grow.
    pub fn update_buffer_and_clear(&mut self, packed: &[u8]) -> (r: Option<u64>)
        requires
            old(self).wf(),
            packed@.len() <= MAX_DATA_LEN,
        ensures
            final(self).wf(),
            final(self).pending_spec() == Seq::<V>::empty(),
            final(self).count_spec() == old(self).pending_spec().len() as u32,
            old(self).pending_spec().len() == 0 ==> r is None && final(self).buffer_spec() == old(self).buffer_spec(),
            old(self).pending_spec().len() > 0 ==> ResizableBuffer::updates_to(old(self).buffer_spec(), packed@, r, final(self).buffer_spec()),
    {
        let n = self.vertices.len();
        if n == 0 {
            self.count = 0;
            return None;
        }
        let grown = self.buffer.update(packed);
        self.count = n as u32;
        self.vertices.clear();
        grown
    }
}

} // verus!
