use std::marker::PhantomData;
use vstd::prelude::*;

verus! {

/// The position of a vertex in a [`MeshBuilder`].
pub struct VertexReference<T> {
    index: u32,
    phantom: PhantomData<T>,
}

impl<T> VertexReference<T> {
    pub closed spec fn index_spec(&self) -> u32 {
        self.index
    }

    pub fn new(index: u32) -> (r: VertexReference<T>)
        ensures
            r.index_spec() == index,
    {
        VertexReference { index, phantom: PhantomData }
    }

    pub fn index(&self) -> (r: u32)
        ensures
            r == self.index_spec(),
    {
        self.index
    }
}

impl<T> Clone for VertexReference<T> {
    fn clone(&self) -> (r: Self)
        ensures
            r.index_spec() == self.index_spec(),
    {
        VertexReference { index: self.index, phantom: PhantomData }
    }
}

impl<T> Copy for VertexReference<T> {
}

/// CPU-side mesh data: vertices, and triangles as triples of indices into them.
pub struct MeshBuilder<T> {
    vertices: Vec<T>,
    indices: Vec<u32>,
}

impl<T> MeshBuilder<T> {
    pub closed spec fn vertices_spec(&self) -> Seq<T> {
        self.vertices@
    }

    pub closed spec fn indices_spec(&self) -> Seq<u32> {
        self.indices@
    }

    pub fn vertices(&self) -> (r: &Vec<T>)
        ensures
            r@ == self.vertices_spec(),
    {
        &self.vertices
    }

    pub fn indices(&self) -> (r: &Vec<u32>)
        ensures
            r@ == self.indices_spec(),
    {
        &self.indices
    }

    pub fn new() -> (r: Self)
        ensures
            r.vertices_spec() == Seq::<T>::empty(),
            r.indices_spec() == Seq::<u32>::empty(),
    {
        MeshBuilder { vertices: Vec::new(), indices: Vec::new() }
    }

    /// The vertex at `reference`, if there is one.
    pub fn vertex(&self, reference: VertexReference<T>) -> (r: Option<&T>)
        ensures
            r is Some <==> reference.index_spec() < self.vertices_spec().len(),
            r is Some ==> *r->Some_0 == self.vertices_spec()[reference.index_spec() as int],
    {
        let i = reference.index() as usize;
        if i < self.vertices.len() {
            Some(&self.vertices[i])
        } else {
            None
        }
    }

    /// Appends a vertex and returns its position. Positions are `u32`, as the index buffer's are.
    pub fn add_vertex(&mut self, vertex: T) -> (r: VertexReference<T>)
        requires
            old(self).vertices_spec().len() < u32::MAX,
        ensures
            final(self).vertices_spec() == old(self).vertices_spec().push(vertex),
            final(self).indices_spec() == old(self).indices_spec(),
            r.index_spec() == old(self).vertices_spec().len(),
    {
        self.vertices.push(vertex);
        VertexReference::new((self.vertices.len() - 1) as u32)
    }

    /// Appends the triangle `a`, `b`, `c` of vertices already added.
    pub fn add_triangle_refs(&mut self, a: VertexReference<T>, b: VertexReference<T>, c: VertexReference<T>)
        ensures
            final(self).vertices_spec() == old(self).vertices_spec(),
            final(self).indices_spec() == old(self).indices_spec() + seq![a.index_spec(), b.index_spec(), c.index_spec()],
    {
        self.indices.push(a.index());
        self.indices.push(b.index());
        self.indices.push(c.index());
        proof {
            assert(self.indices@ =~= old(self).indices@ + seq![a.index_spec(), b.index_spec(), c.index_spec()]);
        }
    }

    /// Appends three new vertices and the triangle they make.
    pub fn add_triangle(&mut self, a: T, b: T, c: T)
        requires
            old(self).vertices_spec().len() + 3 <= u32::MAX,
        ensures
            final(self).vertices_spec() == old(self).vertices_spec() + seq![a, b, c],
            final(self).indices_spec() == old(self).indices_spec() + Self::triangle_indices(old(self).vertices_spec().len() as int),
    {
        let ra = self.add_vertex(a);
        let rb = self.add_vertex(b);
        let rc = self.add_vertex(c);
        self.add_triangle_refs(ra, rb, rc);
        proof {
            assert(self.vertices@ =~= old(self).vertices@ + seq![a, b, c]);
        }
    }

    /// The indices of a triangle of three vertices added from position `first`.
    pub open spec fn triangle_indices(first: int) -> Seq<u32> {
        seq![first as u32, (first + 1) as u32, (first + 2) as u32]
    }

    /// The indices of a quad of four vertices added from position `first`, as two triangles
    /// sharing the first and third corners.
    pub open spec fn quad_indices(first: int) -> Seq<u32> {
        seq![first as u32, (first + 1) as u32, (first + 2) as u32, first as u32, (first + 2) as u32, (first + 3) as u32]
    }

    /// Appends the quad `a`, `b`, `c`, `d` of vertices already added, as the triangles
    /// `a b c` and `a c d`.
    pub fn add_quad_refs(&mut self, a: VertexReference<T>, b: VertexReference<T>, c: VertexReference<T>, d: VertexReference<T>)
        ensures
            final(self).vertices_spec() == old(self).vertices_spec(),
            final(self).indices_spec() == old(self).indices_spec() + seq![
                a.index_spec(),
                b.index_spec(),
                c.index_spec(),
                a.index_spec(),
                c.index_spec(),
                d.index_spec(),
            ],
    {
        self.add_triangle_refs(a, b, c);
        self.add_triangle_refs(a, c, d);
        proof {
            assert(self.indices@ =~= old(self).indices@ + seq![
                a.index_spec(),
                b.index_spec(),
                c.index_spec(),
                a.index_spec(),
                c.index_spec(),
                d.index_spec(),
            ]);
        }
    }

    /// Appends four new vertices and the quad they make.
    pub fn add_quad(&mut self, a: T, b: T, c: T, d: T)
        requires
            old(self).vertices_spec().len() + 4 <= u32::MAX,
        ensures
            final(self).vertices_spec() == old(self).vertices_spec() + seq![a, b, c, d],
            final(self).indices_spec() == old(self).indices_spec() + Self::quad_indices(old(self).vertices_spec().len() as int),
    {
        let ra = self.add_vertex(a);
        let rb = self.add_vertex(b);
        let rc = self.add_vertex(c);
        let rd = self.add_vertex(d);
        self.add_quad_refs(ra, rb, rc, rd);
        proof {
            assert(self.vertices@ =~= old(self).vertices@ + seq![a, b, c, d]);
        }
    }

    /// The number of indices, which is what a draw of the whole mesh covers.
    pub fn index_count(&self) -> (r: u32)
        ensures
            r == self.indices_spec().len() as u32,
    {
        self.indices.len() as u32
    }
}

} // verus!
