use shaderunner::mesh_builder::{MeshBuilder, VertexReference};

#[test]
fn quad_is_two_triangles_sharing_a_diagonal() {
    let mut mesh: MeshBuilder<char> = MeshBuilder::new();
    mesh.add_triangle('x', 'y', 'z');
    mesh.add_quad('a', 'b', 'c', 'd');
    assert_eq!(mesh.vertices(), &vec!['x', 'y', 'z', 'a', 'b', 'c', 'd']);
    assert_eq!(mesh.indices(), &vec![0, 1, 2, 3, 4, 5, 3, 5, 6]);
    assert_eq!(mesh.index_count(), 9);
}

#[test]
fn references_address_added_vertices() {
    let mut mesh: MeshBuilder<u8> = MeshBuilder::new();
    let a = mesh.add_vertex(10);
    let b = mesh.add_vertex(20);
    let c = mesh.add_vertex(30);
    let d = mesh.add_vertex(40);
    mesh.add_quad_refs(d, c, b, a);
    assert_eq!(mesh.indices(), &vec![3, 2, 1, 3, 1, 0]);
    assert_eq!(mesh.vertex(b), Some(&20));
    assert_eq!(mesh.vertex(VertexReference::new(4)), None);
    assert_eq!(c.index(), 2);
}
