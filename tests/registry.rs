use shaderunner::error::ResourceError;
use shaderunner::handle::Handle;
use shaderunner::mesh::Mesh;
use shaderunner::resources::Resources;

type Transform = [f32; 8];

const IDENTITY: Transform = [0.0, 0.0, 0.0, 0.0, 0.0, 0.0, 1.0, 1.0];

#[test]
fn instance_lifecycle() {
    let mut resources: Resources<Transform> = Resources::new();
    let cube = resources.add_mesh(36);
    let pipeline = resources.add_pipeline();
    let list = resources.add_instance_list(pipeline, cube).unwrap();
    let instance = resources.add_instance(list, IDENTITY).unwrap();

    resources.set_instance_active(instance, false).unwrap();
    resources.build_instance_data(list).unwrap();
    assert_eq!(resources.instance_list(list).buffered_instance_count(), 0);

    resources.set_instance_active(instance, true).unwrap();
    resources.build_instance_data(list).unwrap();
    let staged = resources.instance_list(list).instance_data();
    assert_eq!(staged.len(), 1);
    assert_eq!(staged[0], IDENTITY);
    assert_eq!(resources.mesh(cube).index_count(), 36);
}

#[test]
fn dependency_invariant() {
    let mut resources: Resources<Transform> = Resources::new();
    let mesh = resources.add_mesh(6);
    let pipeline = resources.add_pipeline();
    let a = resources.add_instance_list(pipeline, mesh).unwrap();
    let b = resources.add_instance_list(pipeline, mesh).unwrap();

    assert_eq!(resources.remove_mesh(mesh), Err(ResourceError::ResourceInUse));
    assert_eq!(resources.remove_pipeline(pipeline), Err(ResourceError::ResourceInUse));

    resources.remove_instance_list(a).unwrap();
    assert_eq!(resources.remove_mesh(mesh), Err(ResourceError::ResourceInUse));
    assert_eq!(resources.remove_pipeline(pipeline), Err(ResourceError::ResourceInUse));

    resources.remove_instance_list(b).unwrap();
    assert_eq!(resources.remove_mesh(mesh), Ok(()));
    assert_eq!(resources.remove_pipeline(pipeline), Ok(()));
    assert_eq!(resources.remove_mesh(mesh), Err(ResourceError::StaleHandle));
    assert_eq!(resources.remove_pipeline(pipeline), Err(ResourceError::StaleHandle));
}

#[test]
fn removing_a_mesh_leaves_pipelines_alone() {
    let mut resources: Resources<Transform> = Resources::new();
    let pipeline = resources.add_pipeline();
    let mesh = resources.add_mesh(3);
    assert_eq!(resources.remove_mesh(mesh), Ok(()));
    assert_eq!(resources.iterate_pipelines().len(), 1);
    assert!(resources.iterate_pipelines()[0] == pipeline);
}

#[test]
fn instance_lists_need_live_mesh_and_pipeline() {
    let mut resources: Resources<Transform> = Resources::new();
    let mesh = resources.add_mesh(3);
    let pipeline = resources.add_pipeline();
    let stray: Handle<Mesh> = Handle::new((5, 0));
    assert!(matches!(resources.add_instance_list(pipeline, stray), Err(ResourceError::StaleHandle)));
    resources.remove_mesh(mesh).unwrap();
    assert!(matches!(resources.add_instance_list(pipeline, mesh), Err(ResourceError::StaleHandle)));
    assert!(resources.iterate_instance_lists().is_empty());
}

#[test]
fn double_removal_of_a_list_is_refused() {
    let mut resources: Resources<Transform> = Resources::new();
    let mesh = resources.add_mesh(3);
    let pipeline = resources.add_pipeline();
    let list = resources.add_instance_list(pipeline, mesh).unwrap();
    assert_eq!(resources.remove_instance_list(list), Ok(()));
    assert_eq!(resources.remove_instance_list(list), Err(ResourceError::StaleHandle));
    assert!(matches!(resources.add_instance(list, IDENTITY), Err(ResourceError::StaleHandle)));
    assert_eq!(resources.build_instance_data(list), Err(ResourceError::StaleHandle));
    assert_eq!(resources.upload_instance_data(list, &[]), Err(ResourceError::StaleHandle));
}

#[test]
fn pipeline_dependents_group_lists_by_pipeline() {
    let mut resources: Resources<Transform> = Resources::new();
    let mesh = resources.add_mesh(3);
    let lit = resources.add_pipeline();
    let flat = resources.add_pipeline();
    let a = resources.add_instance_list(lit, mesh).unwrap();
    let b = resources.add_instance_list(flat, mesh).unwrap();
    let c = resources.add_instance_list(lit, mesh).unwrap();
    let lit_lists = resources.iterate_pipeline_dependents(lit);
    assert_eq!(lit_lists.len(), 2);
    assert!(lit_lists[0] == a);
    assert!(lit_lists[1] == c);
    let flat_lists = resources.iterate_pipeline_dependents(flat);
    assert_eq!(flat_lists.len(), 1);
    assert!(flat_lists[0] == b);
    assert_eq!(resources.iterate_instance_lists().len(), 3);
    assert!(resources.instance_list(b).pipeline() == flat);
    assert!(resources.instance_list(b).mesh() == mesh);
}

#[test]
fn instance_operations_go_to_the_addressed_list() {
    let mut resources: Resources<Transform> = Resources::new();
    let mesh = resources.add_mesh(3);
    let pipeline = resources.add_pipeline();
    let first = resources.add_instance_list(pipeline, mesh).unwrap();
    let second = resources.add_instance_list(pipeline, mesh).unwrap();
    let r = resources.add_instance(first, IDENTITY).unwrap();
    assert!(r.list() == first);
    let moved = [2.0, 0.0, 0.0, 0.0, 0.0, 0.0, 1.0, 1.0];
    resources.update_instance(r, moved).unwrap();
    resources.build_instance_data(first).unwrap();
    resources.build_instance_data(second).unwrap();
    assert_eq!(resources.instance_list(first).instance_data(), &vec![moved]);
    assert_eq!(resources.instance_list(second).buffered_instance_count(), 0);
    assert_eq!(resources.remove_instance(r), Ok(()));
    assert_eq!(resources.remove_instance(r), Err(ResourceError::StaleHandle));
    assert_eq!(resources.update_instance(r, IDENTITY), Err(ResourceError::StaleHandle));
    assert_eq!(resources.set_instance_active(r, false), Err(ResourceError::StaleHandle));
    assert_eq!(resources.upload_instance_data(first, &[0u8; 400]), Ok(Some(500)));
}
