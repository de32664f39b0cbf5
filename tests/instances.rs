use shaderunner::error::ResourceError;
use shaderunner::handle::Handle;
use shaderunner::instance::Instance;
use shaderunner::instance_list::InstanceList;
use shaderunner::mesh::Mesh;
use shaderunner::pipeline::Pipeline;

type Transform = [f32; 8];

const IDENTITY: Transform = [0.0, 0.0, 0.0, 0.0, 0.0, 0.0, 1.0, 1.0];

fn moved(x: f32) -> Transform {
    [x, 0.0, 0.0, 0.0, 0.0, 0.0, 1.0, 1.0]
}

fn empty_list() -> InstanceList<Transform> {
    let mesh: Handle<Mesh> = Handle::new((0, 0));
    let pipeline: Handle<Pipeline> = Handle::new((0, 0));
    InstanceList::new(mesh, pipeline)
}

#[test]
fn instance_visibility_correctness() {
    let mut list = empty_list();
    let i1 = list.add_instance(moved(1.0));
    let i2 = list.add_instance(moved(2.0));
    let i3 = list.add_instance(moved(3.0));
    assert_eq!(list.set_instance_active(i2, false), Ok(()));
    list.build_instance_data();
    assert_eq!(list.buffered_instance_count(), 2);
    assert_eq!(list.instance_data(), &vec![moved(1.0), moved(3.0)]);
    assert_eq!(list.instance_count(), 3);
    let _ = (i1, i3);
}

#[test]
fn staged_data_follows_the_last_rebuild_only() {
    let mut list = empty_list();
    let a = list.add_instance(moved(1.0));
    list.build_instance_data();
    assert_eq!(list.buffered_instance_count(), 1);
    list.add_instance(moved(2.0));
    list.update_instance(a, moved(5.0)).unwrap();
    assert_eq!(list.instance_data(), &vec![moved(1.0)]);
    list.build_instance_data();
    assert_eq!(list.instance_data(), &vec![moved(5.0), moved(2.0)]);
}

#[test]
fn stale_instance_handles_are_refused() {
    let mut list = empty_list();
    let a = list.add_instance(IDENTITY);
    assert_eq!(list.remove_instance(a), Ok(()));
    assert_eq!(list.remove_instance(a), Err(ResourceError::StaleHandle));
    assert_eq!(list.update_instance(a, IDENTITY), Err(ResourceError::StaleHandle));
    assert_eq!(list.set_instance_active(a, true), Err(ResourceError::StaleHandle));
    let b = list.add_instance(moved(4.0));
    assert!(!list.contains_instance(a));
    assert!(list.contains_instance(b));
    list.build_instance_data();
    assert_eq!(list.instance_data(), &vec![moved(4.0)]);
}

#[test]
fn upload_reports_growth_of_the_instance_buffer() {
    let mut list = empty_list();
    assert_eq!(list.instance_buffer().capacity(), 100);
    assert_eq!(list.upload_instance_data(&[0u8; 100]), None);
    assert_eq!(list.upload_instance_data(&[0u8; 200]), Some(252));
    assert_eq!(list.instance_buffer().size(), 200);
}

#[test]
fn instance_starts_active_and_toggles() {
    let mut instance = Instance::new(IDENTITY);
    assert!(instance.active());
    instance.set_active(false);
    assert!(!instance.active());
    instance.set_transform(moved(2.0));
    assert_eq!(*instance.transform(), moved(2.0));
    assert!(!instance.active());
}
