use nvgx::mesh::{align_size, Mesh, MeshError};

#[test]
fn align_size_rounds_up_to_power_of_two() {
    assert_eq!(align_size::<1024>(0), 0);
    assert_eq!(align_size::<1024>(1), 1024);
    assert_eq!(align_size::<1024>(1024), 1024);
    assert_eq!(align_size::<1024>(1025), 2048);
    assert_eq!(align_size::<4>(13), 16);
    assert_eq!(align_size::<1>(13), 13);
    assert_eq!(align_size::<1024>(usize::MAX - 1023), usize::MAX - 1023);
    assert_eq!(align_size::<4>(usize::MAX - 4), usize::MAX - 3);
    assert_eq!(align_size::<1>(usize::MAX), usize::MAX);
}

#[test]
fn triangle_fan_indices_follow_the_fan() {
    let got: Vec<u32> = (0..12).map(Mesh::triangle_fan_indices).collect();
    assert_eq!(got, vec![0, 1, 2, 0, 2, 3, 0, 3, 4, 0, 4, 5]);
    assert_eq!(Mesh::triangle_fan_indices(u32::MAX), 0);
    assert_eq!(Mesh::triangle_fan_indices(u32::MAX - 1), (u32::MAX - 1) / 3 + 2);
}

#[test]
fn new_mesh_covers_initial_triangles() {
    let m = Mesh::new(4);
    assert_eq!(m.indices, vec![0, 1, 2, 0, 2, 3, 0, 3, 4, 0, 4, 5]);
    assert_eq!(m.index_buffer_size, 48);
    assert_eq!(m.vertex_buffer_size, 1024);
    let m = Mesh::new(0);
    assert!(m.indices.is_empty());
    assert_eq!(m.vertex_buffer_size, 0);
}

#[test]
fn create_buffer_rounds_to_kilobytes() {
    assert_eq!(Mesh::create_buffer(0), 0);
    assert_eq!(Mesh::create_buffer(10 * 1024), 10 * 1024);
    assert_eq!(Mesh::create_buffer(10 * 1024 + 1), 11 * 1024);
}

#[test]
fn update_indices_grows_only_when_needed() {
    let mut m = Mesh::new(2);
    assert!(!m.update_indices(1));
    assert_eq!(m.indices.len(), 6);
    assert!(!m.update_indices(2));
    assert!(m.update_indices(3));
    assert_eq!(m.indices, vec![0, 1, 2, 0, 2, 3, 0, 3, 4]);
    assert_eq!(m.index_buffer_size, 36);
    assert!(!m.update_indices(3));
    assert_eq!(m.index_buffer_size, 36);
}

#[test]
fn update_buffer_refuses_oversized_data() {
    assert_eq!(Mesh::update_buffer(100, 100), Ok(()));
    assert_eq!(Mesh::update_buffer(100, 101), Err(MeshError::VertexBufferOutOfMemory));
    assert_eq!(Mesh::update_buffer(0, 0), Ok(()));
}

#[test]
fn update_inner_buffer_grows_to_data() {
    let mut m = Mesh::new(1);
    assert_eq!(m.vertex_buffer_size, 1024);
    assert!(!m.update_inner_buffer(1000));
    assert_eq!(m.vertex_buffer_size, 1024);
    assert!(m.update_inner_buffer(5000));
    assert_eq!(m.vertex_buffer_size, 5000);
    assert_eq!(m.indices.len(), 3);
}
