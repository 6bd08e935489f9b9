use mini_engine::graphics::camera::Camera;
use mini_engine::graphics::mesh::{Mesh, PrimitiveType};
use mini_engine::graphics::vertex::Vertex;
use mini_engine::scene::Scene;

fn plain_vertex(x: f32) -> Vertex {
    Vertex {
        pos_x: x.to_bits(),
        pos_y: 0.0f32.to_bits(),
        pos_z: 0.0f32.to_bits(),
        col_r: 1.0f32.to_bits(),
        col_g: 1.0f32.to_bits(),
        col_b: 1.0f32.to_bits(),
        col_a: 1.0f32.to_bits(),
        tex_u: 0.0f32.to_bits(),
        tex_v: 0.0f32.to_bits(),
    }
}

fn mesh_with_marker(x: f32) -> Mesh {
    let vs = vec![plain_vertex(x), plain_vertex(x + 1.0), plain_vertex(x + 2.0)];
    Mesh::new(vs, vec![0, 1, 2], PrimitiveType::TrianglesList).unwrap()
}

fn camera() -> Camera {
    Camera::new(
        1.0f32.to_bits(),
        (16.0f32 / 9.0f32).to_bits(),
        0.1f32.to_bits(),
        100.0f32.to_bits(),
    )
}

#[test]
fn added_identifiers_are_pairwise_distinct() {
    let mut scene: Scene<Mesh> = Scene::new(camera());
    let mut ids = Vec::new();
    for k in 0..16 {
        assert!(scene.can_add());
        ids.push(scene.add_object(mesh_with_marker(k as f32)));
    }
    for i in 0..ids.len() {
        for j in 0..ids.len() {
            if i != j {
                assert_ne!(ids[i], ids[j]);
            }
        }
    }
}

#[test]
fn remove_returns_object_and_later_lookup_misses() {
    let mut scene: Scene<Mesh> = Scene::new(camera());
    let id_a = scene.add_object(mesh_with_marker(0.0));
    let id_b = scene.add_object(mesh_with_marker(10.0));
    let removed = scene.remove_object(&id_a).expect("the object was present");
    assert_eq!(removed.vertices[0], plain_vertex(0.0));
    // A draw of the removed identifier is a no-op: nothing resolves any more.
    assert!(scene.get(&id_a).is_none());
    // Removing it again reports absence, a normal outcome.
    assert!(scene.remove_object(&id_a).is_none());
    // The other object is untouched.
    let kept = scene.get(&id_b).expect("the other object stays");
    assert_eq!(kept.vertices[0], plain_vertex(10.0));
    assert_eq!(scene.len(), 1);
}

#[test]
fn removed_identifier_is_never_reused() {
    let mut scene: Scene<Mesh> = Scene::new(camera());
    let id_a = scene.add_object(mesh_with_marker(0.0));
    assert!(scene.remove_object(&id_a).is_some());
    let id_b = scene.add_object(mesh_with_marker(1.0));
    assert_ne!(id_a, id_b);
}

#[test]
fn lookup_finds_what_was_added() {
    let mut scene: Scene<Mesh> = Scene::new(camera());
    let id = scene.add_object(mesh_with_marker(5.0));
    let got = scene.get(&id).expect("freshly added object resolves");
    assert_eq!(got.vertices[0], plain_vertex(5.0));
    assert_eq!(got.indices, vec![0, 1, 2]);
}

#[test]
fn registry_walk_sees_every_object() {
    let mut scene: Scene<Mesh> = Scene::new(camera());
    for k in 0..4 {
        scene.add_object(mesh_with_marker(k as f32 * 8.0));
    }
    assert_eq!(scene.len(), 4);
    let mut seen = Vec::new();
    for k in 0..scene.len() {
        seen.push(scene.object_at(k).vertices[0]);
    }
    for k in 0..4 {
        assert!(seen.contains(&plain_vertex(k as f32 * 8.0)));
    }
}

#[test]
fn scene_keeps_its_camera() {
    let scene: Scene<Mesh> = Scene::new(camera());
    let p = scene.camera().proj_mat();
    assert_eq!(p.fovy, 1.0f32.to_bits());
    assert_eq!(p.aspect, (16.0f32 / 9.0f32).to_bits());
    assert_eq!(p.near, 0.1f32.to_bits());
    assert_eq!(p.far, 100.0f32.to_bits());
}
