use mini_engine::graphics::camera::{Camera, Projection, Rotation, Vec3, ViewTransform};

type Mat4 = [[f32; 4]; 4];

fn v3(x: f32, y: f32, z: f32) -> Vec3 {
    Vec3 { x: x.to_bits(), y: y.to_bits(), z: z.to_bits() }
}

fn identity() -> Mat4 {
    let mut m = [[0.0f32; 4]; 4];
    for k in 0..4 {
        m[k][k] = 1.0;
    }
    m
}

// Column-major product, the convention rendering stacks use.
fn mat_mul(a: &Mat4, b: &Mat4) -> Mat4 {
    let mut m = [[0.0f32; 4]; 4];
    for c in 0..4 {
        for r in 0..4 {
            let mut acc = 0.0f32;
            for k in 0..4 {
                acc += a[k][r] * b[c][k];
            }
            m[c][r] = acc;
        }
    }
    m
}

fn translate_mat(v: &Vec3) -> Mat4 {
    let mut m = identity();
    m[3][0] = f32::from_bits(v.x);
    m[3][1] = f32::from_bits(v.y);
    m[3][2] = f32::from_bits(v.z);
    m
}

fn scale_mat(v: &Vec3) -> Mat4 {
    let mut m = identity();
    m[0][0] = f32::from_bits(v.x);
    m[1][1] = f32::from_bits(v.y);
    m[2][2] = f32::from_bits(v.z);
    m
}

fn rotate_mat(r: &Rotation) -> Mat4 {
    let x = f32::from_bits(r.axis.x);
    let y = f32::from_bits(r.axis.y);
    let z = f32::from_bits(r.axis.z);
    let a = f32::from_bits(r.angle);
    let (s, c) = a.sin_cos();
    let t = 1.0 - c;
    let mut m = identity();
    m[0][0] = c + t * x * x;
    m[0][1] = t * x * y + s * z;
    m[0][2] = t * x * z - s * y;
    m[1][0] = t * x * y - s * z;
    m[1][1] = c + t * y * y;
    m[1][2] = t * y * z + s * x;
    m[2][0] = t * x * z + s * y;
    m[2][1] = t * y * z - s * x;
    m[2][2] = c + t * z * z;
    m
}

// Folds the view transform exactly as a rendering host evaluates it: each
// component starts at the identity and multiplies its increments on the
// right, and the view matrix is T * S * R.
fn eval_view(v: &ViewTransform) -> Mat4 {
    let mut t = identity();
    for inc in &v.translations {
        t = mat_mul(&t, &translate_mat(inc));
    }
    let mut s = identity();
    for inc in &v.scalings {
        s = mat_mul(&s, &scale_mat(inc));
    }
    let mut r = identity();
    for inc in &v.rotations {
        r = mat_mul(&r, &rotate_mat(inc));
    }
    mat_mul(&mat_mul(&t, &s), &r)
}

fn assert_mat_close(a: &Mat4, b: &Mat4) {
    for c in 0..4 {
        for r in 0..4 {
            assert!(
                (a[c][r] - b[c][r]).abs() < 1e-5,
                "entry ({c},{r}): {} vs {}",
                a[c][r],
                b[c][r]
            );
        }
    }
}

fn fresh_camera() -> Camera {
    Camera::new(
        1.0f32.to_bits(),
        (16.0f32 / 9.0f32).to_bits(),
        0.1f32.to_bits(),
        100.0f32.to_bits(),
    )
}

#[test]
fn new_camera_has_no_accumulated_transform() {
    let c = fresh_camera();
    let v = c.view_mat();
    assert!(v.translations.is_empty());
    assert!(v.scalings.is_empty());
    assert!(v.rotations.is_empty());
    assert_mat_close(&eval_view(&v), &identity());
}

#[test]
fn projection_is_fixed_at_construction() {
    let c = fresh_camera();
    let p = c.proj_mat();
    assert_eq!(
        p,
        Projection {
            fovy: 1.0f32.to_bits(),
            aspect: (16.0f32 / 9.0f32).to_bits(),
            near: 0.1f32.to_bits(),
            far: 100.0f32.to_bits(),
        }
    );
    let mut c = c;
    c.rotate(v3(0.0, 0.0, 1.0), 0.5f32.to_bits());
    c.scale(v3(2.0, 2.0, 2.0));
    c.translate(v3(1.0, 0.0, 0.0));
    assert_eq!(c.proj_mat(), p);
}

#[test]
fn view_is_translation_scale_rotation_in_order() {
    let mut c = fresh_camera();
    let tv = v3(1.0, 2.0, 3.0);
    let sv = v3(2.0, 3.0, 4.0);
    let axis = v3(0.0, 1.0, 0.0);
    let angle = 0.75f32.to_bits();
    c.translate(tv);
    c.scale(sv);
    c.rotate(axis, angle);

    let v = c.view_mat();
    // Each component reflects exactly its one incremental operation.
    assert_eq!(v.translations, vec![tv]);
    assert_eq!(v.scalings, vec![sv]);
    assert_eq!(v.rotations, vec![Rotation { axis, angle }]);

    // The evaluated view matrix is the product T * S * R of the
    // directly-constructed reference matrices, in this exact order.
    let reference = mat_mul(
        &mat_mul(&translate_mat(&tv), &scale_mat(&sv)),
        &rotate_mat(&Rotation { axis, angle }),
    );
    assert_mat_close(&eval_view(&v), &reference);
}

#[test]
fn mutation_order_does_not_rearrange_components() {
    // The same increments handed over in a different call order land in the
    // same components, so the view transform is identical.
    let tv = v3(-1.0, 0.5, 2.0);
    let sv = v3(1.5, 1.5, 1.5);
    let axis = v3(1.0, 0.0, 0.0);
    let angle = 0.25f32.to_bits();

    let mut c1 = fresh_camera();
    c1.translate(tv);
    c1.scale(sv);
    c1.rotate(axis, angle);

    let mut c2 = fresh_camera();
    c2.rotate(axis, angle);
    c2.translate(tv);
    c2.scale(sv);

    let v1 = c1.view_mat();
    let v2 = c2.view_mat();
    assert_eq!(v1.translations, v2.translations);
    assert_eq!(v1.scalings, v2.scalings);
    assert_eq!(v1.rotations, v2.rotations);
}

#[test]
fn sequential_rotations_compose_rather_than_overwrite() {
    let axis = v3(0.0, 0.0, 1.0);
    let eighth = (std::f32::consts::FRAC_PI_4).to_bits();
    let quarter = (std::f32::consts::FRAC_PI_2).to_bits();

    let mut twice = fresh_camera();
    twice.rotate(axis, eighth);
    twice.rotate(axis, eighth);
    let v_twice = twice.view_mat();
    // Both increments are retained, in call order.
    assert_eq!(
        v_twice.rotations,
        vec![Rotation { axis, angle: eighth }, Rotation { axis, angle: eighth }]
    );

    // Numerically, two 45-degree rotations about one axis equal one
    // 90-degree rotation: the calls multiplied, they did not overwrite.
    let mut once = fresh_camera();
    once.rotate(axis, quarter);
    assert_mat_close(&eval_view(&v_twice), &eval_view(&once.view_mat()));
}

#[test]
fn evaluation_matches_the_glm_reference() {
    // The same composition, evaluated here and composed with glm directly:
    // identity times T, then times S, then times R about a unit axis.
    let mut c = fresh_camera();
    c.translate(v3(1.0, 2.0, 3.0));
    c.scale(v3(2.0, 0.5, 1.5));
    c.rotate(v3(0.0, 0.0, 1.0), 0.6f32.to_bits());
    let ours = eval_view(&c.view_mat());

    let id: glm::Mat4 = num::one();
    let t = glm::ext::translate(&id, glm::vec3(1.0, 2.0, 3.0));
    let ts = glm::ext::scale(&t, glm::vec3(2.0, 0.5, 1.5));
    let tsr = glm::ext::rotate(&ts, 0.6, glm::vec3(0.0, 0.0, 1.0));

    for col in 0..4 {
        for row in 0..4 {
            let reference = tsr.as_array()[col].as_array()[row];
            assert!(
                (ours[col][row] - reference).abs() < 1e-5,
                "entry ({col},{row}): {} vs {}",
                ours[col][row],
                reference
            );
        }
    }
}

#[test]
fn scales_and_translations_accumulate() {
    let mut c = fresh_camera();
    c.scale(v3(2.0, 2.0, 2.0));
    c.scale(v3(3.0, 1.0, 1.0));
    c.translate(v3(1.0, 0.0, 0.0));
    c.translate(v3(0.0, 1.0, 0.0));
    let v = c.view_mat();
    assert_eq!(v.scalings, vec![v3(2.0, 2.0, 2.0), v3(3.0, 1.0, 1.0)]);
    assert_eq!(v.translations, vec![v3(1.0, 0.0, 0.0), v3(0.0, 1.0, 0.0)]);

    let m = eval_view(&v);
    // The scale diagonal is the product of the increments and the
    // translation column their sum.
    assert!((m[0][0] - 6.0).abs() < 1e-5);
    assert!((m[1][1] - 2.0).abs() < 1e-5);
    assert!((m[2][2] - 2.0).abs() < 1e-5);
    assert!((m[3][0] - 1.0).abs() < 1e-5);
    assert!((m[3][1] - 1.0).abs() < 1e-5);
}
