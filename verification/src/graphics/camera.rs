use vstd::prelude::*;

verus! {

/// A three-component vector whose components are stored as the bit patterns
/// of IEEE 754 single-precision values. The core never does arithmetic on
/// them; the rendering adapter turns them back into hardware floats.
#[derive(Clone, Copy, Debug, PartialEq, Eq, Structural)]
pub struct Vec3 {
    pub x: u32,
    pub y: u32,
    pub z: u32,
}

/// One incremental rotation: an axis and an angle in radians, the angle
/// stored as an IEEE 754 single-precision bit pattern.
#[derive(Clone, Copy, Debug, PartialEq, Eq, Structural)]
pub struct Rotation {
    pub axis: Vec3,
    pub angle: u32,
}

/// The fixed perspective-projection parameters, recorded once when the camera
/// is built and never changed afterwards. Each field is an IEEE 754
/// single-precision bit pattern.
#[derive(Clone, Copy, Debug, PartialEq, Eq, Structural)]
pub struct Projection {
    pub fovy: u32,
    pub aspect: u32,
    pub near: u32,
    pub far: u32,
}

/// The camera's composed view transform, presented as the three sequences of
/// incremental transforms in composition order: translations outermost, then
/// scalings, then rotations. Evaluating it means folding each sequence into
/// its matrix — starting from the identity and multiplying each increment on
/// the right — and taking the matrix product T * S * R in this exact order.
pub struct ViewTransform {
    pub translations: Vec<Vec3>,
    pub scalings: Vec<Vec3>,
    pub rotations: Vec<Rotation>,
}

/// A camera: three cumulative component transforms that together form the
/// view transform, and a fixed projection. Each mutator composes a new
/// increment onto its own component — it never resets the component and never
/// touches the other two — so repeated calls accumulate.
pub struct Camera {
    translations: Vec<Vec3>,
    scalings: Vec<Vec3>,
    rotations: Vec<Rotation>,
    projection: Projection,
}

impl Camera {
    /// The accumulated incremental translations, oldest first.
    pub closed spec fn spec_translations(self) -> Seq<Vec3> {
        self.translations@
    }

    /// The accumulated incremental scalings, oldest first.
    pub closed spec fn spec_scalings(self) -> Seq<Vec3> {
        self.scalings@
    }

    /// The accumulated incremental rotations, oldest first.
    pub closed spec fn spec_rotations(self) -> Seq<Rotation> {
        self.rotations@
    }

    /// The projection parameters the camera was built with.
    pub closed spec fn spec_projection(self) -> Projection {
        self.projection
    }

    /// A camera with no accumulated transform and a projection fixed from the
    /// field of view, aspect ratio and near/far planes (single-precision bit
    /// patterns).
    pub fn new(fovy: u32, aratio: u32, near: u32, far: u32) -> (c: Camera)
        ensures
            c.spec_translations() == Seq::<Vec3>::empty(),
            c.spec_scalings() == Seq::<Vec3>::empty(),
            c.spec_rotations() == Seq::<Rotation>::empty(),
            c.spec_projection() == (Projection { fovy, aspect: aratio, near, far }),
    {
        let c = Camera {
            translations: Vec::new(),
            scalings: Vec::new(),
            rotations: Vec::new(),
            projection: Projection { fovy, aspect: aratio, near, far },
        };
        proof {
            assert(c.spec_translations() =~= Seq::<Vec3>::empty());
            assert(c.spec_scalings() =~= Seq::<Vec3>::empty());
            assert(c.spec_rotations() =~= Seq::<Rotation>::empty());
        }
        c
    }

    /// Composes one more rotation onto the rotation component; the other
    /// components and the projection stay as they were.
    pub fn rotate(&mut self, axis: Vec3, angle: u32)
        ensures
            rotate_step(*old(self), *final(self), Rotation { axis, angle }),
    {
        self.rotations.push(Rotation { axis, angle });
    }

    /// Composes one more scaling onto the scale component; the other
    /// components and the projection stay as they were.
    pub fn scale(&mut self, scale_vec: Vec3)
        ensures
            scale_step(*old(self), *final(self), scale_vec),
    {
        self.scalings.push(scale_vec);
    }

    /// Composes one more translation onto the translation component; the
    /// other components and the projection stay as they were.
    pub fn translate(&mut self, trans_vec: Vec3)
        ensures
            translate_step(*old(self), *final(self), trans_vec),
    {
        self.translations.push(trans_vec);
    }

    /// The composed view transform: the three accumulated components, in the
    /// composition order translation, then scale, then rotation.
    pub fn view_mat(&self) -> (v: ViewTransform)
        ensures
            v.translations@ == self.spec_translations(),
            v.scalings@ == self.spec_scalings(),
            v.rotations@ == self.spec_rotations(),
    {
        let translations = clone_vec3s(&self.translations);
        let scalings = clone_vec3s(&self.scalings);
        let rotations = clone_rotations(&self.rotations);
        ViewTransform { translations, scalings, rotations }
    }

    /// The fixed projection parameters.
    pub fn proj_mat(&self) -> (p: Projection)
        ensures
            p == self.spec_projection(),
    {
        self.projection
    }
}

/// Copies a list of vectors element by element.
fn clone_vec3s(v: &Vec<Vec3>) -> (r: Vec<Vec3>)
    ensures
        r@ == v@,
{
    let mut r: Vec<Vec3> = Vec::new();
    let mut k: usize = 0;
    while k < v.len()
        invariant
            k <= v@.len(),
            r@ == v@.take(k as int),
        decreases v@.len() - k,
    {
        r.push(v[k]);
        proof {
            assert(v@.take(k as int).push(v@[k as int]) =~= v@.take((k + 1) as int));
        }
        k = k + 1;
    }
    proof {
        assert(v@.take(v@.len() as int) =~= v@);
    }
    r
}

/// Copies a list of rotations element by element.
fn clone_rotations(v: &Vec<Rotation>) -> (r: Vec<Rotation>)
    ensures
        r@ == v@,
{
    let mut r: Vec<Rotation> = Vec::new();
    let mut k: usize = 0;
    while k < v.len()
        invariant
            k <= v@.len(),
            r@ == v@.take(k as int),
        decreases v@.len() - k,
    {
        r.push(v[k]);
        proof {
            assert(v@.take(k as int).push(v@[k as int]) =~= v@.take((k + 1) as int));
        }
        k = k + 1;
    }
    proof {
        assert(v@.take(v@.len() as int) =~= v@);
    }
    r
}

/// What one `rotate` call does: it appends to the rotation component and
/// leaves everything else unchanged.
pub open spec fn rotate_step(pre: Camera, post: Camera, r: Rotation) -> bool {
    &&& post.spec_rotations() == pre.spec_rotations().push(r)
    &&& post.spec_translations() == pre.spec_translations()
    &&& post.spec_scalings() == pre.spec_scalings()
    &&& post.spec_projection() == pre.spec_projection()
}

/// What one `scale` call does: it appends to the scale component and leaves
/// everything else unchanged.
pub open spec fn scale_step(pre: Camera, post: Camera, s: Vec3) -> bool {
    &&& post.spec_scalings() == pre.spec_scalings().push(s)
    &&& post.spec_translations() == pre.spec_translations()
    &&& post.spec_rotations() == pre.spec_rotations()
    &&& post.spec_projection() == pre.spec_projection()
}

/// What one `translate` call does: it appends to the translation component
/// and leaves everything else unchanged.
pub open spec fn translate_step(pre: Camera, post: Camera, t: Vec3) -> bool {
    &&& post.spec_translations() == pre.spec_translations().push(t)
    &&& post.spec_scalings() == pre.spec_scalings()
    &&& post.spec_rotations() == pre.spec_rotations()
    &&& post.spec_projection() == pre.spec_projection()
}

/// Transform composition order: on a fresh camera, one `translate`, one
/// `scale` and one `rotate` leave a view transform whose components are
/// exactly the single increments handed in, in the order translation, then
/// scale, then rotation — so the evaluated view matrix is T * S * R, with
/// each factor reflecting only its own incremental operation.
pub proof fn lemma_transform_composition_order(
    c0: Camera,
    c1: Camera,
    c2: Camera,
    c3: Camera,
    t: Vec3,
    s: Vec3,
    r: Rotation,
)
    requires
        c0.spec_translations() == Seq::<Vec3>::empty(),
        c0.spec_scalings() == Seq::<Vec3>::empty(),
        c0.spec_rotations() == Seq::<Rotation>::empty(),
        translate_step(c0, c1, t),
        scale_step(c1, c2, s),
        rotate_step(c2, c3, r),
    ensures
        c3.spec_translations() == seq![t],
        c3.spec_scalings() == seq![s],
        c3.spec_rotations() == seq![r],
        c3.spec_projection() == c0.spec_projection(),
{
    assert(c3.spec_translations() =~= seq![t]);
    assert(c3.spec_scalings() =~= seq![s]);
    assert(c3.spec_rotations() =~= seq![r]);
}

/// Camera mutation is cumulative: two sequential `rotate` calls compose — the
/// rotation component afterwards is the old component extended by both
/// increments in call order, never overwritten.
pub proof fn lemma_camera_cumulative_rotation(
    c0: Camera,
    c1: Camera,
    c2: Camera,
    r1: Rotation,
    r2: Rotation,
)
    requires
        rotate_step(c0, c1, r1),
        rotate_step(c1, c2, r2),
    ensures
        c2.spec_rotations() == c0.spec_rotations() + seq![r1, r2],
        c2.spec_translations() == c0.spec_translations(),
        c2.spec_scalings() == c0.spec_scalings(),
        c2.spec_projection() == c0.spec_projection(),
{
    assert(c2.spec_rotations() =~= c0.spec_rotations() + seq![r1, r2]);
}

} // verus!
