use vstd::prelude::*;

verus! {

/// A vertex of an indexed mesh: a three-component position, an RGBA colour
/// and a two-component texture coordinate.
///
/// Every component is stored as the bit pattern of an IEEE 754
/// single-precision value. The core never does arithmetic on the components;
/// it only compares them, so two vertices are equal exactly when all their
/// stored bits are equal. The rendering adapter converts the bit patterns to
/// hardware floats on the way to the GPU.
#[derive(Clone, Copy, Debug, PartialEq, Eq, Structural)]
pub struct Vertex {
    pub pos_x: u32,
    pub pos_y: u32,
    pub pos_z: u32,
    pub col_r: u32,
    pub col_g: u32,
    pub col_b: u32,
    pub col_a: u32,
    pub tex_u: u32,
    pub tex_v: u32,
}

} // verus!
