pub mod camera;
pub mod mesh;
pub mod vertex;
