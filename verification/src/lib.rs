pub mod contact;
pub mod fixed;
pub mod flags;
pub mod laws;
pub mod narrow_phase;
pub mod record;
pub mod rigid_body;
pub mod shape;
pub mod vec3;
