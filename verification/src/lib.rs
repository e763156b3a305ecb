//! Verified core of an interactive height-field terrain editor.
//!
//! The library covers the camera / ray / terrain interaction loop: translating
//! platform input into a per-frame snapshot, first-person camera state with a
//! ray-through-pixel query, ray marching against a height-field, and the
//! brush that sculpts it. All continuous quantities are fixed-point integers
//! (see [`fixed`]); windowing, OpenGL and the GUI layer are outside
//! collaborators and live with the callers.

pub mod fixed;
pub mod vec3;
pub mod input;
pub mod camera;
pub mod editor;
pub mod mat4;
pub mod ray;
pub mod terrain;
