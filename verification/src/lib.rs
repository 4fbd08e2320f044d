//! Table logic of a Visual Pinball table viewer: the light and picking
//! state machines, the camera's keyboard steering, the material registry,
//! the ball texture lookup and the mesh index layout of walls and primitives.
//! Rendering, input and file access live in the application around it.

pub mod lights;
pub mod picking;
pub mod camera;
pub mod materials;
pub mod ball;
pub mod mesh;
pub mod gizmos;
