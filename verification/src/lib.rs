//! Verified core of a sprite renderer: the shared quad mesh, camera and
//! transform resolution, the backend context with its resource caches, and
//! the per-frame loop that turns sprites into backend commands.

pub mod backend;
pub mod camera;
pub mod context;
pub mod geometry;
pub mod renderer;
pub mod scene;
pub mod transform;
pub mod wireframe;

pub use renderer::SpriteGLRenderer;
