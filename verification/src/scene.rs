//! What the renderer reads of a scene: its sprites with their entities and
//! materials, and the camera managers with their active cameras. Each thing
//! of the scene is known by an identity; matrices, colours and textures stay
//! with whoever owns the scene.

use vstd::prelude::*;

verus! {

/// What a sprite sees of the entity that it is attached to: the entity's
/// identity, and which transform components the entity carries.
#[derive(Clone, Copy, Debug, PartialEq, Eq)]
pub struct Entity {
    pub id: u64,
    pub transform3d: bool,
    pub transform2d: bool,
}

/// A vertex input of a shader program: its name and the location at which
/// the program reads it.
#[derive(Clone, Debug, PartialEq, Eq)]
pub struct ShaderAttribute {
    pub name: String,
    pub location: u32,
}

/// The vertex inputs of a material's shader program.
#[derive(Clone, Debug, PartialEq, Eq)]
pub struct Shader {
    pub attributes: Vec<ShaderAttribute>,
}

/// A material: a shader program with its uniforms and textures, known by
/// `id`, and the flag that asks for a wireframe.
#[derive(Clone, Debug, PartialEq, Eq)]
pub struct Material {
    pub id: u64,
    pub wireframe: bool,
    pub shader: Shader,
}

/// A sprite: a material on an entity. A sprite that is attached to no entity
/// has no place in the scene.
#[derive(Clone, Debug, PartialEq, Eq)]
pub struct Sprite {
    pub entity: Option<Entity>,
    pub material: Material,
}

/// The cameras of one kind. At most one of them is active; `active` is the
/// identity of the entity that carries it.
#[derive(Clone, Copy, Debug, PartialEq, Eq)]
pub struct CameraManager {
    pub active: Option<u64>,
}

/// A scene as one frame sees it. A manager that the scene does not have is
/// `None`; the sprites are in the order in which they were added.
#[derive(Clone, Debug, PartialEq, Eq)]
pub struct Scene {
    pub camera3d: Option<CameraManager>,
    pub camera2d: Option<CameraManager>,
    pub sprites: Option<Vec<Sprite>>,
}

} // verus!
