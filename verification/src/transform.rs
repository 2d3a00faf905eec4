//! Which transform places a sprite.

use vstd::prelude::*;
use crate::scene::Entity;

verus! {

/// The transform component that gives a sprite its model-view and normal
/// matrices, with the identity of the entity that carries it.
#[derive(Clone, Copy, Debug, PartialEq, Eq)]
pub enum TransformSource {
    Transform3D(u64),
    Transform2D(u64),
}

/// The transform of a sprite's entity: its 3D transform where it has one,
/// else its 2D transform where it has one. A sprite without an entity, or on
/// an entity with neither, has none.
pub open spec fn transform_source(entity: Option<Entity>) -> Option<TransformSource> {
    match entity {
        Some(entity) => if entity.transform3d {
            Some(TransformSource::Transform3D(entity.id))
        } else if entity.transform2d {
            Some(TransformSource::Transform2D(entity.id))
        } else {
            None
        },
        None => None,
    }
}

/// Chooses the transform of a sprite's entity.
pub fn resolve_transform(entity: &Option<Entity>) -> (source: Option<TransformSource>)
    ensures
        source == transform_source(*entity),
{
    match entity {
        Some(entity) => if entity.transform3d {
            Some(TransformSource::Transform3D(entity.id))
        } else if entity.transform2d {
            Some(TransformSource::Transform2D(entity.id))
        } else {
            None
        },
        None => None,
    }
}

} // verus!
