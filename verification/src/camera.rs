//! Which camera a frame is seen through.

use vstd::prelude::*;
use crate::scene::{CameraManager, Scene};

verus! {

/// Where the view and projection matrices of a frame come from: the active
/// 3D camera, the active 2D camera set into the XY plane, or, without an
/// active camera, the identity. Never more than one of them.
#[derive(Clone, Copy, Debug, PartialEq, Eq)]
pub enum CameraSource {
    Identity,
    Camera3D(u64),
    Camera2D(u64),
}

/// The active camera of a manager, if the scene has the manager and the
/// manager has an active camera.
pub open spec fn active_camera(manager: Option<CameraManager>) -> Option<u64> {
    match manager {
        Some(manager) => manager.active,
        None => None,
    }
}

/// The camera of a scene: the active 3D camera where there is one, else the
/// active 2D camera where there is one, else the identity. A manager without
/// an active camera counts as a manager that is not there.
pub open spec fn camera_source(scene: Scene) -> CameraSource {
    match active_camera(scene.camera3d) {
        Some(camera) => CameraSource::Camera3D(camera),
        None => match active_camera(scene.camera2d) {
            Some(camera) => CameraSource::Camera2D(camera),
            None => CameraSource::Identity,
        },
    }
}

fn get_active_camera(manager: &Option<CameraManager>) -> (camera: Option<u64>)
    ensures
        camera == active_camera(*manager),
{
    match manager {
        Some(manager) => manager.active,
        None => None,
    }
}

/// Chooses the camera of a frame.
pub fn resolve_camera(scene: &Scene) -> (source: CameraSource)
    ensures
        source == camera_source(*scene),
{
    match get_active_camera(&scene.camera3d) {
        Some(camera) => CameraSource::Camera3D(camera),
        None => match get_active_camera(&scene.camera2d) {
            Some(camera) => CameraSource::Camera2D(camera),
            None => CameraSource::Identity,
        },
    }
}

/// A scene whose 2D manager has an active camera is seen through that
/// camera whenever no 3D camera is active: when the scene has no 3D manager,
/// and also when it has one whose cameras are all inactive.
pub proof fn lemma_camera2d_without_active_camera3d(scene: Scene, camera: u64)
    requires
        active_camera(scene.camera3d) is None,
        scene.camera2d == Some(CameraManager { active: Some(camera) }),
    ensures
        camera_source(scene) == CameraSource::Camera2D(camera),
{
}

/// An active 3D camera is always the one that is used, whatever the 2D
/// manager holds.
pub proof fn lemma_camera3d_first(scene: Scene, camera: u64)
    requires
        scene.camera3d == Some(CameraManager { active: Some(camera) }),
    ensures
        camera_source(scene) == CameraSource::Camera3D(camera),
{
}

/// Without an active camera of either kind a frame is seen through the
/// identity.
pub proof fn lemma_camera_identity(scene: Scene)
    requires
        active_camera(scene.camera3d) is None,
        active_camera(scene.camera2d) is None,
    ensures
        camera_source(scene) == CameraSource::Identity,
{
}

} // verus!
