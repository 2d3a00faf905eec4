use sprite_gl_renderer::camera::{resolve_camera, CameraSource};
use sprite_gl_renderer::scene::{CameraManager, Entity, Scene};
use sprite_gl_renderer::transform::{resolve_transform, TransformSource};

fn scene(camera3d: Option<CameraManager>, camera2d: Option<CameraManager>) -> Scene {
    Scene { camera3d, camera2d, sprites: None }
}

#[test]
fn active_camera3d_is_used() {
    let s = scene(Some(CameraManager { active: Some(4) }), None);
    assert_eq!(resolve_camera(&s), CameraSource::Camera3D(4));
}

#[test]
fn active_camera3d_wins_over_active_camera2d() {
    let s = scene(Some(CameraManager { active: Some(4) }), Some(CameraManager { active: Some(9) }));
    assert_eq!(resolve_camera(&s), CameraSource::Camera3D(4));
}

#[test]
fn camera2d_is_used_without_a_camera3d_manager() {
    let s = scene(None, Some(CameraManager { active: Some(9) }));
    assert_eq!(resolve_camera(&s), CameraSource::Camera2D(9));
}

#[test]
fn camera2d_is_used_when_the_camera3d_manager_has_no_active_camera() {
    let s = scene(Some(CameraManager { active: None }), Some(CameraManager { active: Some(9) }));
    assert_eq!(resolve_camera(&s), CameraSource::Camera2D(9));
}

#[test]
fn identity_without_any_manager() {
    assert_eq!(resolve_camera(&scene(None, None)), CameraSource::Identity);
}

#[test]
fn identity_when_no_manager_has_an_active_camera() {
    let idle = Some(CameraManager { active: None });
    assert_eq!(resolve_camera(&scene(idle, idle)), CameraSource::Identity);
    assert_eq!(resolve_camera(&scene(idle, None)), CameraSource::Identity);
    assert_eq!(resolve_camera(&scene(None, idle)), CameraSource::Identity);
}

#[test]
fn transform3d_is_used() {
    let entity = Entity { id: 3, transform3d: true, transform2d: false };
    assert_eq!(resolve_transform(&Some(entity)), Some(TransformSource::Transform3D(3)));
}

#[test]
fn transform3d_wins_over_transform2d() {
    let entity = Entity { id: 3, transform3d: true, transform2d: true };
    assert_eq!(resolve_transform(&Some(entity)), Some(TransformSource::Transform3D(3)));
}

#[test]
fn transform2d_is_used_without_a_transform3d() {
    let entity = Entity { id: 8, transform3d: false, transform2d: true };
    assert_eq!(resolve_transform(&Some(entity)), Some(TransformSource::Transform2D(8)));
}

#[test]
fn no_transform_without_either_component() {
    let entity = Entity { id: 8, transform3d: false, transform2d: false };
    assert_eq!(resolve_transform(&Some(entity)), None);
}

#[test]
fn no_transform_without_an_entity() {
    assert_eq!(resolve_transform(&None), None);
}
