use voxel_game::camera::camera_frame;
use voxel_game::camera::Vec3;
use voxel_game::camera::ViewMatrixError;

#[test]
fn teapot_scene_frame() {
    let position = Vec3 { x: 2, y: -1, z: 1 };
    let direction = Vec3 { x: -2, y: 1, z: 1 };
    let up_hint = Vec3 { x: 0, y: 1, z: 0 };
    let frame = camera_frame(position, direction, up_hint).unwrap();
    assert_eq!(frame.right, Vec3 { x: 1, y: 0, z: 2 });
    assert_eq!(frame.up, Vec3 { x: 2, y: 5, z: -1 });
    assert_eq!(frame.forward, Vec3 { x: -2, y: 1, z: 1 });
    assert_eq!(frame.translation, Vec3 { x: -4, y: 2, z: 4 });
}

#[test]
fn zero_direction_rejected() {
    let position = Vec3 { x: 2, y: -1, z: 1 };
    let direction = Vec3 { x: 0, y: 0, z: 0 };
    let up_hint = Vec3 { x: 0, y: 1, z: 0 };
    let result = camera_frame(position, direction, up_hint);
    assert_eq!(result, Err(ViewMatrixError::DegenerateDirection));
}

#[test]
fn up_hint_parallel_to_direction_rejected() {
    let position = Vec3 { x: 0, y: 0, z: 0 };
    let direction = Vec3 { x: 0, y: 2, z: 0 };
    let up_hint = Vec3 { x: 0, y: 1, z: 0 };
    let result = camera_frame(position, direction, up_hint);
    assert_eq!(result, Err(ViewMatrixError::DegenerateUp));
}

#[test]
fn zero_up_hint_rejected() {
    let position = Vec3 { x: 1, y: 2, z: 3 };
    let direction = Vec3 { x: -2, y: 1, z: 1 };
    let up_hint = Vec3 { x: 0, y: 0, z: 0 };
    let result = camera_frame(position, direction, up_hint);
    assert_eq!(result, Err(ViewMatrixError::DegenerateUp));
}

#[test]
fn basis_rows_are_orthogonal() {
    let position = Vec3 { x: 2, y: -1, z: 1 };
    let direction = Vec3 { x: -2, y: 1, z: 1 };
    let up_hint = Vec3 { x: 0, y: 1, z: 0 };
    let frame = camera_frame(position, direction, up_hint).unwrap();
    let dot = |a: Vec3, b: Vec3| a.x * b.x + a.y * b.y + a.z * b.z;
    assert_eq!(dot(frame.right, frame.forward), 0);
    assert_eq!(dot(frame.up, frame.forward), 0);
    assert_eq!(dot(frame.up, frame.right), 0);
    // right-handed: norm_sq(up) == norm_sq(right) * norm_sq(forward)
    assert_eq!(
        dot(frame.up, frame.up),
        dot(frame.right, frame.right) * dot(frame.forward, frame.forward)
    );
}

#[test]
fn camera_position_projects_to_origin() {
    let position = Vec3 { x: 2, y: -1, z: 1 };
    let direction = Vec3 { x: -2, y: 1, z: 1 };
    let up_hint = Vec3 { x: 0, y: 1, z: 0 };
    let frame = camera_frame(position, direction, up_hint).unwrap();
    let dot = |a: Vec3, b: Vec3| a.x * b.x + a.y * b.y + a.z * b.z;
    assert_eq!(dot(position, frame.right) + frame.translation.x, 0);
    assert_eq!(dot(position, frame.up) + frame.translation.y, 0);
    assert_eq!(dot(position, frame.forward) + frame.translation.z, 0);
}

#[test]
fn direction_scaling_scales_each_row_positively() {
    let position = Vec3 { x: 2, y: -1, z: 1 };
    let direction = Vec3 { x: -2, y: 1, z: 1 };
    let scaled = Vec3 { x: -6, y: 3, z: 3 };
    let up_hint = Vec3 { x: 0, y: 1, z: 0 };
    let base = camera_frame(position, direction, up_hint).unwrap();
    let frame = camera_frame(position, scaled, up_hint).unwrap();
    let times = |k: i64, a: Vec3| Vec3 { x: k * a.x, y: k * a.y, z: k * a.z };
    assert_eq!(frame.right, times(3, base.right));
    assert_eq!(frame.up, times(9, base.up));
    assert_eq!(frame.forward, times(3, base.forward));
    assert_eq!(frame.translation.x, 3 * base.translation.x);
    assert_eq!(frame.translation.y, 9 * base.translation.y);
    assert_eq!(frame.translation.z, 3 * base.translation.z);
}

#[test]
fn up_hint_in_same_half_plane_scales_rows_positively() {
    let position = Vec3 { x: 2, y: -1, z: 1 };
    let direction = Vec3 { x: -2, y: 1, z: 1 };
    let up_hint = Vec3 { x: 0, y: 1, z: 0 };
    // 2 * up_hint + 5 * direction lies in the same half-plane around the direction
    let tilted = Vec3 { x: -10, y: 7, z: 5 };
    let base = camera_frame(position, direction, up_hint).unwrap();
    let frame = camera_frame(position, direction, tilted).unwrap();
    let times = |k: i64, a: Vec3| Vec3 { x: k * a.x, y: k * a.y, z: k * a.z };
    assert_eq!(frame.right, times(2, base.right));
    assert_eq!(frame.up, times(2, base.up));
    assert_eq!(frame.forward, base.forward);
    assert_eq!(frame.translation.x, 2 * base.translation.x);
    assert_eq!(frame.translation.y, 2 * base.translation.y);
    assert_eq!(frame.translation.z, base.translation.z);
}
