use terrain_editor::camera::Camera;
use terrain_editor::camera::Movement;
use terrain_editor::fixed::QUARTER_TURN;
use terrain_editor::mat4::{build_transforms, Mat4Fp};
use terrain_editor::vec3::{Vec2Fp, Vec3Fp};

const PITCH_MAX: i64 = QUARTER_TURN - 1_000;

fn cam_at(pos: Vec3Fp, yaw: i64, pitch: i64) -> Camera {
    Camera::new(pos, yaw, pitch, 800_000, 600_000)
}

#[test]
fn pitch_stays_clamped_under_any_rotation_sequence() {
    let mut cam = cam_at(Vec3Fp::new(0, 0, 0), 0, 0);
    for _ in 0..100 {
        cam.rotate(12_345, -16_000_000);
        assert!(-QUARTER_TURN < cam.pitch && cam.pitch < QUARTER_TURN);
    }
    assert_eq!(cam.pitch, PITCH_MAX);
    for _ in 0..100 {
        cam.rotate(-54_321, 16_000_000);
        assert!(-QUARTER_TURN < cam.pitch && cam.pitch < QUARTER_TURN);
    }
    assert_eq!(cam.pitch, -PITCH_MAX);
}

#[test]
fn center_ray_is_the_forward_vector() {
    // Looking along -z: the center ray is exactly the unit forward vector.
    let cam = cam_at(Vec3Fp::new(5_000, 2_000, -3_000), 3_000_000, 0);
    let ray = cam.get_ray_through_pixel(Vec2Fp::new(400_000, 300_000));
    assert_eq!(ray.origin, Vec3Fp::new(5_000, 2_000, -3_000));
    assert_eq!(ray.dir, Vec3Fp::new(0, 0, -1_000));
    // Looking along +x.
    let cam2 = cam_at(Vec3Fp::new(0, 0, 0), 0, 0);
    let ray2 = cam2.get_ray_through_pixel(Vec2Fp::new(400_000, 300_000));
    assert_eq!(ray2.dir, Vec3Fp::new(1_000, 0, 0));
}

#[test]
fn off_center_rays_bend_toward_the_pixel() {
    let cam = cam_at(Vec3Fp::new(0, 0, 0), 3_000_000, 0);
    // A pixel in the upper half of the viewport tilts the ray upward.
    let up_ray = cam.get_ray_through_pixel(Vec2Fp::new(400_000, 100_000));
    assert!(up_ray.dir.y > 0);
    // A pixel right of center tilts it toward +x when facing -z.
    let right_ray = cam.get_ray_through_pixel(Vec2Fp::new(700_000, 300_000));
    assert!(right_ray.dir.x > 0);
}

#[test]
fn movement_follows_yaw_and_boost_doubles_it() {
    let mut cam = cam_at(Vec3Fp::new(0, 7_000, 0), 0, -200_000);
    cam.go(Movement::Forward, 1_000);
    // 50 units per second for one second, pitch adds no vertical motion.
    assert_eq!(cam.pos, Vec3Fp::new(50_000, 7_000, 0));
    cam.go(Movement::Backward, 1_000);
    assert_eq!(cam.pos, Vec3Fp::new(0, 7_000, 0));
    cam.go(Movement::Right, 500);
    assert_eq!(cam.pos, Vec3Fp::new(0, 7_000, 25_000));
    cam.speed_boost = true;
    cam.go(Movement::Left, 500);
    assert_eq!(cam.pos, Vec3Fp::new(0, 7_000, -25_000));
}

#[test]
fn transform_block_has_expected_shape() {
    let cam = cam_at(Vec3Fp::new(0, 0, 0), 3_000_000, 0);
    let t = build_transforms(&cam);
    assert_eq!(t.model, Mat4Fp::identity());
    // Square-pixel 4:3 viewport: m00 is m11 over the aspect ratio.
    assert_eq!(t.proj.m11, 2_415);
    assert_eq!(t.proj.m32, -1_000);
    assert_eq!(t.view.m33, 1_000);
    // Facing -z the third view row is -forward = (0, 0, 1).
    assert_eq!((t.view.m20, t.view.m21, t.view.m22), (0, 0, 1_000));
    // The combined transform row for depth comes from proj * view.
    assert_eq!(t.mvp.m30, -t.view.m20);
    assert_eq!(t.mvp.m33, -t.view.m23);
}

#[test]
fn viewport_resize_changes_the_projection() {
    let mut cam = cam_at(Vec3Fp::new(0, 0, 0), 0, 0);
    let square_before = build_transforms(&cam).proj.m00;
    cam.set_viewport(600_000, 600_000);
    let square_after = build_transforms(&cam).proj.m00;
    // A square viewport focuses the horizontal axis as much as the vertical.
    assert!(square_after > square_before);
    assert_eq!(square_after, 2_415);
}
