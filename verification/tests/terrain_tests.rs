use terrain_editor::camera::Camera;
use terrain_editor::editor::{editor_frame, EditorState};
use terrain_editor::fixed::QUARTER_TURN;
use terrain_editor::input::RawInput;
use terrain_editor::ray::Ray;
use terrain_editor::terrain::Terrain;
use terrain_editor::vec3::{Vec2Fp, Vec3Fp};

/// A flat field spanning [-100, 100] x [-100, 100] world units, height zero.
fn flat_field() -> Terrain {
    Terrain::new(201, 201, 1_000, Vec2Fp::new(-100_000, -100_000), 0)
}

#[test]
fn new_terrain_is_flat_with_up_normals() {
    let t = flat_field();
    assert_eq!(t.heights.len(), 201 * 201);
    assert!(t.heights.iter().all(|h| *h == 0));
    assert!(t.normals.iter().all(|n| *n == Vec3Fp::new(0, 2_000, 0)));
    assert!(t.cursor.is_none());
}

#[test]
fn brush_size_is_pinned_at_its_bounds() {
    let mut t = flat_field();
    assert_eq!(t.brush.size, 5_000);
    // One scroll line shrinks the radius by 1.5 units.
    t.brush.adjust(1_000);
    assert_eq!(t.brush.size, 3_500);
    t.brush.adjust(1_000_000);
    assert_eq!(t.brush.size, 100);
    t.brush.adjust(1);
    assert_eq!(t.brush.size, 100);
    t.brush.adjust(-1_000_000_000);
    assert_eq!(t.brush.size, 200_000);
    t.brush.adjust(-1);
    assert_eq!(t.brush.size, 200_000);
}

#[test]
fn sculpting_is_local_and_strictly_directional() {
    let mut t = flat_field();
    t.cursor = Some(Vec2Fp::new(0, 0));
    t.shape_terrain(1_000, true);
    let idx = |x: usize, z: usize| z * 201 + x;
    // The cursor sits exactly on sample (100, 100): full-strength raise.
    assert_eq!(t.heights[idx(100, 100)], 20_000);
    // Every sample strictly inside the 5-unit radius rose.
    for z in 0..201usize {
        for x in 0..201usize {
            let dx = x as i64 * 1_000 - 100_000;
            let dz = z as i64 * 1_000 - 100_000;
            let d2 = dx * dx + dz * dz;
            if d2 < 5_000 * 5_000 {
                assert!(t.heights[idx(x, z)] > 0, "sample ({x},{z}) did not rise");
            } else {
                assert_eq!(t.heights[idx(x, z)], 0, "sample ({x},{z}) moved");
            }
        }
    }
    // Lowering moves every covered sample strictly down again.
    t.shape_terrain(1_000, false);
    t.shape_terrain(1_000, false);
    assert!(t.heights[idx(100, 100)] < 0);
    assert_eq!(t.heights[idx(0, 0)], 0);
    // Normals across the sculpted bump lean away from it.
    assert_ne!(t.normals[idx(99, 100)], Vec3Fp::new(0, 2_000, 0));
    assert_eq!(t.normals[idx(0, 0)], Vec3Fp::new(0, 2_000, 0));
}

#[test]
fn sampling_interpolates_bilinearly_between_cells() {
    let mut t = flat_field();
    assert_eq!(t.height_at(12_345, -6_789), 0);
    t.cursor = Some(Vec2Fp::new(0, 0));
    t.shape_terrain(1_000, true);
    // At the cursor sample itself, and halfway to its neighbor.
    assert_eq!(t.height_at(0, 0), 20_000);
    assert_eq!(t.height_at(500, 0), (20_000 * 500 + 19_200 * 500) / 1_000);
    // Outside the footprint the clamped edge is sampled.
    assert_eq!(t.height_at(-200_000, 0), 0);
}

#[test]
fn vertical_ray_hits_a_flat_field_at_height_zero() {
    let t = flat_field();
    let ray = Ray::new(Vec3Fp::new(0, 10_000, 0), Vec3Fp::new(0, -1_000, 0));
    let p = t.intersect_with_ray(&ray).expect("straight-down ray must hit");
    assert_eq!((p.x, p.z), (0, 0));
    assert!((-1..=0).contains(&p.y), "height off by {}", p.y);
}

#[test]
fn slanted_ray_hits_at_the_analytic_distance() {
    let t = flat_field();
    // Three poses, each descending at 45 degrees from 10 units up: the hit
    // lies 10 units out horizontally, at height zero.
    let dirs = [
        Vec3Fp::new(707, -707, 0),
        Vec3Fp::new(0, -707, 707),
        Vec3Fp::new(-707, -707, 0),
    ];
    for d in dirs {
        let ray = Ray::new(Vec3Fp::new(0, 10_000, 0), d);
        let p = t.intersect_with_ray(&ray).expect("slanted ray must hit");
        // Over a constant field a hit's height is within one sub-unit.
        assert!((-1..=0).contains(&p.y), "height off by {}", p.y);
        let horiz = ((p.x * p.x + p.z * p.z) as f64).sqrt();
        assert!((horiz - 10_000.0).abs() <= 20.0, "distance {horiz}");
    }
}

#[test]
fn intersection_is_idempotent() {
    let t = flat_field();
    let ray = Ray::new(Vec3Fp::new(2_500, 8_000, -1_500), Vec3Fp::new(100, -900, 300));
    assert_eq!(t.intersect_with_ray(&ray), t.intersect_with_ray(&ray));
}

#[test]
fn rays_that_cannot_hit_report_no_intersection() {
    let t = flat_field();
    // Pointing up from above.
    let up = Ray::new(Vec3Fp::new(0, 5_000, 0), Vec3Fp::new(0, 1_000, 0));
    assert!(t.intersect_with_ray(&up).is_none());
    // Outside the footprint, moving away.
    let away = Ray::new(Vec3Fp::new(110_000, 5_000, 0), Vec3Fp::new(1_000, -100, 0));
    assert!(t.intersect_with_ray(&away).is_none());
    // Parallel to the ground above it: terminates via the march budget.
    let level = Ray::new(Vec3Fp::new(0, 5_000, 0), Vec3Fp::new(1_000, 0, 0));
    assert!(t.intersect_with_ray(&level).is_none());
}

#[test]
fn center_ray_over_a_flat_field_returns_the_origin() {
    // Looking straight down (up to the pitch clamp) from half a unit up.
    let cam = Camera::new(
        Vec3Fp::new(0, 500, 0),
        3_000_000,
        -(QUARTER_TURN - 1_000),
        800_000,
        600_000,
    );
    let t = flat_field();
    let ray = cam.get_ray_through_pixel(Vec2Fp::new(400_000, 300_000));
    let p = t.intersect_with_ray(&ray).expect("downward center ray must hit");
    assert_eq!(p, Vec3Fp::new(0, 0, 0));
}

#[test]
fn editor_frame_with_gui_focus_hides_cursor_and_freezes_the_world() {
    let mut cam = Camera::new(Vec3Fp::new(0, 500, 0), 0, 0, 800_000, 600_000);
    let before = cam;
    let mut t = flat_field();
    t.cursor = Some(Vec2Fp::new(1, 2));
    let input = RawInput::new(0, Vec2Fp::new(800_000, 600_000), 1_000);
    let r = editor_frame(&input, true, false, EditorState { free_camera: true }, &mut cam, &mut t);
    assert!(t.cursor.is_none());
    assert_eq!(cam, before);
    assert!(r.cursor_visible);
    assert!(!r.camera_moved);
    assert!(!r.should_exit);
}

#[test]
fn editor_frame_casts_sculpts_and_resizes() {
    let mut cam = Camera::new(
        Vec3Fp::new(0, 500, 0),
        3_000_000,
        -(QUARTER_TURN - 1_000),
        800_000,
        600_000,
    );
    let mut t = flat_field();
    let mut input = RawInput::new(0, Vec2Fp::new(800_000, 600_000), 1_000);
    input.on_pointer_moved(Vec2Fp::new(400_000, 300_000));
    input.on_button(0, true);
    input.on_scroll(Vec2Fp::new(0, 1_000));
    input.delta_time = 1_000;
    let r = editor_frame(&input, false, false, EditorState { free_camera: false }, &mut cam, &mut t);
    // The pointer ray hit the field under the camera and sculpting ran.
    assert_eq!(t.cursor, Some(Vec2Fp::new(0, 0)));
    assert_eq!(t.brush.size, 3_500);
    assert_eq!(t.heights[100 * 201 + 100], 20_000);
    assert!(!r.should_exit);
    assert!(!r.state.free_camera);
}

#[test]
fn editor_frame_moves_the_camera_in_free_look() {
    let mut cam = Camera::new(Vec3Fp::new(0, 7_000, 0), 0, 0, 800_000, 600_000);
    let mut t = flat_field();
    let mut input = RawInput::new(0, Vec2Fp::new(800_000, 600_000), 1_000);
    input.mouse_buttons.secondary = true;
    input.forward = true;
    input.delta_time = 1_000;
    let r = editor_frame(&input, false, false, EditorState { free_camera: false }, &mut cam, &mut t);
    assert_eq!(cam.pos, Vec3Fp::new(50_000, 7_000, 0));
    assert!(r.camera_moved);
    assert!(r.state.free_camera);
}

#[test]
fn editor_frame_propagates_exit_requests() {
    let mut cam = Camera::new(Vec3Fp::new(0, 0, 0), 0, 0, 800_000, 600_000);
    let mut t = flat_field();
    let mut input = RawInput::new(0, Vec2Fp::new(800_000, 600_000), 1_000);
    input.on_close_requested();
    let r = editor_frame(&input, false, false, EditorState { free_camera: false }, &mut cam, &mut t);
    assert!(r.should_exit);
    let input2 = RawInput::new(0, Vec2Fp::new(800_000, 600_000), 1_000);
    let r2 = editor_frame(&input2, false, true, EditorState { free_camera: false }, &mut cam, &mut t);
    assert!(r2.should_exit);
}
