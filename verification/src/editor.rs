//! The editor frame loop: one frame's decisions over the input snapshot,
//! the camera and the terrain. The windowing, GUI and rendering
//! collaborators act on the returned flags.

use vstd::prelude::*;
use crate::camera::{Camera, Movement};
use crate::fixed::{spec_clamp, spec_tdiv, SCALE};
use crate::input::{InputModel, RawInput};
use crate::terrain::{
    spec_brush_base, grid_idx, Brush, Terrain, BRUSH_MIN, BRUSH_MAX, BRUSH_SCROLL_STEP,
};
use crate::vec3::Vec2Fp;

verus! {

/// The top-level mode.
#[derive(Clone, Copy, Debug, PartialEq, Eq, Structural)]
pub enum GameMode {
    Game,
    Editor { state: EditorState, mode: EditorMode },
    Menu,
}

/// The editor's sub-mode.
#[derive(Clone, Copy, Debug, PartialEq, Eq, Structural)]
pub enum EditorMode {
    General,
    Terrain { tool: TerrainTool },
}

/// Persistent editor state.
#[derive(Clone, Copy, Debug, PartialEq, Eq, Structural)]
pub struct EditorState {
    pub free_camera: bool,
}

/// The active terrain tool.
#[derive(Clone, Copy, Debug, PartialEq, Eq, Structural)]
pub enum TerrainTool {
    Sculpt,
    PaintTextures,
    PaintTrees,
    PaintVegetation,
}

/// What one editor frame decided; the caller performs the outside actions.
#[derive(Clone, Copy, Debug, PartialEq, Eq, Structural)]
pub struct FrameResult {
    /// The process should exit.
    pub should_exit: bool,
    /// The platform cursor should be visible (the GUI has the pointer).
    pub cursor_visible: bool,
    /// The camera transforms changed and must be re-uploaded.
    pub camera_moved: bool,
    /// The editor state carried to the next frame.
    pub state: EditorState,
}

/// Whether free look is active this frame: the secondary button is held.
pub open spec fn spec_free_look(m: InputModel) -> bool {
    m.mouse_buttons.secondary
}

/// The camera after one frame's movement and rotation: the speed boost
/// follows the shift modifier; under free look each held movement key
/// moves the camera for the frame's delta time, in a fixed order, and
/// pointer motion then rotates it.
pub open spec fn spec_frame_camera(cam: Camera, m: InputModel) -> Camera {
    let c0 = Camera { speed_boost: m.modifiers.shift, ..cam };
    if spec_free_look(m) {
        let c1 = if m.forward {
            c0.spec_go(Movement::Forward, m.delta_time as int)
        } else {
            c0
        };
        let c2 = if m.left {
            c1.spec_go(Movement::Left, m.delta_time as int)
        } else {
            c1
        };
        let c3 = if m.back {
            c2.spec_go(Movement::Backward, m.delta_time as int)
        } else {
            c2
        };
        let c4 = if m.right {
            c3.spec_go(Movement::Right, m.delta_time as int)
        } else {
            c3
        };
        if m.pointer_moved {
            c4.spec_rotate(m.pointer_delta.x as int, m.pointer_delta.y as int)
        } else {
            c4
        }
    } else {
        c0
    }
}

/// Whether this frame changed the camera transforms.
pub open spec fn spec_frame_camera_moved(m: InputModel) -> bool {
    m.camera_moved || (spec_free_look(m) && (m.forward || m.left || m.back || m.right
        || m.pointer_moved))
}

/// The cursor after this frame: when the pointer or the camera moved, the
/// ray through the pointer is cast against the terrain; a hit projects to
/// the terrain plane, a miss (or a pointer outside the viewport, or none
/// seen yet) hides the cursor. Otherwise the cursor is kept.
pub open spec fn spec_frame_cursor(cam2: Camera, t: Terrain, m: InputModel) -> Option<Vec2Fp> {
    if m.pointer_moved || spec_frame_camera_moved(m) {
        match m.pointer_pos {
            Some(p) => if 0 <= p.x <= cam2.viewport_w && 0 <= p.y <= cam2.viewport_h {
                match t.spec_intersect(cam2.spec_ray_through_pixel(p)) {
                    Some(pt) => Some(Vec2Fp { x: pt.x, y: pt.z }),
                    None => None,
                }
            } else {
                None
            },
            None => None,
        }
    } else {
        t.cursor
    }
}

/// The brush radius after this frame's scroll.
pub open spec fn spec_frame_brush(b: Brush, m: InputModel) -> Brush {
    if m.scrolled {
        Brush {
            size: spec_clamp(
                b.size - spec_tdiv(m.scroll_delta.y * BRUSH_SCROLL_STEP, SCALE as int),
                BRUSH_MIN as int,
                BRUSH_MAX as int,
            ) as i64,
        }
    } else {
        b
    }
}

/// Whether this frame sculpts: the primary button is held and the cursor
/// is on the terrain.
pub open spec fn spec_frame_sculpts(m: InputModel, cursor: Option<Vec2Fp>) -> bool {
    m.mouse_buttons.primary && cursor is Some
}

/// Runs one editor frame over the consumed input snapshot.
///
/// When the GUI has the pointer, the terrain cursor is hidden and camera
/// and terrain are untouched. Otherwise the camera is moved and rotated,
/// the cursor is re-cast, the brush resized by the scroll delta, and the
/// terrain sculpted while the primary button is held (the control
/// modifier lowers instead of raising). The ordering within the frame is
/// fixed: input was translated before this call, the camera moves before
/// the ray is cast, and the ray is cast before the terrain is sculpted.
pub fn editor_frame(
    input: &RawInput,
    gui_wants_input: bool,
    gui_wants_exit: bool,
    state: EditorState,
    camera: &mut Camera,
    terrain: &mut Terrain,
) -> (r: FrameResult)
    requires
        input@.wf(),
        old(camera).wf(),
        old(terrain).wf(),
    ensures
        r.should_exit == (gui_wants_exit || input.should_exit),
        r.cursor_visible == gui_wants_input,
        final(camera).wf(),
        final(terrain).wf(),
        gui_wants_input ==> *final(camera) == *old(camera) && *final(terrain) == (Terrain {
            cursor: None::<Vec2Fp>,
            ..*old(terrain)
        }) && !r.camera_moved && !r.state.free_camera,
        !gui_wants_input ==> {
            let cam2 = spec_frame_camera(*old(camera), input@);
            let cursor2 = spec_frame_cursor(cam2, *old(terrain), input@);
            let brush2 = spec_frame_brush(old(terrain).brush, input@);
            let mid = Terrain { cursor: cursor2, brush: brush2, ..*old(terrain) };
            &&& *final(camera) == cam2
            &&& r.camera_moved == spec_frame_camera_moved(input@)
            &&& r.state.free_camera == spec_free_look(input@)
            &&& final(terrain).cursor == cursor2
            &&& final(terrain).brush == brush2
            &&& final(terrain).cols == old(terrain).cols
            &&& final(terrain).rows == old(terrain).rows
            &&& final(terrain).cell == old(terrain).cell
            &&& final(terrain).origin_x == old(terrain).origin_x
            &&& final(terrain).origin_z == old(terrain).origin_z
            &&& if spec_frame_sculpts(input@, cursor2) {
                forall|x: int, z: int|
                    0 <= x < old(terrain).cols && 0 <= z < old(terrain).rows
                        ==> final(terrain).heights@[#[trigger] grid_idx(
                        old(terrain).cols as int,
                        x,
                        z,
                    )] == mid.spec_sculpt_cell(
                        x,
                        z,
                        spec_brush_base(input.delta_time as int),
                        !input@.modifiers.ctrl,
                    )
            } else {
                final(terrain).heights@ == old(terrain).heights@
            }
        },
{
    if gui_wants_input {
        terrain.cursor = None;
        return FrameResult {
            should_exit: gui_wants_exit || input.should_exit,
            cursor_visible: true,
            camera_moved: false,
            state: EditorState { free_camera: false },
        };
    }
    let free_look = input.mouse_buttons.secondary;
    camera.speed_boost = input.modifiers.shift;
    let mut moved = input.camera_moved;
    if free_look {
        if input.forward {
            camera.go(Movement::Forward, input.delta_time);
            moved = true;
        }
        if input.left {
            camera.go(Movement::Left, input.delta_time);
            moved = true;
        }
        if input.back {
            camera.go(Movement::Backward, input.delta_time);
            moved = true;
        }
        if input.right {
            camera.go(Movement::Right, input.delta_time);
            moved = true;
        }
        if input.pointer_moved {
            camera.rotate(input.pointer_delta.x, input.pointer_delta.y);
            moved = true;
        }
    }
    if input.pointer_moved || moved {
        let mut hit: Option<Vec2Fp> = None;
        if let Some(p) = input.pointer_pos {
            if 0 <= p.x && p.x <= camera.viewport_w && 0 <= p.y && p.y <= camera.viewport_h {
                let ray = camera.get_ray_through_pixel(p);
                if let Some(pt) = terrain.intersect_with_ray(&ray) {
                    hit = Some(Vec2Fp { x: pt.x, y: pt.z });
                }
            }
        }
        terrain.cursor = hit;
    }
    if input.scrolled {
        terrain.brush.adjust(input.scroll_delta.y);
    }
    if input.mouse_buttons.primary && terrain.cursor.is_some() {
        terrain.shape_terrain(input.delta_time, !input.modifiers.ctrl);
    }
    FrameResult {
        should_exit: gui_wants_exit || input.should_exit,
        cursor_visible: false,
        camera_moved: moved,
        state: EditorState { free_camera: free_look },
    }
}

} // verus!
