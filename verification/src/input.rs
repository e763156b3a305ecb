//! Input translation: platform events become a per-frame semantic snapshot.
//!
//! Platform key and button identities arrive as plain integer codes (the
//! discriminant of the windowing library's virtual-key enumeration); the
//! caller that owns the window performs that cast. Unmappable codes degrade
//! to [`Key::Unknown`] / [`MouseButton::Unknown`] — translation never fails.

use vstd::prelude::*;
use crate::fixed::{SCALE, spec_clamp, clamp_i64, spec_tdiv, tdiv};
use crate::vec3::Vec2Fp;

verus! {

/// Ticks per second of the caller-supplied monotonic clock.
pub const TICKS_PER_SEC: i64 = 1_000_000;

/// Longest clock span (in ticks) the snapshot accepts, about thirty years.
pub const MAX_SESSION_TICKS: u64 = 1_000_000_000_000_000;

/// Cap on one frame's delta time, in fixed-point seconds.
pub const DT_MAX: i64 = 10_000;

/// Cap on an accumulated pointer delta component, in fixed-point pixels.
pub const DELTA_CAP: i64 = 16_000_000;

/// Cap on an accumulated scroll delta component, in fixed-point lines.
pub const SCROLL_CAP: i64 = 1_000_000;

/// Cap on screen and pointer coordinates, in fixed-point logical pixels.
pub const SCREEN_CAP: i64 = 16_000_000;

/// Cap on raw (pre-scaling) event coordinates.
pub const RAW_CAP: i64 = 1_000_000_000_000;

/// The state of the modifier keys.
#[derive(Clone, Copy, Debug, PartialEq, Eq, Structural)]
pub struct Modifiers {
    pub alt: bool,
    pub ctrl: bool,
    pub shift: bool,
    pub logo: bool,
}

impl Modifiers {
    /// All modifiers released.
    pub open spec fn spec_none() -> Modifiers {
        Modifiers { alt: false, ctrl: false, shift: false, logo: false }
    }

    pub fn none() -> (r: Modifiers)
        ensures
            r == Modifiers::spec_none(),
    {
        Modifiers { alt: false, ctrl: false, shift: false, logo: false }
    }
}

impl Default for Modifiers {
    fn default() -> (r: Modifiers)
        ensures
            r == Modifiers::spec_none(),
    {
        Modifiers { alt: false, ctrl: false, shift: false, logo: false }
    }
}

/// A pointer button.
#[derive(Clone, Copy, Debug, PartialEq, Eq, Structural)]
pub enum MouseButton {
    Primary,
    Secondary,
    Middle,
    Unknown,
}

impl MouseButton {
    /// Semantic button for a platform button code.
    pub open spec fn spec_of_code(code: u32) -> MouseButton {
        if code == 0 {
            MouseButton::Primary
        } else if code == 1 {
            MouseButton::Secondary
        } else if code == 2 {
            MouseButton::Middle
        } else {
            MouseButton::Unknown
        }
    }

    /// Maps a platform button code (0 left, 1 right, 2 middle) to the
    /// semantic button; anything else is [`MouseButton::Unknown`].
    pub fn from_code(code: u32) -> (r: MouseButton)
        ensures
            r == MouseButton::spec_of_code(code),
    {
        if code == 0 {
            MouseButton::Primary
        } else if code == 1 {
            MouseButton::Secondary
        } else if code == 2 {
            MouseButton::Middle
        } else {
            MouseButton::Unknown
        }
    }
}

/// A semantic key.
#[derive(Clone, Copy, Debug, Eq, Ord, PartialEq, PartialOrd, Hash, Structural)]
pub enum Key {
    ArrowDown,
    ArrowLeft,
    ArrowRight,
    ArrowUp,
    Escape,
    Tab,
    Backspace,
    Enter,
    Space,
    Insert,
    Delete,
    Home,
    End,
    PageUp,
    PageDown,
    Num0,
    Num1,
    Num2,
    Num3,
    Num4,
    Num5,
    Num6,
    Num7,
    Num8,
    Num9,
    Key0,
    Key1,
    Key2,
    Key3,
    Key4,
    Key5,
    Key6,
    Key7,
    Key8,
    Key9,
    A,
    B,
    C,
    D,
    E,
    F,
    G,
    H,
    I,
    J,
    K,
    L,
    M,
    N,
    O,
    P,
    Q,
    R,
    S,
    T,
    U,
    V,
    W,
    X,
    Y,
    Z,
    F1,
    F2,
    F3,
    F4,
    F5,
    F6,
    F7,
    F8,
    F9,
    F10,
    F11,
    F12,
    F13,
    F14,
    F15,
    F16,
    F17,
    F18,
    F19,
    F20,
    F21,
    F22,
    F23,
    F24,
    Unknown,
}

impl Key {
    /// Semantic key for a platform virtual-key code, following the
    /// windowing library's enumeration order; unmapped codes are
    /// [`Key::Unknown`].
    pub open spec fn spec_of_code(code: u32) -> Key {
        match code {
            0u32 => Key::Key1,
            1u32 => Key::Key2,
            2u32 => Key::Key3,
            3u32 => Key::Key4,
            4u32 => Key::Key5,
            5u32 => Key::Key6,
            6u32 => Key::Key7,
            7u32 => Key::Key8,
            8u32 => Key::Key9,
            9u32 => Key::Key0,
            10u32 => Key::A,
            11u32 => Key::B,
            12u32 => Key::C,
            13u32 => Key::D,
            14u32 => Key::E,
            15u32 => Key::F,
            16u32 => Key::G,
            17u32 => Key::H,
            18u32 => Key::I,
            19u32 => Key::J,
            20u32 => Key::K,
            21u32 => Key::L,
            22u32 => Key::M,
            23u32 => Key::N,
            24u32 => Key::O,
            25u32 => Key::P,
            26u32 => Key::Q,
            27u32 => Key::R,
            28u32 => Key::S,
            29u32 => Key::T,
            30u32 => Key::U,
            31u32 => Key::V,
            32u32 => Key::W,
            33u32 => Key::X,
            34u32 => Key::Y,
            35u32 => Key::Z,
            36u32 => Key::Escape,
            37u32 => Key::F1,
            38u32 => Key::F2,
            39u32 => Key::F3,
            40u32 => Key::F4,
            41u32 => Key::F5,
            42u32 => Key::F6,
            43u32 => Key::F7,
            44u32 => Key::F8,
            45u32 => Key::F9,
            46u32 => Key::F10,
            47u32 => Key::F11,
            48u32 => Key::F12,
            49u32 => Key::F13,
            50u32 => Key::F14,
            51u32 => Key::F15,
            52u32 => Key::F16,
            53u32 => Key::F17,
            54u32 => Key::F18,
            55u32 => Key::F19,
            56u32 => Key::F20,
            57u32 => Key::F21,
            58u32 => Key::F22,
            59u32 => Key::F23,
            60u32 => Key::F24,
            64u32 => Key::Insert,
            65u32 => Key::Home,
            66u32 => Key::Delete,
            67u32 => Key::End,
            68u32 => Key::PageDown,
            69u32 => Key::PageUp,
            70u32 => Key::ArrowLeft,
            71u32 => Key::ArrowUp,
            72u32 => Key::ArrowRight,
            73u32 => Key::ArrowDown,
            74u32 => Key::Backspace,
            75u32 => Key::Enter,
            76u32 => Key::Space,
            80u32 => Key::Num0,
            81u32 => Key::Num1,
            82u32 => Key::Num2,
            83u32 => Key::Num3,
            84u32 => Key::Num4,
            85u32 => Key::Num5,
            86u32 => Key::Num6,
            87u32 => Key::Num7,
            88u32 => Key::Num8,
            89u32 => Key::Num9,
            146u32 => Key::Tab,
            _ => Key::Unknown,
        }
    }

    /// Maps a platform virtual-key code to the semantic key.
    pub fn from_code(code: u32) -> (r: Key)
        ensures
            r == Key::spec_of_code(code),
    {
        match code {
            0u32 => Key::Key1,
            1u32 => Key::Key2,
            2u32 => Key::Key3,
            3u32 => Key::Key4,
            4u32 => Key::Key5,
            5u32 => Key::Key6,
            6u32 => Key::Key7,
            7u32 => Key::Key8,
            8u32 => Key::Key9,
            9u32 => Key::Key0,
            10u32 => Key::A,
            11u32 => Key::B,
            12u32 => Key::C,
            13u32 => Key::D,
            14u32 => Key::E,
            15u32 => Key::F,
            16u32 => Key::G,
            17u32 => Key::H,
            18u32 => Key::I,
            19u32 => Key::J,
            20u32 => Key::K,
            21u32 => Key::L,
            22u32 => Key::M,
            23u32 => Key::N,
            24u32 => Key::O,
            25u32 => Key::P,
            26u32 => Key::Q,
            27u32 => Key::R,
            28u32 => Key::S,
            29u32 => Key::T,
            30u32 => Key::U,
            31u32 => Key::V,
            32u32 => Key::W,
            33u32 => Key::X,
            34u32 => Key::Y,
            35u32 => Key::Z,
            36u32 => Key::Escape,
            37u32 => Key::F1,
            38u32 => Key::F2,
            39u32 => Key::F3,
            40u32 => Key::F4,
            41u32 => Key::F5,
            42u32 => Key::F6,
            43u32 => Key::F7,
            44u32 => Key::F8,
            45u32 => Key::F9,
            46u32 => Key::F10,
            47u32 => Key::F11,
            48u32 => Key::F12,
            49u32 => Key::F13,
            50u32 => Key::F14,
            51u32 => Key::F15,
            52u32 => Key::F16,
            53u32 => Key::F17,
            54u32 => Key::F18,
            55u32 => Key::F19,
            56u32 => Key::F20,
            57u32 => Key::F21,
            58u32 => Key::F22,
            59u32 => Key::F23,
            60u32 => Key::F24,
            64u32 => Key::Insert,
            65u32 => Key::Home,
            66u32 => Key::Delete,
            67u32 => Key::End,
            68u32 => Key::PageDown,
            69u32 => Key::PageUp,
            70u32 => Key::ArrowLeft,
            71u32 => Key::ArrowUp,
            72u32 => Key::ArrowRight,
            73u32 => Key::ArrowDown,
            74u32 => Key::Backspace,
            75u32 => Key::Enter,
            76u32 => Key::Space,
            80u32 => Key::Num0,
            81u32 => Key::Num1,
            82u32 => Key::Num2,
            83u32 => Key::Num3,
            84u32 => Key::Num4,
            85u32 => Key::Num5,
            86u32 => Key::Num6,
            87u32 => Key::Num7,
            88u32 => Key::Num8,
            89u32 => Key::Num9,
            146u32 => Key::Tab,
            _ => Key::Unknown,
        }
    }
}

/// An in-order input event.
#[derive(Clone, Copy, Debug, PartialEq, Eq, Structural)]
pub enum Event {
    Copy,
    Cut,
    Key { key: Key, pressed: bool, modifiers: Modifiers },
    PointerMoved(Vec2Fp),
    MouseButtonPressed { pos: Vec2Fp, button: MouseButton, pressed: bool, modifiers: Modifiers },
}

/// Held pointer-button state.
#[derive(Clone, Copy, Debug, PartialEq, Eq, Structural)]
pub struct MouseButtons {
    pub primary: bool,
    pub secondary: bool,
    pub middle: bool,
}

impl MouseButtons {
    /// All buttons released.
    pub open spec fn spec_none() -> MouseButtons {
        MouseButtons { primary: false, secondary: false, middle: false }
    }
}

impl Default for MouseButtons {
    fn default() -> (r: MouseButtons)
        ensures
            r == MouseButtons::spec_none(),
    {
        MouseButtons { primary: false, secondary: false, middle: false }
    }
}

} // verus!

verus! {

/// Ghost model of a [`RawInput`] snapshot.
pub ghost struct InputModel {
    pub game_start: u64,
    pub frame_start: u64,
    pub delta_time: i64,
    pub time: i64,
    pub screen_size: Vec2Fp,
    pub pointer_pos: Option<Vec2Fp>,
    pub pointer_delta: Vec2Fp,
    pub scale_factor: i64,
    pub scroll_delta: Vec2Fp,
    pub modifiers: Modifiers,
    pub events: Seq<Event>,
    pub forward: bool,
    pub back: bool,
    pub left: bool,
    pub right: bool,
    pub mouse_buttons: MouseButtons,
    pub pointer_moved: bool,
    pub scrolled: bool,
    pub camera_moved: bool,
    pub in_focus: bool,
    pub should_exit: bool,
}

impl InputModel {
    /// Well-formedness: the clock is coherent and every accumulated
    /// quantity sits within its configured cap.
    pub open spec fn wf(self) -> bool {
        &&& 1 <= self.scale_factor <= 1_000_000
        &&& 0 <= self.screen_size.x <= SCREEN_CAP
        &&& 0 <= self.screen_size.y <= SCREEN_CAP
        &&& match self.pointer_pos {
            Some(p) => p.bounded(SCREEN_CAP as int),
            None => true,
        }
        &&& self.pointer_delta.bounded(DELTA_CAP as int)
        &&& self.scroll_delta.bounded(SCROLL_CAP as int)
        &&& 0 <= self.delta_time <= DT_MAX
        &&& 0 <= self.time
        &&& self.game_start <= self.frame_start
        &&& self.frame_start - self.game_start <= MAX_SESSION_TICKS
    }
}

/// The per-frame input snapshot: held state, accumulated deltas, dirty
/// flags and the in-order event list, mutated in place as platform events
/// arrive and swapped out atomically by [`RawInput::renew`].
pub struct RawInput {
    /// Tick of the moment the session started (never changes once set).
    pub game_start: u64,
    /// Tick of the current frame's start; monotonically increases.
    pub frame_start: u64,
    /// Fixed-point seconds the previous frame took, capped at `DT_MAX`.
    pub delta_time: i64,
    /// Fixed-point seconds since the session started.
    pub time: i64,
    /// Screen size in fixed-point logical pixels.
    pub screen_size: Vec2Fp,
    /// Pointer position in fixed-point logical pixels, if seen yet.
    pub pointer_pos: Option<Vec2Fp>,
    /// Accumulated raw pointer motion since last consumption.
    pub pointer_delta: Vec2Fp,
    /// Display scale factor, fixed-point (`SCALE` is 1.0).
    pub scale_factor: i64,
    /// Accumulated scroll delta since last consumption.
    pub scroll_delta: Vec2Fp,
    /// Current modifier-key state.
    pub modifiers: Modifiers,
    /// In-order events received since the last frame.
    pub events: Vec<Event>,
    /// Held movement keys.
    pub forward: bool,
    pub back: bool,
    pub left: bool,
    pub right: bool,
    /// Held pointer buttons.
    pub mouse_buttons: MouseButtons,
    /// Dirty flags, reset on consumption.
    pub pointer_moved: bool,
    pub scrolled: bool,
    pub camera_moved: bool,
    /// Whether the window has input focus.
    pub in_focus: bool,
    /// Whether a close was requested.
    pub should_exit: bool,
}

impl View for RawInput {
    type V = InputModel;

    open spec fn view(&self) -> InputModel {
        InputModel {
            game_start: self.game_start,
            frame_start: self.frame_start,
            delta_time: self.delta_time,
            time: self.time,
            screen_size: self.screen_size,
            pointer_pos: self.pointer_pos,
            pointer_delta: self.pointer_delta,
            scale_factor: self.scale_factor,
            scroll_delta: self.scroll_delta,
            modifiers: self.modifiers,
            events: self.events@,
            forward: self.forward,
            back: self.back,
            left: self.left,
            right: self.right,
            mouse_buttons: self.mouse_buttons,
            pointer_moved: self.pointer_moved,
            scrolled: self.scrolled,
            camera_moved: self.camera_moved,
            in_focus: self.in_focus,
            should_exit: self.should_exit,
        }
    }
}

/// A raw event coordinate scaled from physical to logical pixels and kept
/// within `cap`.
pub open spec fn spec_logical(raw: int, scale: int, cap: int) -> int {
    spec_clamp(spec_tdiv(raw * SCALE, scale), -cap, cap)
}

fn to_logical(raw: i64, scale: i64, cap: i64) -> (r: i64)
    requires
        1 <= scale,
        -RAW_CAP <= raw <= RAW_CAP,
        0 < cap,
    ensures
        r == spec_logical(raw as int, scale as int, cap as int),
        -cap <= r <= cap,
{
    proof {
        crate::vec3::lemma_abs_mul_bound(raw as int, SCALE as int, RAW_CAP as int, SCALE as int);
    }
    clamp_i64(tdiv(raw * SCALE, scale), -cap, cap)
}

impl RawInput {
    /// The starting snapshot: clocks at `now`, no pointer seen, nothing
    /// held, nothing accumulated.
    pub fn new(now: u64, screen_size: Vec2Fp, scale_factor: i64) -> (r: RawInput)
        requires
            1 <= scale_factor <= 1_000_000,
            0 <= screen_size.x <= SCREEN_CAP,
            0 <= screen_size.y <= SCREEN_CAP,
        ensures
            r@ == (InputModel {
                game_start: now,
                frame_start: now,
                delta_time: 0,
                time: 0,
                screen_size: screen_size,
                pointer_pos: None::<Vec2Fp>,
                pointer_delta: (Vec2Fp { x: 0, y: 0 }),
                scale_factor: scale_factor,
                scroll_delta: (Vec2Fp { x: 0, y: 0 }),
                modifiers: Modifiers::spec_none(),
                events: Seq::<Event>::empty(),
                forward: false,
                back: false,
                left: false,
                right: false,
                mouse_buttons: MouseButtons::spec_none(),
                pointer_moved: false,
                scrolled: false,
                camera_moved: false,
                in_focus: true,
                should_exit: false,
            }),
            r@.wf(),
    {
        let r = RawInput {
            game_start: now,
            frame_start: now,
            delta_time: 0,
            time: 0,
            screen_size,
            pointer_pos: None,
            pointer_delta: Vec2Fp { x: 0, y: 0 },
            scale_factor,
            scroll_delta: Vec2Fp { x: 0, y: 0 },
            modifiers: Modifiers::none(),
            events: Vec::new(),
            forward: false,
            back: false,
            left: false,
            right: false,
            mouse_buttons: MouseButtons { primary: false, secondary: false, middle: false },
            pointer_moved: false,
            scrolled: false,
            camera_moved: false,
            in_focus: true,
            should_exit: false,
        };
        proof {
            assert(r@.events =~= Seq::<Event>::empty());
        }
        r
    }
}

} // verus!

verus! {

impl RawInput {
    /// Key state transition: movement keys set or clear held state, and the
    /// semantic key event is recorded.
    pub open spec fn spec_on_key(m: InputModel, code: u32, pressed: bool) -> InputModel {
        let key = Key::spec_of_code(code);
        InputModel {
            forward: if key == Key::W { pressed } else { m.forward },
            left: if key == Key::A { pressed } else { m.left },
            back: if key == Key::S { pressed } else { m.back },
            right: if key == Key::D { pressed } else { m.right },
            events: m.events.push(Event::Key { key, pressed, modifiers: m.modifiers }),
            ..m
        }
    }

    /// Translates a platform key event.
    #[verifier::rlimit(100)]
    pub fn on_key(&mut self, code: u32, pressed: bool)
        requires
            old(self)@.wf(),
        ensures
            final(self)@ == RawInput::spec_on_key(old(self)@, code, pressed),
            final(self)@.wf(),
    {
        let key = Key::from_code(code);
        match key {
            Key::W => self.forward = pressed,
            Key::A => self.left = pressed,
            Key::S => self.back = pressed,
            Key::D => self.right = pressed,
            _ => {},
        }
        self.events.push(Event::Key { key, pressed, modifiers: self.modifiers });
    }

    /// Pointer-position transition: the physical position becomes logical
    /// pixels, the moved flag is set, and the event is recorded.
    pub open spec fn spec_on_pointer_moved(m: InputModel, raw: Vec2Fp) -> InputModel {
        let p = Vec2Fp {
            x: spec_logical(raw.x as int, m.scale_factor as int, SCREEN_CAP as int) as i64,
            y: spec_logical(raw.y as int, m.scale_factor as int, SCREEN_CAP as int) as i64,
        };
        InputModel {
            pointer_pos: Some(p),
            pointer_moved: true,
            events: m.events.push(Event::PointerMoved(p)),
            ..m
        }
    }

    /// Translates a pointer-moved event carrying physical pixels.
    pub fn on_pointer_moved(&mut self, raw: Vec2Fp)
        requires
            old(self)@.wf(),
            raw.bounded(RAW_CAP as int),
        ensures
            final(self)@ == RawInput::spec_on_pointer_moved(old(self)@, raw),
            final(self)@.wf(),
    {
        let p = Vec2Fp {
            x: to_logical(raw.x, self.scale_factor, SCREEN_CAP),
            y: to_logical(raw.y, self.scale_factor, SCREEN_CAP),
        };
        self.pointer_pos = Some(p);
        self.pointer_moved = true;
        self.events.push(Event::PointerMoved(p));
    }

    /// Raw-motion transition: scaled motion accumulates into the pointer
    /// delta, but only while the window is focused and free look is active.
    pub open spec fn spec_on_pointer_delta(m: InputModel, raw: Vec2Fp, free_look: bool) -> InputModel {
        if m.in_focus && free_look {
            let dx = spec_logical(raw.x as int, m.scale_factor as int, DELTA_CAP as int);
            let dy = spec_logical(raw.y as int, m.scale_factor as int, DELTA_CAP as int);
            InputModel {
                pointer_delta: Vec2Fp {
                    x: spec_clamp(m.pointer_delta.x + dx, -DELTA_CAP as int, DELTA_CAP as int) as i64,
                    y: spec_clamp(m.pointer_delta.y + dy, -DELTA_CAP as int, DELTA_CAP as int) as i64,
                },
                pointer_moved: true,
                ..m
            }
        } else {
            m
        }
    }

    /// Translates a raw device-motion event. Motion accumulates across
    /// events within one frame; it is zeroed only on consumption.
    pub fn on_pointer_delta(&mut self, raw: Vec2Fp, free_look: bool)
        requires
            old(self)@.wf(),
            raw.bounded(RAW_CAP as int),
        ensures
            final(self)@ == RawInput::spec_on_pointer_delta(old(self)@, raw, free_look),
            final(self)@.wf(),
    {
        if self.in_focus && free_look {
            let dx = to_logical(raw.x, self.scale_factor, DELTA_CAP);
            let dy = to_logical(raw.y, self.scale_factor, DELTA_CAP);
            self.pointer_delta = Vec2Fp {
                x: clamp_i64(self.pointer_delta.x + dx, -DELTA_CAP, DELTA_CAP),
                y: clamp_i64(self.pointer_delta.y + dy, -DELTA_CAP, DELTA_CAP),
            };
            self.pointer_moved = true;
        }
    }

    /// Scroll transition: the delta, scaled by the display scale factor,
    /// accumulates and the scrolled flag is set.
    pub open spec fn spec_on_scroll(m: InputModel, raw: Vec2Fp) -> InputModel {
        let dx = spec_logical(raw.x as int, m.scale_factor as int, SCROLL_CAP as int);
        let dy = spec_logical(raw.y as int, m.scale_factor as int, SCROLL_CAP as int);
        InputModel {
            scroll_delta: Vec2Fp {
                x: spec_clamp(m.scroll_delta.x + dx, -SCROLL_CAP as int, SCROLL_CAP as int) as i64,
                y: spec_clamp(m.scroll_delta.y + dy, -SCROLL_CAP as int, SCROLL_CAP as int) as i64,
            },
            scrolled: true,
            ..m
        }
    }

    /// Translates a scroll event.
    pub fn on_scroll(&mut self, raw: Vec2Fp)
        requires
            old(self)@.wf(),
            raw.bounded(RAW_CAP as int),
        ensures
            final(self)@ == RawInput::spec_on_scroll(old(self)@, raw),
            final(self)@.wf(),
    {
        let dx = to_logical(raw.x, self.scale_factor, SCROLL_CAP);
        let dy = to_logical(raw.y, self.scale_factor, SCROLL_CAP);
        self.scroll_delta = Vec2Fp {
            x: clamp_i64(self.scroll_delta.x + dx, -SCROLL_CAP, SCROLL_CAP),
            y: clamp_i64(self.scroll_delta.y + dy, -SCROLL_CAP, SCROLL_CAP),
        };
        self.scrolled = true;
    }

    /// Button transition: known buttons set or clear held state, and the
    /// event is recorded at the current pointer position.
    pub open spec fn spec_on_button(m: InputModel, code: u32, pressed: bool) -> InputModel {
        let button = MouseButton::spec_of_code(code);
        let pos = match m.pointer_pos {
            Some(p) => p,
            None => Vec2Fp { x: 0, y: 0 },
        };
        InputModel {
            mouse_buttons: MouseButtons {
                primary: if button == MouseButton::Primary { pressed } else { m.mouse_buttons.primary },
                secondary: if button == MouseButton::Secondary { pressed } else { m.mouse_buttons.secondary },
                middle: if button == MouseButton::Middle { pressed } else { m.mouse_buttons.middle },
            },
            events: m.events.push(Event::MouseButtonPressed {
                pos,
                button,
                pressed,
                modifiers: m.modifiers,
            }),
            ..m
        }
    }

    /// Translates a pointer-button event.
    pub fn on_button(&mut self, code: u32, pressed: bool)
        requires
            old(self)@.wf(),
        ensures
            final(self)@ == RawInput::spec_on_button(old(self)@, code, pressed),
            final(self)@.wf(),
    {
        let button = MouseButton::from_code(code);
        let held = MouseButtons {
            primary: if code == 0 { pressed } else { self.mouse_buttons.primary },
            secondary: if code == 1 { pressed } else { self.mouse_buttons.secondary },
            middle: if code == 2 { pressed } else { self.mouse_buttons.middle },
        };
        self.mouse_buttons = held;
        let pos = match self.pointer_pos {
            Some(p) => p,
            None => Vec2Fp { x: 0, y: 0 },
        };
        self.events.push(Event::MouseButtonPressed {
            pos,
            button,
            pressed,
            modifiers: self.modifiers,
        });
    }

    /// Modifier transition.
    pub open spec fn spec_on_modifiers(m: InputModel, mods: Modifiers) -> InputModel {
        InputModel { modifiers: mods, ..m }
    }

    /// Translates a modifiers-changed event.
    pub fn on_modifiers(&mut self, mods: Modifiers)
        requires
            old(self)@.wf(),
        ensures
            final(self)@ == RawInput::spec_on_modifiers(old(self)@, mods),
            final(self)@.wf(),
    {
        self.modifiers = mods;
    }

    /// Focus transition: losing focus clears all modifier state so no
    /// modifier is left stuck mid-chord.
    pub open spec fn spec_on_focus(m: InputModel, focused: bool) -> InputModel {
        InputModel {
            in_focus: focused,
            modifiers: if focused { m.modifiers } else { Modifiers::spec_none() },
            ..m
        }
    }

    /// Translates a focus-changed event.
    pub fn on_focus(&mut self, focused: bool)
        requires
            old(self)@.wf(),
        ensures
            final(self)@ == RawInput::spec_on_focus(old(self)@, focused),
            final(self)@.wf(),
    {
        self.in_focus = focused;
        if !focused {
            self.modifiers = Modifiers::none();
        }
    }

    /// Close-requested transition.
    pub open spec fn spec_on_close(m: InputModel) -> InputModel {
        InputModel { should_exit: true, ..m }
    }

    /// Translates a close request.
    pub fn on_close_requested(&mut self)
        requires
            old(self)@.wf(),
        ensures
            final(self)@ == RawInput::spec_on_close(old(self)@),
            final(self)@.wf(),
    {
        self.should_exit = true;
    }

    /// Delta time of a frame spanning `frame_start..now`, capped.
    pub open spec fn spec_frame_dt(frame_start: u64, now: u64) -> int {
        spec_clamp(((now - frame_start) * SCALE) / (TICKS_PER_SEC as int), 0, DT_MAX as int)
    }

    /// The state `renew` leaves behind: per-frame fields neutral, held
    /// state carried forward, clocks advanced to `now`.
    pub open spec fn spec_renewed(m: InputModel, now: u64) -> InputModel {
        InputModel {
            frame_start: now,
            delta_time: RawInput::spec_frame_dt(m.frame_start, now) as i64,
            time: (((now - m.game_start) * SCALE) / (TICKS_PER_SEC as int)) as i64,
            pointer_delta: Vec2Fp { x: 0, y: 0 },
            scroll_delta: Vec2Fp { x: 0, y: 0 },
            events: Seq::<Event>::empty(),
            pointer_moved: false,
            scrolled: false,
            camera_moved: false,
            ..m
        }
    }

    /// Ends the frame: returns the snapshot exactly as accumulated and
    /// resets the per-frame fields, carrying held state forward. Nothing
    /// recorded since the previous renewal is lost or duplicated.
    pub fn renew(&mut self, now: u64) -> (r: RawInput)
        requires
            old(self)@.wf(),
            old(self).frame_start <= now,
            now - old(self).game_start <= MAX_SESSION_TICKS,
        ensures
            r@ == old(self)@,
            final(self)@ == RawInput::spec_renewed(old(self)@, now),
            final(self)@.wf(),
    {
        let elapsed = now - self.frame_start;
        let dt = clamp_i64((elapsed as i64) * SCALE / TICKS_PER_SEC, 0, DT_MAX);
        let since_start = now - self.game_start;
        let time = (since_start as i64) * SCALE / TICKS_PER_SEC;
        let mut taken: Vec<Event> = Vec::new();
        core::mem::swap(&mut taken, &mut self.events);
        let r = RawInput {
            game_start: self.game_start,
            frame_start: self.frame_start,
            delta_time: self.delta_time,
            time: self.time,
            screen_size: self.screen_size,
            pointer_pos: self.pointer_pos,
            pointer_delta: self.pointer_delta,
            scale_factor: self.scale_factor,
            scroll_delta: self.scroll_delta,
            modifiers: self.modifiers,
            events: taken,
            forward: self.forward,
            back: self.back,
            left: self.left,
            right: self.right,
            mouse_buttons: self.mouse_buttons,
            pointer_moved: self.pointer_moved,
            scrolled: self.scrolled,
            camera_moved: self.camera_moved,
            in_focus: self.in_focus,
            should_exit: self.should_exit,
        };
        self.frame_start = now;
        self.delta_time = dt;
        self.time = time;
        self.pointer_delta = Vec2Fp { x: 0, y: 0 };
        self.scroll_delta = Vec2Fp { x: 0, y: 0 };
        self.pointer_moved = false;
        self.scrolled = false;
        self.camera_moved = false;
        proof {
            assert(self@.events =~= Seq::<Event>::empty());
            assert(time >= 0) by {
                vstd::arithmetic::div_mod::lemma_div_pos_is_pos(
                    (since_start * SCALE) as int,
                    TICKS_PER_SEC as int,
                );
            }
        }
        r
    }
}

/// One event appended to a snapshot's event list, everything else as is:
/// the abstract form of an event arriving between two renewals.
pub open spec fn spec_push_event(m: InputModel, e: Event) -> InputModel {
    InputModel { events: m.events.push(e), ..m }
}

/// A whole sequence of events appended in order.
pub open spec fn spec_push_all(m: InputModel, es: Seq<Event>) -> InputModel
    decreases es.len(),
{
    if es.len() == 0 {
        m
    } else {
        spec_push_all(spec_push_event(m, es[0]), es.drop_first())
    }
}

/// Appending events only appends: the event list grows by exactly `es` and
/// every other field stays as it was.
pub proof fn lemma_push_all_effect(m: InputModel, es: Seq<Event>)
    ensures
        spec_push_all(m, es) == (InputModel { events: m.events + es, ..m }),
    decreases es.len(),
{
    if es.len() == 0 {
        assert(m.events + es =~= m.events);
    } else {
        lemma_push_all_effect(spec_push_event(m, es[0]), es.drop_first());
        assert(m.events.push(es[0]) + es.drop_first() =~= m.events + es);
    }
}

/// Renewal round trip: whatever events arrive between two renewals appear
/// exactly once, and in order, in the snapshot the second renewal returns,
/// while held keys, buttons and modifiers from before the first renewal
/// persist into it unchanged.
pub proof fn lemma_renew_round_trip(m: InputModel, es: Seq<Event>, now1: u64, now2: u64)
    ensures
        spec_push_all(RawInput::spec_renewed(m, now1), es).events == es,
        spec_push_all(RawInput::spec_renewed(m, now1), es).forward == m.forward,
        spec_push_all(RawInput::spec_renewed(m, now1), es).back == m.back,
        spec_push_all(RawInput::spec_renewed(m, now1), es).left == m.left,
        spec_push_all(RawInput::spec_renewed(m, now1), es).right == m.right,
        spec_push_all(RawInput::spec_renewed(m, now1), es).mouse_buttons == m.mouse_buttons,
        spec_push_all(RawInput::spec_renewed(m, now1), es).modifiers == m.modifiers,
{
    let base = RawInput::spec_renewed(m, now1);
    lemma_push_all_effect(base, es);
    assert(base.events + es =~= es);
}

} // verus!

verus! {

/// The compact semantic snapshot the editor loop reads: held movement
/// keys, pointer state and mode flags, derived from a [`RawInput`].
#[derive(Clone, Copy, Debug, PartialEq, Eq, Structural)]
pub struct Input {
    pub forward: bool,
    pub back: bool,
    pub left: bool,
    pub right: bool,
    /// Pointer position in logical pixels (zero until first seen).
    pub pointer: Vec2Fp,
    pub pointer_moved: bool,
    pub left_mouse_button_pressed: bool,
    /// Whether free-look movement keys steer the camera.
    pub wasd_mode: bool,
    pub should_exit: bool,
}

impl Default for Input {
    fn default() -> (r: Input)
        ensures
            r == (Input {
                forward: false,
                back: false,
                left: false,
                right: false,
                pointer: (Vec2Fp { x: 0, y: 0 }),
                pointer_moved: false,
                left_mouse_button_pressed: false,
                wasd_mode: false,
                should_exit: false,
            }),
    {
        Input {
            forward: false,
            back: false,
            left: false,
            right: false,
            pointer: Vec2Fp { x: 0, y: 0 },
            pointer_moved: false,
            left_mouse_button_pressed: false,
            wasd_mode: false,
            should_exit: false,
        }
    }
}

impl RawInput {
    /// The semantic view of this snapshot.
    pub fn semantic(&self) -> (r: Input)
        ensures
            r.forward == self.forward,
            r.back == self.back,
            r.left == self.left,
            r.right == self.right,
            r.pointer == match self@.pointer_pos {
                Some(p) => p,
                None => Vec2Fp { x: 0, y: 0 },
            },
            r.pointer_moved == self.pointer_moved,
            r.left_mouse_button_pressed == self.mouse_buttons.primary,
            r.wasd_mode == self.mouse_buttons.secondary,
            r.should_exit == self.should_exit,
    {
        Input {
            forward: self.forward,
            back: self.back,
            left: self.left,
            right: self.right,
            pointer: match self.pointer_pos {
                Some(p) => p,
                None => Vec2Fp { x: 0, y: 0 },
            },
            pointer_moved: self.pointer_moved,
            left_mouse_button_pressed: self.mouse_buttons.primary,
            wasd_mode: self.mouse_buttons.secondary,
            should_exit: self.should_exit,
        }
    }
}

/// Whether a received character is printable text (platform layers send
/// special keys as control or private-use characters; those, and ASCII
/// control characters, are filtered out).
pub open spec fn spec_is_printable_char(c: char) -> bool {
    let u = c as u32;
    let private_use = (0xe000 <= u <= 0xf8ff) || (0xf0000 <= u <= 0xffffd) || (0x100000 <= u
        <= 0x10fffd);
    let ascii_control = u < 0x20 || u == 0x7f;
    !private_use && !ascii_control
}

/// Whether a received character should reach text input.
pub fn is_printable_char(chr: char) -> (r: bool)
    ensures
        r == spec_is_printable_char(chr),
{
    let u = chr as u32;
    let is_in_private_use_area = (0xe000 <= u && u <= 0xf8ff) || (0xf0000 <= u && u <= 0xffffd)
        || (0x100000 <= u && u <= 0x10fffd);
    let is_ascii_control = u < 0x20 || u == 0x7f;
    !is_in_private_use_area && !is_ascii_control
}

} // verus!
