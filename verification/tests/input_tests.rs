use terrain_editor::input::{is_printable_char, Input, Key, Modifiers, MouseButton, RawInput};
use terrain_editor::vec3::Vec2Fp;

fn fresh() -> RawInput {
    RawInput::new(0, Vec2Fp::new(800_000, 600_000), 1_000)
}

#[test]
fn key_codes_map_to_semantic_keys() {
    assert_eq!(Key::from_code(0), Key::Key1);
    assert_eq!(Key::from_code(9), Key::Key0);
    assert_eq!(Key::from_code(10), Key::A);
    assert_eq!(Key::from_code(35), Key::Z);
    assert_eq!(Key::from_code(36), Key::Escape);
    assert_eq!(Key::from_code(37), Key::F1);
    assert_eq!(Key::from_code(60), Key::F24);
    assert_eq!(Key::from_code(64), Key::Insert);
    assert_eq!(Key::from_code(70), Key::ArrowLeft);
    assert_eq!(Key::from_code(73), Key::ArrowDown);
    assert_eq!(Key::from_code(74), Key::Backspace);
    assert_eq!(Key::from_code(75), Key::Enter);
    assert_eq!(Key::from_code(76), Key::Space);
    assert_eq!(Key::from_code(80), Key::Num0);
    assert_eq!(Key::from_code(89), Key::Num9);
    assert_eq!(Key::from_code(146), Key::Tab);
}

#[test]
fn unmapped_key_codes_become_unknown() {
    // Print-screen, scroll-lock and pause sit between F24 and Insert.
    assert_eq!(Key::from_code(61), Key::Unknown);
    assert_eq!(Key::from_code(62), Key::Unknown);
    assert_eq!(Key::from_code(63), Key::Unknown);
    assert_eq!(Key::from_code(9999), Key::Unknown);
}

#[test]
fn button_codes_map_to_buttons() {
    assert_eq!(MouseButton::from_code(0), MouseButton::Primary);
    assert_eq!(MouseButton::from_code(1), MouseButton::Secondary);
    assert_eq!(MouseButton::from_code(2), MouseButton::Middle);
    assert_eq!(MouseButton::from_code(7), MouseButton::Unknown);
}

#[test]
fn printable_chars_are_filtered() {
    assert!(is_printable_char('a'));
    assert!(is_printable_char(' '));
    assert!(is_printable_char('é'));
    assert!(!is_printable_char('\u{e000}'));
    assert!(!is_printable_char('\u{f0000}'));
    assert!(!is_printable_char('\u{8}'));
    assert!(!is_printable_char('\t'));
    assert!(!is_printable_char('\u{7f}'));
}

#[test]
fn renew_round_trip_returns_each_event_once() {
    let mut ri = fresh();
    // W pressed (letter index 22 after the ten digit codes).
    ri.on_key(32, true);
    ri.on_pointer_moved(Vec2Fp::new(100_000, 50_000));
    assert!(ri.forward);
    let first = ri.renew(16_000);
    assert_eq!(first.events.len(), 2);
    // Held state persists across the renewal, per-frame state resets.
    assert!(ri.forward);
    assert_eq!(ri.events.len(), 0);
    assert!(!ri.pointer_moved);
    // Events recorded after the renewal appear exactly once in the next.
    ri.on_key(32, false);
    let second = ri.renew(32_000);
    assert_eq!(second.events.len(), 1);
    assert!(!ri.forward);
    let third = ri.renew(48_000);
    assert_eq!(third.events.len(), 0);
}

#[test]
fn renew_computes_capped_delta_time() {
    let mut ri = fresh();
    ri.renew(500_000);
    // Half a second in clock ticks is 0.5 fixed-point seconds.
    assert_eq!(ri.delta_time, 500);
    ri.renew(600_000);
    assert_eq!(ri.delta_time, 100);
    // A stall longer than the cap is reported as the cap.
    ri.renew(600_000 + 3_600_000_000);
    assert_eq!(ri.delta_time, 10_000);
}

#[test]
fn pointer_position_is_scaled_to_logical_pixels() {
    let mut ri = RawInput::new(0, Vec2Fp::new(800_000, 600_000), 2_000);
    ri.on_pointer_moved(Vec2Fp::new(400_000, 100_000));
    assert_eq!(ri.pointer_pos, Some(Vec2Fp::new(200_000, 50_000)));
    assert!(ri.pointer_moved);
}

#[test]
fn pointer_delta_accumulates_only_in_focused_free_look() {
    let mut ri = fresh();
    ri.on_pointer_delta(Vec2Fp::new(1_000, 2_000), false);
    assert_eq!(ri.pointer_delta, Vec2Fp::new(0, 0));
    ri.on_pointer_delta(Vec2Fp::new(1_000, 2_000), true);
    ri.on_pointer_delta(Vec2Fp::new(500, -500), true);
    assert_eq!(ri.pointer_delta, Vec2Fp::new(1_500, 1_500));
    ri.on_focus(false);
    ri.on_pointer_delta(Vec2Fp::new(9_000, 9_000), true);
    assert_eq!(ri.pointer_delta, Vec2Fp::new(1_500, 1_500));
    // Consumption zeroes the accumulated delta.
    ri.renew(16_000);
    assert_eq!(ri.pointer_delta, Vec2Fp::new(0, 0));
}

#[test]
fn focus_loss_clears_modifiers() {
    let mut ri = fresh();
    ri.on_modifiers(Modifiers { alt: true, ctrl: true, shift: false, logo: true });
    assert!(ri.modifiers.ctrl);
    ri.on_focus(false);
    assert_eq!(ri.modifiers, Modifiers::default());
}

#[test]
fn scroll_accumulates_and_sets_flag() {
    let mut ri = fresh();
    ri.on_scroll(Vec2Fp::new(0, 1_000));
    ri.on_scroll(Vec2Fp::new(0, 500));
    assert!(ri.scrolled);
    assert_eq!(ri.scroll_delta, Vec2Fp::new(0, 1_500));
    ri.renew(16_000);
    assert_eq!(ri.scroll_delta, Vec2Fp::new(0, 0));
    assert!(!ri.scrolled);
}

#[test]
fn buttons_set_held_state_and_record_events() {
    let mut ri = fresh();
    ri.on_button(0, true);
    ri.on_button(1, true);
    assert!(ri.mouse_buttons.primary);
    assert!(ri.mouse_buttons.secondary);
    assert!(!ri.mouse_buttons.middle);
    ri.on_button(0, false);
    assert!(!ri.mouse_buttons.primary);
    assert_eq!(ri.events.len(), 3);
}

#[test]
fn semantic_view_reflects_held_state() {
    let mut ri = fresh();
    assert_eq!(ri.semantic(), Input::default());
    ri.on_key(32, true);
    ri.on_button(0, true);
    ri.on_button(1, true);
    ri.on_pointer_moved(Vec2Fp::new(10_000, 20_000));
    let view = ri.semantic();
    assert!(view.forward && !view.back);
    assert!(view.left_mouse_button_pressed);
    assert!(view.wasd_mode);
    assert!(view.pointer_moved);
    assert_eq!(view.pointer, Vec2Fp::new(10_000, 20_000));
    assert!(!view.should_exit);
}
