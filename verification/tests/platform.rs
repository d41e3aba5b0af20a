use vimouse::caps_lock_remap::{
    caps_lock_remap_entry, finish_enable, finish_restore, kept_mappings, set_enabled, CapsLockRemapper, RemapError,
    RemapStep, HID_USAGE_CAPS_LOCK, HID_USAGE_F18,
};
use vimouse::caps_lock_suppress::{record_suppress, suppress, CapsLockSuppressor};
use vimouse::cursor_visibility::{set_cursor_hidden, CursorVisibility};
use vimouse::keys::{caps_lock_used_in_config, key_label, Button, Key};
use vimouse::platform_input::{
    button_mouse_4, button_mouse_5, flags_changed_is_press, key_from_code, linux_button_code, linux_button_mask,
    mac_button_index, mac_mouse_event, modifier_flag_active, other_button_index, scroll_axis_clicks, set_caps_lock_remap,
    shutdown_platform_input, ClickCounter, MacMouseEvent, Platform,
};
use vimouse::state::Action;

#[test]
fn remap_enable_then_restore() {
    let mut r: CapsLockRemapper<&str> = CapsLockRemapper::new(true);
    assert_eq!(set_enabled(&mut r, false), RemapStep::Unchanged);
    assert_eq!(set_enabled(&mut r, true), RemapStep::Enable { copy_user_mapping: true });
    assert_eq!(finish_enable(&mut r, Some("user"), true), Ok(()));
    assert!(r.enabled && r.active);
    assert_eq!(r.user_mapping, Some("user"));
    assert_eq!(set_enabled(&mut r, true), RemapStep::Unchanged);
    assert_eq!(set_enabled(&mut r, false), RemapStep::Restore);
    assert_eq!(finish_restore(&mut r, true), Ok(()));
    assert!(!r.enabled && !r.active);
    // The mapping read first is kept: no second read.
    assert_eq!(set_enabled(&mut r, true), RemapStep::Enable { copy_user_mapping: false });
    assert_eq!(finish_enable(&mut r, Some("other"), true), Ok(()));
    assert_eq!(r.user_mapping, Some("user"));
}

#[test]
fn remap_failures() {
    let mut none: CapsLockRemapper<u8> = CapsLockRemapper::new(false);
    assert_eq!(set_enabled(&mut none, true), RemapStep::Failed(RemapError::NoClient));
    assert!(!none.active);
    let mut r: CapsLockRemapper<u8> = CapsLockRemapper::new(true);
    set_enabled(&mut r, true);
    assert_eq!(finish_enable(&mut r, None, false), Err(RemapError::EnableFailed));
    assert!(!r.enabled && !r.active);
    set_enabled(&mut r, true);
    finish_enable(&mut r, None, true);
    set_enabled(&mut r, false);
    assert_eq!(finish_restore(&mut r, false), Err(RemapError::RestoreFailed));
    assert!(r.enabled && r.active);
    assert_eq!(RemapError::NoClient.message(), "failed to create macOS HID remap client");
    assert_eq!(RemapError::RestoreFailed.message(), "failed to restore macOS Caps Lock remap");
    assert!(r.note_error());
    assert!(!r.note_error());
}

#[test]
fn remap_keeps_other_mappings() {
    let sources = vec![Some(0x700000004), Some(HID_USAGE_CAPS_LOCK), None, Some(HID_USAGE_F18)];
    assert_eq!(kept_mappings(&sources), vec![0, 2, 3]);
    assert_eq!(caps_lock_remap_entry(), (0x700000039, 0x70000006D));
}

#[test]
fn suppress_once_when_caps_lock_bound() {
    assert!(caps_lock_used_in_config());
    let mut s = CapsLockSuppressor::new();
    assert!(suppress(&s));
    record_suppress(&mut s, false);
    assert!(suppress(&s));
    record_suppress(&mut s, true);
    assert!(!suppress(&s));
}

#[test]
fn cursor_requests_reach_platform_on_change_only() {
    let mut v = CursorVisibility::new();
    assert!(!set_cursor_hidden(&mut v, false));
    assert!(set_cursor_hidden(&mut v, true));
    assert!(!set_cursor_hidden(&mut v, true));
    assert!(set_cursor_hidden(&mut v, false));
}

#[test]
fn shutdown_restores_cursor_and_remap() {
    let mut v = CursorVisibility::new();
    set_cursor_hidden(&mut v, true);
    let mut r: CapsLockRemapper<u8> = CapsLockRemapper::new(true);
    assert_eq!(set_caps_lock_remap(&mut r, true), RemapStep::Enable { copy_user_mapping: true });
    finish_enable(&mut r, None, true);
    let plan = shutdown_platform_input(&mut v, &mut r);
    assert!(plan.show_cursor);
    assert_eq!(plan.remap, RemapStep::Restore);
    assert!(!v.hidden);
    let mut idle: CapsLockRemapper<u8> = CapsLockRemapper::new(false);
    let plan = shutdown_platform_input(&mut v, &mut idle);
    assert!(!plan.show_cursor);
    assert_eq!(plan.remap, RemapStep::Unchanged);
}

#[test]
fn extra_buttons_per_platform() {
    assert_eq!(button_mouse_4(Platform::Windows), Button::Unknown(1));
    assert_eq!(button_mouse_5(Platform::Windows), Button::Unknown(2));
    assert_eq!(button_mouse_4(Platform::Linux), Button::Unknown(8));
    assert_eq!(button_mouse_5(Platform::Linux), Button::Unknown(9));
    assert_eq!(button_mouse_4(Platform::MacOs), Button::Unknown(3));
    assert_eq!(button_mouse_5(Platform::MacOs), Button::Unknown(4));
}

#[test]
fn mac_key_codes() {
    assert_eq!(key_from_code(0, false), Key::KeyA);
    assert_eq!(key_from_code(4, false), Key::KeyH);
    assert_eq!(key_from_code(57, false), Key::CapsLock);
    assert_eq!(key_from_code(29, false), Key::Num0);
    assert_eq!(key_from_code(0x4F, false), Key::Unknown(0x4F));
    assert_eq!(key_from_code(0x4F, true), Key::CapsLock);
    assert_eq!(key_from_code(200, true), Key::Unknown(200));
}

#[test]
fn mac_modifier_flags() {
    assert!(modifier_flag_active(56, 0x0002_0000));
    assert!(!modifier_flag_active(56, 0x0010_0000));
    assert!(modifier_flag_active(55, 0x0010_0100));
    assert!(!modifier_flag_active(0, u64::MAX));
    let mut caps = false;
    assert!(flags_changed_is_press(57, &mut caps, false));
    assert!(caps);
    assert!(!flags_changed_is_press(57, &mut caps, true));
    assert!(!caps);
    assert!(flags_changed_is_press(58, &mut caps, true));
    assert!(!caps);
}

#[test]
fn button_numbers() {
    assert_eq!(other_button_index(Button::Middle), 2);
    assert_eq!(other_button_index(Button::Unknown(4)), 4);
    assert_eq!(linux_button_code(Button::Left), Some(1));
    assert_eq!(linux_button_code(Button::Right), Some(3));
    assert_eq!(linux_button_code(Button::Unknown(9)), Some(9));
    assert_eq!(linux_button_mask(Button::Left), Some(256));
    assert_eq!(linux_button_mask(Button::Right), Some(1024));
    assert_eq!(linux_button_mask(Button::Middle), None);
    assert_eq!(mac_button_index(Button::Right), Some(1));
    assert_eq!(mac_button_index(Button::Unknown(3)), None);
}

#[test]
fn scroll_clicks() {
    assert_eq!(scroll_axis_clicks(3, 5, 4), (4, 3));
    assert_eq!(scroll_axis_clicks(-2, 5, 4), (5, 2));
    assert_eq!(scroll_axis_clicks(0, 5, 4), (4, 0));
    assert_eq!(scroll_axis_clicks(i64::MIN, 6, 7), (6, 1u64 << 63));
}

#[test]
fn mac_event_kinds() {
    let mv: Action<(i32, i32)> = Action::MouseMove((1, 2));
    assert_eq!(mac_mouse_event(&mv, false, false), MacMouseEvent::Moved);
    assert_eq!(mac_mouse_event(&mv, true, true), MacMouseEvent::LeftDragged);
    assert_eq!(mac_mouse_event(&mv, false, true), MacMouseEvent::RightDragged);
    let down: Action<(i32, i32)> = Action::ButtonPress(Button::Right);
    assert_eq!(mac_mouse_event(&down, false, false), MacMouseEvent::RightDown);
    let other: Action<(i32, i32)> = Action::ButtonRelease(Button::Unknown(3));
    assert_eq!(mac_mouse_event(&other, false, false), MacMouseEvent::OtherUp(3));
    let middle: Action<(i32, i32)> = Action::ButtonPress(Button::Middle);
    assert_eq!(mac_mouse_event(&middle, false, false), MacMouseEvent::OtherDown(2));
}

#[test]
fn double_click_counting() {
    let mut c = ClickCounter::new();
    assert_eq!(c.register_press(true, true), 1);
    assert_eq!(c.register_press(true, true), 2);
    assert_eq!(c.register_press(true, true), 3);
    assert_eq!(c.register_press(false, true), 1);
    assert_eq!(c.register_press(false, false), 1);
}

#[test]
fn overlay_labels() {
    assert_eq!(key_label(Key::KeyQ), Some('Q'));
    assert_eq!(key_label(Key::Num0), Some('0'));
    assert_eq!(key_label(Key::Space), None);
}

#[test]
fn cursor_hide_and_show_calls_alternate() {
    let mut v = CursorVisibility::new();
    let mut calls: Vec<bool> = Vec::new();
    for request in [false, true, true, false, false, true, false, true, true] {
        if set_cursor_hidden(&mut v, request) {
            calls.push(request);
        }
    }
    assert_eq!(calls, vec![true, false, true, false, true]);
    assert!(v.hidden);
}
