use vimouse::input::{
    handle_key_event, handle_key_press, handle_key_release, plan_motion, take_pending_key_events, Followup, HookTracker,
    JumpTarget, MotionPlan,
};
use vimouse::keys::{Button, Key, KEY_NORMAL_MODE};
use vimouse::state::{Action, Mode, SharedState};

type State = SharedState<(i32, i32), u8, u64>;

fn fresh() -> (State, HookTracker) {
    let state = SharedState::new((500, 300), 0, vec![0u8, 1u8]);
    let tracker = HookTracker::new(true, Button::Unknown(1), Button::Unknown(2));
    (state, tracker)
}

fn press(state: &mut State, tracker: &mut HookTracker, key: Key) -> vimouse::input::KeyPressOutcome<(i32, i32)> {
    handle_key_press(state, tracker, key, 0, false)
}

#[test]
fn launch_state_is_normal_mode_with_mode_line() {
    let (state, _) = fresh();
    assert_eq!(state.mode, Mode::Normal);
    assert!(state.show_overlays && state.show_mode_line);
    assert!(!state.show_grid && !state.show_grid_letters);
    assert_eq!(state.marks.len(), 10);
    assert!(state.marks.iter().all(|m| m.is_none()));
}

#[test]
fn insert_key_enters_insert_mode_and_is_captured() {
    let (mut state, mut tracker) = fresh();
    let out = press(&mut state, &mut tracker, Key::KeyI);
    assert!(out.captured);
    assert!(out.ui_changed);
    assert_eq!(state.mode, Mode::Insert);
}

#[test]
fn insert_mode_passes_typing_through() {
    let (mut state, mut tracker) = fresh();
    press(&mut state, &mut tracker, Key::KeyI);
    handle_key_release(&mut state, &mut tracker, Key::KeyI);
    for key in [Key::KeyH, Key::KeyJ, Key::SemiColon, Key::KeyQ, Key::Num1, Key::Space] {
        let out = press(&mut state, &mut tracker, key);
        assert!(!out.captured, "{:?} should pass through in Insert mode", key);
        let rel = handle_key_release(&mut state, &mut tracker, key);
        assert!(!rel.captured);
    }
    assert_eq!(state.mode, Mode::Insert);
}

#[test]
fn normal_mode_key_returns_to_normal_and_is_captured() {
    let (mut state, mut tracker) = fresh();
    press(&mut state, &mut tracker, Key::KeyI);
    handle_key_release(&mut state, &mut tracker, Key::KeyI);
    let out = press(&mut state, &mut tracker, KEY_NORMAL_MODE);
    assert!(out.captured);
    assert_eq!(state.mode, Mode::Normal);
    assert!(matches!(out.followup, Followup::ReselectMonitor));
    let rel = handle_key_release(&mut state, &mut tracker, KEY_NORMAL_MODE);
    assert!(rel.captured);
}

#[test]
fn exempt_keys_always_pass() {
    let (mut state, mut tracker) = fresh();
    for key in [Key::Return, Key::Escape, Key::Tab, Key::UpArrow, Key::F5, Key::Kp3] {
        let out = press(&mut state, &mut tracker, key);
        assert!(!out.captured);
        assert!(!handle_key_release(&mut state, &mut tracker, key).captured);
    }
}

#[test]
fn quit_chord_quits() {
    let (mut state, mut tracker) = fresh();
    assert!(!press(&mut state, &mut tracker, Key::ControlLeft).quit);
    assert!(!press(&mut state, &mut tracker, Key::Alt).quit);
    assert!(!press(&mut state, &mut tracker, Key::ShiftLeft).quit);
    let out = press(&mut state, &mut tracker, Key::KeyQ);
    assert!(out.quit);
    assert!(out.captured);
}

#[test]
fn extra_held_key_blocks_quit_chord() {
    let (mut state, mut tracker) = fresh();
    press(&mut state, &mut tracker, Key::Return);
    press(&mut state, &mut tracker, Key::ControlLeft);
    press(&mut state, &mut tracker, Key::Alt);
    press(&mut state, &mut tracker, Key::ShiftLeft);
    assert!(!press(&mut state, &mut tracker, Key::KeyQ).quit);
}

#[test]
fn click_key_queues_press_then_release() {
    let (mut state, mut tracker) = fresh();
    let out = press(&mut state, &mut tracker, Key::SemiColon);
    assert!(out.captured && out.wake_motion);
    assert!(state.left_button_down);
    let rel = handle_key_release(&mut state, &mut tracker, Key::SemiColon);
    assert!(rel.captured && rel.wake_motion);
    assert!(!state.left_button_down);
    let (actions, _) = plan_motion(&mut state);
    assert_eq!(actions.len(), 2);
    assert!(matches!(actions[0], Action::ButtonPress(Button::Left)));
    assert!(matches!(actions[1], Action::ButtonRelease(Button::Left)));
    assert!(state.pending_actions.is_empty());
}

#[test]
fn back_button_key_uses_platform_button() {
    let (mut state, mut tracker) = fresh();
    press(&mut state, &mut tracker, Key::KeyO);
    handle_key_release(&mut state, &mut tracker, Key::KeyO);
    let (actions, _) = plan_motion(&mut state);
    assert!(matches!(actions[0], Action::ButtonPress(Button::Unknown(1))));
    assert!(matches!(actions[1], Action::ButtonRelease(Button::Unknown(1))));
}

#[test]
fn insert_mode_releases_held_click() {
    let (mut state, mut tracker) = fresh();
    press(&mut state, &mut tracker, Key::SemiColon);
    press(&mut state, &mut tracker, Key::KeyI);
    assert_eq!(state.mode, Mode::Insert);
    assert!(!state.left_button_down);
    let (actions, _) = plan_motion(&mut state);
    assert!(matches!(actions[actions.len() - 1], Action::ButtonRelease(Button::Left)));
}

#[test]
fn move_keys_plan_motion() {
    let (mut state, mut tracker) = fresh();
    press(&mut state, &mut tracker, Key::KeyL);
    press(&mut state, &mut tracker, Key::KeyJ);
    let (_, plan) = plan_motion(&mut state);
    assert_eq!(plan, MotionPlan::Move { horizontal: 1, vertical: 1, fast: false, slow: false });
    press(&mut state, &mut tracker, Key::Space);
    let (_, plan) = plan_motion(&mut state);
    assert_eq!(plan, MotionPlan::Move { horizontal: 1, vertical: 1, fast: true, slow: false });
    handle_key_release(&mut state, &mut tracker, Key::KeyL);
    handle_key_release(&mut state, &mut tracker, Key::KeyJ);
    let (_, plan) = plan_motion(&mut state);
    assert_eq!(plan, MotionPlan::Idle);
    assert!(!state.motion_needed);
}

#[test]
fn opposite_move_keys_cancel() {
    let (mut state, mut tracker) = fresh();
    press(&mut state, &mut tracker, Key::KeyH);
    press(&mut state, &mut tracker, Key::KeyL);
    let (_, plan) = plan_motion(&mut state);
    assert_eq!(plan, MotionPlan::Idle);
}

#[test]
fn shift_with_move_key_scrolls() {
    let (mut state, mut tracker) = fresh();
    let shift = press(&mut state, &mut tracker, Key::ShiftLeft);
    assert!(!shift.captured);
    let out = press(&mut state, &mut tracker, Key::KeyK);
    assert!(out.captured);
    let (_, plan) = plan_motion(&mut state);
    assert_eq!(plan, MotionPlan::Scroll { horizontal: 0, vertical: -1, fast: false, slow: false });
}

#[test]
fn no_monitor_means_no_motion_this_tick() {
    let mut state: State = SharedState::new((0, 0), 0, Vec::new());
    let mut tracker = HookTracker::new(true, Button::Unknown(1), Button::Unknown(2));
    press(&mut state, &mut tracker, Key::KeyH);
    let (_, plan) = plan_motion(&mut state);
    assert_eq!(plan, MotionPlan::NoMonitor);
}

#[test]
fn held_ctrl_leaks_keys_to_os() {
    let (mut state, mut tracker) = fresh();
    let ctrl = press(&mut state, &mut tracker, Key::ControlLeft);
    assert!(!ctrl.captured);
    let c = press(&mut state, &mut tracker, Key::KeyC);
    assert!(!c.captured);
    assert!(!handle_key_release(&mut state, &mut tracker, Key::KeyC).captured);
    assert!(!handle_key_release(&mut state, &mut tracker, Key::ControlLeft).captured);
}

#[test]
fn capture_decision_sticks_until_release() {
    let (mut state, mut tracker) = fresh();
    let j = press(&mut state, &mut tracker, Key::KeyJ);
    assert!(j.captured);
    press(&mut state, &mut tracker, Key::ControlLeft);
    let repeat = press(&mut state, &mut tracker, Key::KeyJ);
    assert!(repeat.captured);
    assert!(handle_key_release(&mut state, &mut tracker, Key::KeyJ).captured);
}

#[test]
fn runtime_modifier_during_action_is_swallowed() {
    let (mut state, mut tracker) = fresh();
    press(&mut state, &mut tracker, Key::KeyJ);
    let shift = press(&mut state, &mut tracker, Key::ShiftLeft);
    assert!(shift.captured);
    assert!(handle_key_release(&mut state, &mut tracker, Key::ShiftLeft).captured);
}

#[test]
fn forwarded_movement_modifier_is_ghosted_while_moving() {
    let (mut state, mut tracker) = fresh();
    press(&mut state, &mut tracker, Key::ShiftLeft);
    press(&mut state, &mut tracker, Key::KeyJ);
    let events = take_pending_key_events(&mut tracker);
    assert_eq!(events, vec![(Key::ShiftLeft, false)]);
    handle_key_release(&mut state, &mut tracker, Key::KeyJ);
    let events = take_pending_key_events(&mut tracker);
    assert_eq!(events, vec![(Key::ShiftLeft, true)]);
}

#[test]
fn replayed_synthetic_event_passes_untouched() {
    let (mut state, mut tracker) = fresh();
    vimouse::input::mark_passthrough_key_event(&mut tracker, Key::ShiftLeft, false);
    let out = handle_key_event(&mut state, &mut tracker, Key::ShiftLeft, false, 0, false);
    assert!(out.is_none());
    assert!(tracker.passthrough_key_events.is_empty());
}

#[test]
fn cycle_monitor_wraps_and_recenters() {
    let (mut state, mut tracker) = fresh();
    let out = press(&mut state, &mut tracker, Key::KeyN);
    assert!(matches!(out.followup, Followup::CenterOnMonitor(1)));
    assert_eq!(state.selected_monitor, 1);
    handle_key_release(&mut state, &mut tracker, Key::KeyN);
    let out = press(&mut state, &mut tracker, Key::KeyN);
    assert!(matches!(out.followup, Followup::CenterOnMonitor(0)));
    assert_eq!(state.selected_monitor, 0);
}

#[test]
fn jump_then_subcell_jump() {
    let (mut state, mut tracker) = fresh();
    let out = handle_key_press(&mut state, &mut tracker, Key::KeyD, 10, false);
    match out.followup {
        Followup::Jump { monitor, target } => {
            assert_eq!(monitor, 0);
            assert_eq!(target, JumpTarget::Cell { col: 2, row: 1 });
        }
        _ => panic!("expected a jump"),
    }
    handle_key_release(&mut state, &mut tracker, Key::KeyD);
    let out = handle_key_press(&mut state, &mut tracker, Key::KeyB, 11, true);
    match out.followup {
        Followup::Jump { target, .. } => {
            assert_eq!(target, JumpTarget::Subcell { cell_col: 2, cell_row: 1, col: 4, row: 2 })
        }
        _ => panic!("expected a subcell jump"),
    }
    assert!(state.pending_subcell.is_none());
}

#[test]
fn expired_window_jumps_to_cell_again() {
    let (mut state, mut tracker) = fresh();
    handle_key_press(&mut state, &mut tracker, Key::KeyQ, 1, false);
    handle_key_release(&mut state, &mut tracker, Key::KeyQ);
    let out = handle_key_press(&mut state, &mut tracker, Key::KeyW, 900, false);
    match out.followup {
        Followup::Jump { target, .. } => assert_eq!(target, JumpTarget::Cell { col: 1, row: 0 }),
        _ => panic!("expected a cell jump"),
    }
}

#[test]
fn mark_set_jump_and_unmark() {
    let (mut state, mut tracker) = fresh();
    let set = press(&mut state, &mut tracker, Key::Num3);
    assert!(set.captured && set.ui_changed);
    assert_eq!(state.marks[2], Some((500, 300)));
    handle_key_release(&mut state, &mut tracker, Key::Num3);
    let jump = press(&mut state, &mut tracker, Key::Num3);
    assert!(matches!(jump.followup, Followup::MoveCursorTo((500, 300))));
    handle_key_release(&mut state, &mut tracker, Key::Num3);
    press(&mut state, &mut tracker, Key::ShiftLeft);
    let unmark = press(&mut state, &mut tracker, Key::Num3);
    assert!(unmark.captured);
    assert_eq!(state.marks[2], None);
}

#[test]
fn unmark_all_clears_every_mark() {
    let (mut state, mut tracker) = fresh();
    for key in [Key::Num1, Key::Num0] {
        press(&mut state, &mut tracker, key);
        handle_key_release(&mut state, &mut tracker, key);
    }
    assert!(state.marks[0].is_some() && state.marks[9].is_some());
    press(&mut state, &mut tracker, Key::ShiftLeft);
    press(&mut state, &mut tracker, Key::BackQuote);
    assert!(state.marks.iter().all(|m| m.is_none()));
}

#[test]
fn overlay_toggles() {
    let (mut state, mut tracker) = fresh();
    press(&mut state, &mut tracker, Key::Slash);
    assert!(state.show_grid);
    press(&mut state, &mut tracker, Key::Dot);
    assert!(state.show_grid_letters);
    let out = press(&mut state, &mut tracker, Key::ShiftRight);
    assert!(out.captured && out.ui_changed);
    assert!(!state.show_overlays);
    let rel = handle_key_release(&mut state, &mut tracker, Key::ShiftRight);
    assert!(rel.captured);
    assert!(!state.show_overlays);
    let out = press(&mut state, &mut tracker, Key::ShiftRight);
    assert!(out.captured);
    assert!(state.show_overlays);
}

#[test]
fn overlay_toggle_works_in_insert_mode() {
    let (mut state, mut tracker) = fresh();
    press(&mut state, &mut tracker, Key::KeyI);
    handle_key_release(&mut state, &mut tracker, Key::KeyI);
    let out = press(&mut state, &mut tracker, Key::ShiftRight);
    assert!(out.captured);
    assert!(!state.show_overlays);
    assert_eq!(state.mode, Mode::Insert);
    let rel = handle_key_release(&mut state, &mut tracker, Key::ShiftRight);
    assert!(rel.captured);
}

#[test]
fn right_shift_with_forwarded_modifier_reaches_os() {
    let (mut state, mut tracker) = fresh();
    let ctrl = press(&mut state, &mut tracker, Key::ControlLeft);
    assert!(!ctrl.captured);
    let out = press(&mut state, &mut tracker, Key::ShiftRight);
    assert!(!out.captured);
    assert!(state.show_overlays);
    let rel = handle_key_release(&mut state, &mut tracker, Key::ShiftRight);
    assert!(!rel.captured);
}

#[test]
fn alt_gr_no_longer_toggles_overlays() {
    let (mut state, mut tracker) = fresh();
    press(&mut state, &mut tracker, Key::AltGr);
    assert!(state.show_overlays);
}

#[test]
fn no_motion_in_insert_mode() {
    let (mut state, mut tracker) = fresh();
    press(&mut state, &mut tracker, Key::KeyI);
    handle_key_release(&mut state, &mut tracker, Key::KeyI);
    press(&mut state, &mut tracker, Key::KeyL);
    let (_, plan) = plan_motion(&mut state);
    assert_eq!(plan, MotionPlan::Idle);
    assert!(!state.motion_needed);
}

#[test]
fn repeated_click_press_queues_once() {
    let (mut state, _) = fresh();
    vimouse::input::press_mouse_button(&mut state, Button::Left);
    vimouse::input::press_mouse_button(&mut state, Button::Left);
    assert_eq!(state.pending_actions.len(), 1);
    vimouse::input::release_mouse_button(&mut state, Button::Left);
    vimouse::input::release_mouse_button(&mut state, Button::Left);
    assert_eq!(state.pending_actions.len(), 2);
    assert!(!state.left_button_down);
}

#[test]
fn ghosted_modifier_release_is_hidden() {
    let (mut state, mut tracker) = fresh();
    let shift = press(&mut state, &mut tracker, Key::ShiftLeft);
    assert!(!shift.captured);
    press(&mut state, &mut tracker, Key::KeyH);
    // Shift is ghosted while moving: its release was already sent, so the real one is hidden.
    assert!(handle_key_release(&mut state, &mut tracker, Key::ShiftLeft).captured);
}
