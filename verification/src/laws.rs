//! Properties that span operations: of the key-ownership state machine (what every key event
//! keeps, what each binding does), and of the Caps Lock remapper.
use crate::caps_lock_remap::{enable_finished, remap_step, restore_finished, stepped, CapsLockRemapper, RemapStep};
use crate::input::{
    captured_press, consistent, cycled, entered_normal, ghostable, jumped, marked, motion_plan, move_pressed,
    normal_press, other_than, press_button, press_captures, press_transition, quit_chord, release_button,
    release_transition, runtime_update, synced, synced_ghosts, unmark_active, Followup, JumpTarget, MotionPlan,
    TrackerView,
};
use crate::keys::{
    exempt_key, grid_position, jump_key, mark_index, mark_key_of, move_key, os_modifier, runtime_modifier, Button, Key,
    KEY_FAST, KEY_INSERT_MODE, KEY_MOUSE_1, KEY_MOUSE_2, KEY_MOVE_DOWN, KEY_MOVE_LEFT, KEY_MOVE_RIGHT, KEY_MOVE_UP,
    KEY_NORMAL_MODE, KEY_SCROLL, KEY_SLOW, KEY_TOGGLE_OVERLAY, KEY_UNMARK_ALL, MARK_COUNT, mouse_key,
};
use crate::state::Action;
use crate::state::{move_index, moving, Mode, StateView};
use vstd::prelude::*;

verus! {

/// A ghosting sync re-establishes agreement between state and tracker, whatever the ghosted
/// set was, as long as everything else agrees.
pub proof fn lemma_sync_consistent<P, M, T>(s: StateView<P, M, T>, t: TrackerView)
    requires
        s.wf(),
        t.wf(),
        forall|k: Key| #[trigger] s.pressed.contains(k) ==> t.held.contains(k),
        forall|k: Key| #[trigger] s.pressed.contains(k) && move_key(k) ==> t.captured.contains(k),
    ensures
        consistent(s, synced(t, s.pressed)),
{
    let t2 = synced(t, s.pressed);
    assert forall|k: Key| #[trigger] t2.ghosted.contains(k) implies ghostable(k) && t2.forwarded.contains(k) by {
        if !ghostable(k) {
            assert(t.ghosted.contains(k));
        }
    }
    assert(t2.ghosted =~= synced_ghosts(t2.ghosted, s.pressed, t2.forwarded));
}

/// Filtering a key out of a duplicate-free sequence keeps it duplicate-free and removes
/// exactly that key.
pub proof fn lemma_filter_other(seq: Seq<Key>, key: Key)
    requires
        seq.no_duplicates(),
    ensures
        seq.filter(other_than(key)).no_duplicates(),
        forall|k: Key| #[trigger] seq.filter(other_than(key)).contains(k) <==> (seq.contains(k) && k != key),
    decreases seq.len(),
{
    reveal(Seq::filter);
    if seq.len() > 0 {
        let init = seq.drop_last();
        assert(init.no_duplicates());
        lemma_filter_other(init, key);
        assert(seq =~= init.push(seq.last()));
        init.lemma_filter_push(seq.last(), other_than(key));
        let f = seq.filter(other_than(key));
        let fi = init.filter(other_than(key));
        assert forall|k: Key| #[trigger] seq.contains(k) <==> (init.contains(k) || k == seq.last()) by {
            if seq.contains(k) && k != seq.last() {
                let j = choose|j: int| 0 <= j < seq.len() && seq[j] == k;
                assert(init[j] == k);
            }
            if init.contains(k) {
                let j = choose|j: int| 0 <= j < init.len() && init[j] == k;
                assert(seq[j] == k);
            }
            if k == seq.last() {
                assert(seq[seq.len() - 1] == k);
            }
        }
        if (other_than(key))(seq.last()) {
            assert(!init.contains(seq.last())) by {
                if init.contains(seq.last()) {
                    let j = choose|j: int| 0 <= j < init.len() && init[j] == seq.last();
                    assert(seq[j] == seq[seq.len() - 1]);
                }
            }
            assert forall|k: Key| #[trigger] f.contains(k) <==> (fi.contains(k) || k == seq.last()) by {
                if f.contains(k) && k != seq.last() {
                    let j = choose|j: int| 0 <= j < f.len() && f[j] == k;
                    assert(fi[j] == k);
                }
                if fi.contains(k) {
                    let j = choose|j: int| 0 <= j < fi.len() && fi[j] == k;
                    assert(f[j] == k);
                }
                if k == seq.last() {
                    assert(f[f.len() - 1] == k);
                }
            }
            assert(!fi.contains(seq.last()));
            assert forall|a: int, b: int| 0 <= a < f.len() && 0 <= b < f.len() && a != b
                implies f[a] != f[b] by {
                if a == f.len() - 1 {
                    assert(fi.contains(f[b]));
                } else if b == f.len() - 1 {
                    assert(fi.contains(f[a]));
                } else {
                    assert(f[a] == fi[a] && f[b] == fi[b]);
                }
            }
        }
    }
}

/// A key release keeps the state and the tracker in agreement.
pub proof fn law_release_preserves_consistency<P, M, T>(s: StateView<P, M, T>, t: TrackerView, key: Key)
    requires
        consistent(s, t),
    ensures
        consistent(release_transition(s, t, key).0, release_transition(s, t, key).1),
{
    let t1 = TrackerView {
        held: t.held.remove(key),
        captured: t.captured.remove(key),
        swallowed: t.swallowed.remove(key),
        ghosted: t.ghosted.remove(key),
        forwarded: t.forwarded.filter(other_than(key)),
        ..t
    };
    let s1 = StateView { pressed: runtime_update(s.pressed, s.mode, key, false), ..s };
    crate::input::lemma_runtime_update_wf(s, key, false);
    lemma_filter_other(t.forwarded, key);
    let s2 = release_transition(s, t, key).0;
    if t.captured.contains(key) {
        if move_key(key) {
            let s0 = StateView {
                pressed: s1.pressed.remove(key),
                move_key_pressed_at: s1.move_key_pressed_at.update(move_index(key), None),
                ..s1
            };
            assert forall|k: Key| move_key(k) implies (#[trigger] s0.pressed.contains(k)
                <==> s0.move_key_pressed_at[move_index(k)] is Some) by {
                if k != key {
                    assert(move_index(k) != move_index(key));
                    assert(s0.pressed.contains(k) == s1.pressed.contains(k));
                }
            }
            if s.mode == Mode::Insert {
                assert(s0.pressed =~= Set::<Key>::empty());
            }
            assert(s0.wf());
        }
        assert(s2.wf());
    }
    assert(s2.wf());
    assert forall|k: Key| #[trigger] s2.pressed.contains(k) implies t1.held.contains(k) by {
        assert(s.pressed.contains(k));
        if k == key {
            assert(!runtime_modifier(key));
            assert(move_key(key));
            assert(t.captured.contains(key));
        }
    }
    assert forall|k: Key| #[trigger] s2.pressed.contains(k) && move_key(k) implies t1.captured.contains(k) by {
        assert(s.pressed.contains(k));
    }
    assert(t1.wf());
    lemma_sync_consistent(s2, t1);
}

/// Runtime modifiers never change whether movement is under way.
pub proof fn lemma_runtime_update_moving(pressed: Set<Key>, mode: Mode, key: Key, is_down: bool)
    ensures
        moving(runtime_update(pressed, mode, key, is_down)) == moving(pressed),
{
    let p2 = runtime_update(pressed, mode, key, is_down);
    if runtime_modifier(key) {
        assert(!move_key(key));
        if moving(pressed) {
            let k = choose|k: Key| #[trigger] pressed.contains(k) && move_key(k);
            assert(p2.contains(k));
        }
        if moving(p2) {
            let k = choose|k: Key| #[trigger] p2.contains(k) && move_key(k);
            assert(pressed.contains(k));
        }
    }
}

/// Distinct move keys have distinct slots.
pub proof fn lemma_move_index_injective(a: Key, b: Key)
    requires
        move_key(a),
        move_key(b),
        a != b,
    ensures
        move_index(a) != move_index(b),
        0 <= move_index(a) < 4,
{
}

/// The action of a captured key pressed in Normal mode keeps the state well formed, and keeps
/// every key that steers motion held, and every steering move key captured.
pub proof fn lemma_normal_press_wf<P, M, T>(s: StateView<P, M, T>, t: TrackerView, key: Key, now: T, window_open: bool)
    requires
        s.wf(),
        s.mode == Mode::Normal,
        t.held.contains(key),
        t.captured.contains(key),
        forall|k: Key| #[trigger] s.pressed.contains(k) ==> t.held.contains(k),
        forall|k: Key| #[trigger] s.pressed.contains(k) && move_key(k) ==> t.captured.contains(k),
    ensures
        ({
            let s2 = normal_press(s, t, key, now, window_open).0;
            &&& s2.wf()
            &&& forall|k: Key| #[trigger] s2.pressed.contains(k) ==> t.held.contains(k)
            &&& forall|k: Key| #[trigger] s2.pressed.contains(k) && move_key(k) ==> t.captured.contains(k)
        }),
{
    let s2 = normal_press(s, t, key, now, window_open).0;
    if key == crate::keys::KEY_INSERT_MODE {
        let s0 = StateView {
            mode: Mode::Insert,
            pressed: Set::empty(),
            move_key_pressed_at: Seq::new(4, |i: int| None::<T>),
            ..s
        };
        assert(s0.wf());
        assert(s2.pressed == Set::<Key>::empty());
    } else if key == crate::keys::KEY_CYCLE_MONITOR {
        assert(s2.wf());
    } else if crate::keys::mouse_key(key) {
        assert(s2.wf());
    } else if key == crate::keys::KEY_TOGGLE_GRID || key == crate::keys::KEY_TOGGLE_GRID_LETTERS {
        assert(s2.wf());
    } else if move_key(key) {
        assert(s2 == move_pressed(s, key, now));
        assert forall|k: Key| move_key(k) implies (#[trigger] s2.pressed.contains(k)
            <==> s2.move_key_pressed_at[move_index(k)] is Some) by {
            if k != key {
                lemma_move_index_injective(k, key);
                assert(s2.pressed.contains(k) == s.pressed.contains(k));
            }
        }
        assert(s2.wf());
    } else if crate::keys::jump_key(key) {
        assert(s2.wf());
    } else if key == crate::keys::KEY_UNMARK_ALL {
        assert(s2.wf());
    } else if crate::keys::mark_key_of(key) {
        assert(0 <= crate::keys::mark_index(key) < 10);
        assert(s2.wf());
    } else {
        assert(s2.wf());
    }
}

/// The action of any captured fresh press keeps the state well formed and in agreement with
/// the tracker's held and captured keys.
pub proof fn lemma_captured_press_wf<P, M, T>(s: StateView<P, M, T>, t: TrackerView, key: Key, now: T, window_open: bool)
    requires
        s.wf(),
        t.held.contains(key),
        t.captured.contains(key),
        s.mode == Mode::Insert ==> key == crate::keys::KEY_NORMAL_MODE || key == crate::keys::KEY_TOGGLE_OVERLAY,
        forall|k: Key| #[trigger] s.pressed.contains(k) ==> t.held.contains(k),
        forall|k: Key| #[trigger] s.pressed.contains(k) && move_key(k) ==> t.captured.contains(k),
    ensures
        ({
            let s2 = captured_press(s, t, key, now, window_open).0;
            &&& s2.wf()
            &&& forall|k: Key| #[trigger] s2.pressed.contains(k) ==> t.held.contains(k)
            &&& forall|k: Key| #[trigger] s2.pressed.contains(k) && move_key(k) ==> t.captured.contains(k)
        }),
{
    let s2 = captured_press(s, t, key, now, window_open).0;
    if key == crate::keys::KEY_NORMAL_MODE {
        if s.mode == Mode::Insert {
            assert(s2 == entered_normal(s, t.held));
            assert forall|k: Key| #[trigger] s2.pressed.contains(k) implies t.held.contains(k) && runtime_modifier(k) by {
            }
            assert forall|k: Key| move_key(k) implies (#[trigger] s2.pressed.contains(k)
                <==> s2.move_key_pressed_at[move_index(k)] is Some) by {
                if s2.pressed.contains(k) {
                    assert(runtime_modifier(k));
                }
            }
            assert(s2.wf());
        }
    } else if key == crate::keys::KEY_TOGGLE_OVERLAY {
        assert(s2.wf());
    } else {
        let s1 = if !crate::keys::jump_key(key) { StateView { pending_subcell: None, ..s } } else { s };
        assert(s1.wf());
        lemma_normal_press_wf(s1, t, key, now, window_open);
    }
}

/// The part of a press shared by every path: the key becomes held and, when it is a runtime
/// modifier pressed in Normal mode, starts steering motion.
pub proof fn lemma_press_prefix<P, M, T>(s: StateView<P, M, T>, t: TrackerView, key: Key)
    requires
        consistent(s, t),
    ensures
        ({
            let t1 = TrackerView { held: t.held.insert(key), ..t };
            let s1 = StateView { pressed: runtime_update(s.pressed, s.mode, key, true), ..s };
            &&& s1.wf()
            &&& t1.wf()
            &&& moving(s1.pressed) == moving(s.pressed)
            &&& forall|k: Key| #[trigger] s1.pressed.contains(k) ==> t1.held.contains(k)
            &&& forall|k: Key| #[trigger] s1.pressed.contains(k) && move_key(k) ==> t.captured.contains(k)
        }),
{
    let t1 = TrackerView { held: t.held.insert(key), ..t };
    let s1 = StateView { pressed: runtime_update(s.pressed, s.mode, key, true), ..s };
    crate::input::lemma_runtime_update_wf(s, key, true);
    lemma_runtime_update_moving(s.pressed, s.mode, key, true);
    assert forall|k: Key| #[trigger] s1.pressed.contains(k) implies t1.held.contains(k) by {
        if k != key {
            assert(s.pressed.contains(k));
        }
    }
    assert forall|k: Key| #[trigger] s1.pressed.contains(k) && move_key(k) implies t.captured.contains(k) by {
        assert(s.pressed.contains(k));
    }
}

/// An OS modifier pressed fresh (swallowed or forwarded) keeps state and tracker in agreement.
pub proof fn lemma_press_modifier<P, M, T>(s: StateView<P, M, T>, t: TrackerView, key: Key, now: T, window_open: bool)
    requires
        consistent(s, t),
        !t.held.contains(key),
        os_modifier(key),
    ensures
        ({
            let t1 = TrackerView { held: t.held.insert(key), ..t };
            let s1 = StateView { pressed: runtime_update(s.pressed, s.mode, key, true), ..s };
            if s.mode == Mode::Normal && t.captured != Set::<Key>::empty() && runtime_modifier(key) {
                consistent(s1, TrackerView { swallowed: t.swallowed.insert(key), ..t1 })
            } else {
                consistent(s1, TrackerView { forwarded: t.forwarded.push(key), ..t1 })
            }
        }),
{
    lemma_press_prefix(s, t, key);
    let t1 = TrackerView { held: t.held.insert(key), ..t };
    let s1 = StateView { pressed: runtime_update(s.pressed, s.mode, key, true), ..s };
    if s.mode == Mode::Normal && t.captured != Set::<Key>::empty() && runtime_modifier(key) {
        let tw = TrackerView { swallowed: t.swallowed.insert(key), ..t1 };
        assert(tw.wf());
        assert(tw.ghosted =~= synced_ghosts(tw.ghosted, s1.pressed, tw.forwarded));
    } else {
        let tf = TrackerView { forwarded: t.forwarded.push(key), ..t1 };
        assert forall|k: Key| #[trigger] tf.forwarded.contains(k) <==> (t.forwarded.contains(k) || k == key) by {
            if tf.forwarded.contains(k) && k != key {
                let j = choose|j: int| 0 <= j < tf.forwarded.len() && tf.forwarded[j] == k;
                assert(t.forwarded[j] == k);
            }
            if t.forwarded.contains(k) {
                let j = choose|j: int| 0 <= j < t.forwarded.len() && t.forwarded[j] == k;
                assert(tf.forwarded[j] == k);
            }
            if k == key {
                assert(tf.forwarded[t.forwarded.len() as int] == k);
            }
        }
        assert(!t.forwarded.contains(key));
        assert(tf.forwarded.no_duplicates()) by {
            assert forall|a: int, b: int| 0 <= a < tf.forwarded.len() && 0 <= b < tf.forwarded.len() && a != b
                implies tf.forwarded[a] != tf.forwarded[b] by {
                if a == t.forwarded.len() {
                    assert(t.forwarded.contains(tf.forwarded[b]));
                } else if b == t.forwarded.len() {
                    assert(t.forwarded.contains(tf.forwarded[a]));
                } else {
                    assert(tf.forwarded[a] == t.forwarded[a] && tf.forwarded[b] == t.forwarded[b]);
                }
            }
        }
        assert(tf.wf());
        if ghostable(key) && moving(s.pressed) {
            let k = choose|k: Key| #[trigger] s.pressed.contains(k) && move_key(k);
            assert(t.captured.contains(k));
            assert(s.mode == Mode::Normal) by {
                if s.mode == Mode::Insert {
                    assert(s.pressed == Set::<Key>::empty());
                }
            }
        }
        assert forall|k: Key| #[trigger] tf.ghosted.contains(k) <==> synced_ghosts(tf.ghosted, s1.pressed, tf.forwarded).contains(k) by {
            if k == key {
                assert(!t.ghosted.contains(key));
            }
        }
        assert(tf.ghosted =~= synced_ghosts(tf.ghosted, s1.pressed, tf.forwarded));
    }
}

/// A fresh press of a key that is not an OS modifier, or of the overlay toggle with no
/// modifier forwarded, keeps state and tracker in agreement.
pub proof fn lemma_press_fresh<P, M, T>(s: StateView<P, M, T>, t: TrackerView, key: Key, now: T, window_open: bool)
    requires
        consistent(s, t),
        !t.held.contains(key),
        !os_modifier(key) || (key == KEY_TOGGLE_OVERLAY && t.forwarded.len() == 0),
    ensures
        ({
            let t1 = TrackerView { held: t.held.insert(key), ..t };
            let s1 = StateView { pressed: runtime_update(s.pressed, s.mode, key, true), ..s };
            let (s2, t2, out) = crate::input::fresh_press(s1, t1, key, now, window_open);
            consistent(s2, t2)
        }),
{
    lemma_press_prefix(s, t, key);
    let t1 = TrackerView { held: t.held.insert(key), ..t };
    let s1 = StateView { pressed: runtime_update(s.pressed, s.mode, key, true), ..s };
    let capture = press_captures(t1, s.mode, key);
    let t3 = if capture { TrackerView { captured: t1.captured.insert(key), ..t1 } } else { t1 };
    assert(t3.wf());
    let s3 = if capture { captured_press(s1, t3, key, now, window_open).0 } else { s1 };
    if capture {
        lemma_captured_press_wf(s1, t3, key, now, window_open);
    }
    let s4 = StateView { motion_needed: true, ..s3 };
    assert(s4.wf());
    lemma_sync_consistent(s4, t3);
}

/// Every key press keeps the state and the tracker in agreement: ghosted modifiers are
/// exactly the forwarded movement modifiers while moving, each held key has one fate, and
/// nothing steers motion in Insert mode.
pub proof fn law_press_preserves_consistency<P, M, T>(s: StateView<P, M, T>, t: TrackerView, key: Key, now: T, window_open: bool)
    requires
        consistent(s, t),
    ensures
        consistent(press_transition(s, t, key, now, window_open).0, press_transition(s, t, key, now, window_open).1),
{
    lemma_press_prefix(s, t, key);
    let t1 = TrackerView { held: t.held.insert(key), ..t };
    let s1 = StateView { pressed: runtime_update(s.pressed, s.mode, key, true), ..s };
    if t.held.contains(key) || quit_chord(t1.held, key) {
        assert(t1.ghosted =~= synced_ghosts(t1.ghosted, s1.pressed, t1.forwarded));
    } else if key == KEY_TOGGLE_OVERLAY && t.forwarded.len() == 0 {
        lemma_press_fresh(s, t, key, now, window_open);
    } else if os_modifier(key) {
        lemma_press_modifier(s, t, key, now, window_open);
    } else {
        lemma_press_fresh(s, t, key, now, window_open);
    }
}


/// The Normal-mode key is always captured, in either mode and whatever modifiers are held,
/// and leaves ViMouse in Normal mode.
pub proof fn law_normal_mode_key_enters_normal<P, M, T>(s: StateView<P, M, T>, t: TrackerView, now: T, window_open: bool)
    requires
        !t.held.contains(KEY_NORMAL_MODE),
    ensures
        ({
            let (s2, t2, out) = press_transition(s, t, KEY_NORMAL_MODE, now, window_open);
            out.captured && !out.quit && s2.mode == Mode::Normal && t2.captured.contains(KEY_NORMAL_MODE)
        }),
{
}

/// In Normal mode the Insert-mode key, pressed with no OS modifier held, is captured and
/// switches to Insert mode.
pub proof fn law_insert_key_enters_insert<P, M, T>(s: StateView<P, M, T>, t: TrackerView, now: T, window_open: bool)
    requires
        s.mode == Mode::Normal,
        !t.held.contains(KEY_INSERT_MODE),
        t.forwarded.len() == 0,
    ensures
        ({
            let (s2, t2, out) = press_transition(s, t, KEY_INSERT_MODE, now, window_open);
            out.captured && s2.mode == Mode::Insert
        }),
{
}

/// The overlay toggle (Right Shift) works in both modes: pressed with no OS modifier forwarded
/// it is captured and flips whether the overlays are shown, and nothing else of what they
/// show; its release is hidden from the OS too and changes nothing of what the overlays show.
pub proof fn law_overlay_toggle_flips<P, M, T>(s: StateView<P, M, T>, t: TrackerView, now: T, window_open: bool)
    requires
        !t.held.contains(KEY_TOGGLE_OVERLAY),
        t.forwarded.len() == 0,
    ensures
        ({
            let (s2, t2, out) = press_transition(s, t, KEY_TOGGLE_OVERLAY, now, window_open);
            let (s3, t3, rel) = release_transition(s2, t2, KEY_TOGGLE_OVERLAY);
            &&& out.captured
            &&& s2.show_overlays == !s.show_overlays
            &&& s2.mode == s.mode
            &&& s2.show_grid == s.show_grid
            &&& s2.show_grid_letters == s.show_grid_letters
            &&& s2.marks == s.marks
            &&& rel.captured
            &&& s3.show_overlays == s2.show_overlays
            &&& s3.mode == s2.mode
            &&& s3.show_grid == s2.show_grid
            &&& s3.show_grid_letters == s2.show_grid_letters
            &&& s3.marks == s2.marks
        }),
{
}

/// With the unmark key active, the unmark-all key removes every mark.
pub proof fn law_unmark_all_clears<P, M, T>(s: StateView<P, M, T>, t: TrackerView, now: T, window_open: bool)
    requires
        unmark_active(t),
    ensures
        forall|i: int| 0 <= i < s.marks.len() ==> (#[trigger] normal_press(s, t, KEY_UNMARK_ALL, now, window_open).0.marks[i]) is None,
        normal_press(s, t, KEY_UNMARK_ALL, now, window_open).0.marks.len() == s.marks.len(),
{
}

/// Insert mode is for typing: every key pressed in it reaches the OS, except the Normal-mode
/// key, the overlay toggle and the last key of the quit chord, and the mode stays Insert.
pub proof fn law_insert_mode_passes_keys<P, M, T>(s: StateView<P, M, T>, t: TrackerView, key: Key, now: T, window_open: bool)
    requires
        s.mode == Mode::Insert,
        !t.held.contains(key),
        key != KEY_NORMAL_MODE,
        key != KEY_TOGGLE_OVERLAY,
        !quit_chord(t.held.insert(key), key),
    ensures
        ({
            let (s2, t2, out) = press_transition(s, t, key, now, window_open);
            !out.captured && s2.mode == Mode::Insert
        }),
{
}

/// Leak mode: while an OS modifier that is not a movement modifier was the first one pressed
/// and is still held, Normal mode lets keys through so OS shortcuts (Ctrl+C, ...) keep working;
/// only the Normal-mode key, the two main clicks and the movement modifiers stay captured.
pub proof fn law_leak_mode_passes_keys<P, M, T>(s: StateView<P, M, T>, t: TrackerView, key: Key, now: T, window_open: bool)
    requires
        consistent(s, t),
        s.mode == Mode::Normal,
        t.forwarded.len() > 0,
        !runtime_modifier(t.forwarded[0]),
        !t.held.contains(key),
        !os_modifier(key),
        !runtime_modifier(key),
        key != KEY_NORMAL_MODE,
        key != KEY_MOUSE_1,
        key != KEY_MOUSE_2,
        !quit_chord(t.held.insert(key), key),
    ensures
        !press_transition(s, t, key, now, window_open).2.captured,
{
}

/// Keys on the exempt list (Return, Escape, Tab, the arrows, the function keys, the keypad,
/// ...) always reach the OS, in either mode.
pub proof fn law_exempt_keys_pass<P, M, T>(s: StateView<P, M, T>, t: TrackerView, key: Key, now: T, window_open: bool)
    requires
        exempt_key(key),
        !t.held.contains(key),
    ensures
        !press_transition(s, t, key, now, window_open).2.captured,
{
}

/// Pressing the last key of the quit chord (Left Ctrl, Alt, Left Shift and Q, with nothing
/// else held) quits, in either mode, and the press does not reach the OS.
pub proof fn law_quit_chord_quits<P, M, T>(s: StateView<P, M, T>, t: TrackerView, key: Key, now: T, window_open: bool)
    requires
        !t.held.contains(key),
        quit_chord(t.held.insert(key), key),
    ensures
        press_transition(s, t, key, now, window_open).2.quit,
        press_transition(s, t, key, now, window_open).2.captured,
{
}

/// A key's release reaches the OS exactly when its press did, unless the key is a movement
/// modifier ghosted in between (its release was then already sent); the decision taken at
/// the press sticks for the key's lifetime.
pub proof fn law_release_follows_press<P, M, T>(s: StateView<P, M, T>, t: TrackerView, key: Key, now: T, window_open: bool)
    requires
        consistent(s, t),
        !t.held.contains(key),
        !press_transition(s, t, key, now, window_open).2.quit,
    ensures
        ({
            let (s1, t1, pressed) = press_transition(s, t, key, now, window_open);
            let (s2, t2, released) = release_transition(s1, t1, key);
            released.captured == (pressed.captured || t1.ghosted.contains(key))
        }),
{
    assert(!t.captured.contains(key));
    assert(!t.swallowed.contains(key));
    assert(!t.forwarded.contains(key));
    assert(!t.ghosted.contains(key));
}

/// Nothing moves or scrolls in Insert mode.
pub proof fn law_no_motion_in_insert<P, M, T>(s: StateView<P, M, T>)
    requires
        s.mode == Mode::Insert,
    ensures
        motion_plan(s) == MotionPlan::Idle,
{
}

/// A mark set with its key is where the key jumps next; unmarking forgets it.
pub proof fn law_mark_set_then_jump<P, M, T>(s: StateView<P, M, T>, key: Key)
    requires
        mark_key_of(key),
        s.marks.len() == MARK_COUNT,
        s.marks[mark_index(key)] is None,
    ensures
        ({
            let (s1, f1) = marked(s, key, false);
            &&& f1 matches Followup::Nothing
            &&& s1.marks[mark_index(key)] == Some(s.cursor)
            &&& marked(s1, key, false).1 matches Followup::MoveCursorTo(p) && p == s.cursor
            &&& marked(s1, key, true).0.marks[mark_index(key)] is None
        }),
{
}

/// A click: pressing then releasing a button that is up queues its press then its release
/// and leaves it up.
pub proof fn law_click<P, M, T>(s: StateView<P, M, T>, button: Button)
    requires
        button == Button::Left ==> !s.left_button_down,
        button == Button::Right ==> !s.right_button_down,
    ensures
        ({
            let s2 = release_button(press_button(s, button), button);
            &&& s2.pending_actions == s.pending_actions.push(Action::ButtonPress(button)).push(Action::ButtonRelease(button))
            &&& s2.left_button_down == s.left_button_down
            &&& s2.right_button_down == s.right_button_down
        }),
{
}

/// Pressing a button twice queues one press: left and right clicks do not stack.
pub proof fn law_press_idempotent<P, M, T>(s: StateView<P, M, T>)
    ensures
        press_button(press_button(s, Button::Left), Button::Left) == press_button(s, Button::Left),
        press_button(press_button(s, Button::Right), Button::Right) == press_button(s, Button::Right),
{
}

/// Monitor cycling focuses the next monitor and wraps from the last to the first.
pub proof fn law_cycle_wraps<P, M, T>(s: StateView<P, M, T>)
    requires
        0 < s.monitors.len() <= usize::MAX,
        s.selected_monitor < s.monitors.len(),
    ensures
        ({
            let next = cycled(s).0.selected_monitor;
            &&& next < s.monitors.len()
            &&& s.selected_monitor + 1 < s.monitors.len() ==> next == s.selected_monitor + 1
            &&& s.selected_monitor + 1 == s.monitors.len() ==> next == 0
        }),
{
    let n = s.monitors.len() as int;
    let i = s.selected_monitor + 1;
    if i < n {
        vstd::arithmetic::div_mod::lemma_small_mod(i as nat, n as nat);
    } else {
        vstd::arithmetic::div_mod::lemma_mod_self_0(n);
    }
    vstd::arithmetic::div_mod::lemma_mod_pos_bound(i, n);
}

/// A jump key jumps to its cell; a second jump key within the subcell window jumps to its
/// subcell of that cell, and the window closes.
pub proof fn law_subcell_after_cell<P, M, T>(s: StateView<P, M, T>, first: Key, second: Key, now1: T, now2: T, open: bool)
    requires
        jump_key(first),
        jump_key(second),
        s.selected_monitor < s.monitors.len(),
    ensures
        ({
            let (s1, f1) = jumped(s, first, now1, false);
            let (s2, f2) = jumped(s1, second, now2, true);
            let (r1, c1) = grid_position(first);
            let (r2, c2) = grid_position(second);
            &&& f1 matches Followup::Jump { monitor, target } && monitor == s.selected_monitor
                && target == (JumpTarget::Cell { col: c1 as u8, row: r1 as u8 })
            &&& f2 matches Followup::Jump { monitor, target } && monitor == s.selected_monitor
                && target == (JumpTarget::Subcell { cell_col: c1 as u8, cell_row: r1 as u8, col: c2 as u8, row: r2 as u8 })
            &&& s2.pending_subcell is None
        }),
{
}

/// The "Caps Lock arrives as F18" flag agrees with whether the remap is on, which it only is
/// with a client.
pub open spec fn remap_consistent<M>(r: CapsLockRemapper<M>) -> bool {
    r.active == r.enabled && (r.enabled ==> r.has_client)
}

/// The "Caps Lock arrives as F18" flag always agrees with whether the remap is on: a new
/// remapper starts so, and every step of the protocol (a request, then the completion of the
/// work it asked for) keeps it so, whatever the outside work reported.
pub proof fn law_remap_flag_tracks_remap<M>(r: CapsLockRemapper<M>, enabled: bool, copied: Option<M>, written: bool)
    requires
        remap_consistent(r),
    ensures
        remap_consistent(CapsLockRemapper::<M> { has_client: r.has_client, user_mapping: None, enabled: false, active: false, error_logged: false }),
        remap_consistent(stepped(r, enabled)),
        remap_step(r, enabled) is Enable ==> remap_consistent(enable_finished(r, copied, written)),
        remap_step(r, enabled) is Restore ==> remap_consistent(restore_finished(r, written)),
{
}

/// One request to the remapper carried through: `set_enabled(req.0)`, then, where that asks for
/// outside work, its completion with what the work gave (`req.1` the copied user mapping,
/// `req.2` whether the write was accepted).
pub open spec fn remap_request<M>(r: CapsLockRemapper<M>, req: (bool, Option<M>, bool)) -> CapsLockRemapper<M> {
    let r1 = stepped(r, req.0);
    match remap_step(r, req.0) {
        RemapStep::Enable { .. } => enable_finished(r1, req.1, req.2),
        RemapStep::Restore => restore_finished(r1, req.2),
        _ => r1,
    }
}

/// A run of requests, each carried through.
pub open spec fn remap_run<M>(r: CapsLockRemapper<M>, reqs: Seq<(bool, Option<M>, bool)>) -> CapsLockRemapper<M>
    decreases reqs.len(),
{
    if reqs.len() == 0 {
        r
    } else {
        remap_request(remap_run(r, reqs.drop_last()), reqs.last())
    }
}

/// Over any run of requests from a new remapper, the "Caps Lock arrives as F18" flag agrees
/// with whether the remap is on; and after a request with a client whose write was accepted,
/// the remap is on exactly when it was asked to be.
pub proof fn law_remap_run_tracks_requests<M>(has_client: bool, reqs: Seq<(bool, Option<M>, bool)>)
    ensures
        ({
            let r0 = CapsLockRemapper::<M> { has_client, user_mapping: None, enabled: false, active: false, error_logged: false };
            let r = remap_run(r0, reqs);
            &&& remap_consistent(r)
            &&& r.has_client == has_client
            &&& reqs.len() > 0 && has_client && reqs.last().2 ==> r.active == reqs.last().0 && r.enabled == reqs.last().0
        }),
    decreases reqs.len(),
{
    if reqs.len() > 0 {
        law_remap_run_tracks_requests(has_client, reqs.drop_last());
    }
}

/// The button a click key stands for: left and right for the two main click keys, middle for
/// the third, and the platform's back and forward buttons for the last two.
pub open spec fn click_button(key: Key, t: TrackerView) -> Button {
    if key == KEY_MOUSE_1 {
        Button::Left
    } else if key == KEY_MOUSE_2 {
        Button::Right
    } else if key == crate::keys::KEY_MOUSE_3 {
        Button::Middle
    } else if key == crate::keys::KEY_MOUSE_4 {
        t.back_button
    } else {
        t.forward_button
    }
}

/// `button` is already held down, so pressing it again queues nothing.
pub open spec fn button_down<P, M, T>(s: StateView<P, M, T>, button: Button) -> bool {
    (button == Button::Left && s.left_button_down) || (button == Button::Right && s.right_button_down)
}

/// The two main clicks belong to ViMouse in Normal mode, whatever OS modifiers are forwarded
/// (so Ctrl+click and Shift+click reach the OS as clicks): a fresh press of either is captured
/// and queues a press of its button, unless that button is already down.
pub proof fn law_main_clicks_always_captured<P, M, T>(s: StateView<P, M, T>, t: TrackerView, key: Key, now: T, window_open: bool)
    requires
        s.mode == Mode::Normal,
        key == KEY_MOUSE_1 || key == KEY_MOUSE_2,
        !t.held.contains(key),
    ensures
        ({
            let (s2, t2, out) = press_transition(s, t, key, now, window_open);
            let b = if key == KEY_MOUSE_1 { Button::Left } else { Button::Right };
            &&& out.captured
            &&& !out.quit
            &&& t2.captured.contains(key)
            &&& s2.pending_actions == if button_down(s, b) {
                s.pending_actions
            } else {
                s.pending_actions.push(Action::ButtonPress(b))
            }
            &&& (b == Button::Left ==> s2.left_button_down)
            &&& (b == Button::Right ==> s2.right_button_down)
        }),
{
}

/// A click key held in Normal mode with no OS modifier forwarded (the two main clicks with any)
/// clicks its own button: the press queues the button's press (unless it is already down),
/// and the release that follows queues that same button's release and leaves it up.
#[verifier::spinoff_prover]
#[verifier::rlimit(60)]
pub proof fn law_click_key_press_then_release<P, M, T>(s: StateView<P, M, T>, t: TrackerView, key: Key, now: T, window_open: bool)
    requires
        s.mode == Mode::Normal,
        mouse_key(key),
        key == KEY_MOUSE_1 || key == KEY_MOUSE_2 || t.forwarded.len() == 0,
        !t.held.contains(key),
    ensures
        ({
            let b = click_button(key, t);
            let (s2, t2, out) = press_transition(s, t, key, now, window_open);
            let (s3, t3, rel) = release_transition(s2, t2, key);
            &&& out.captured
            &&& s2.pending_actions == if button_down(s, b) {
                s.pending_actions
            } else {
                s.pending_actions.push(Action::ButtonPress(b))
            }
            &&& rel.captured
            &&& s3.pending_actions == s2.pending_actions.push(Action::ButtonRelease(b))
            &&& (b == Button::Left ==> !s3.left_button_down)
            &&& (b == Button::Right ==> !s3.right_button_down)
        }),
{
    let t1 = TrackerView { held: t.held.insert(key), ..t };
    let s1 = StateView { pressed: runtime_update(s.pressed, s.mode, key, true), ..s };
    assert(!quit_chord(t1.held, key));
    assert(!os_modifier(key) && key != KEY_TOGGLE_OVERLAY && key != KEY_NORMAL_MODE && !exempt_key(key));
    assert(press_captures(t1, s.mode, key));
    assert(s1.pending_actions == s.pending_actions);
    let t2c = TrackerView { captured: t1.captured.insert(key), ..t1 };
    let s1b = StateView { pending_subcell: None, ..s1 };
    assert(!jump_key(key)) by {
        if jump_key(key) {
            let (r, c) = choose|r: int, c: int| 0 <= r < 3 && 0 <= c < 5 && #[trigger] crate::keys::grid_key(r, c) == key;
        }
    }
    assert(captured_press(s1, t2c, key, now, window_open).0 == press_button(s1b, click_button(key, t)));
}

/// Removing a mark (a mark key pressed while the unmark key is active, in Normal mode) removes
/// that key's mark alone: every other mark stays as it was.
pub proof fn law_unmark_removes_only_that_mark<P, M, T>(s: StateView<P, M, T>, t: TrackerView, key: Key, now: T, window_open: bool)
    requires
        s.mode == Mode::Normal,
        s.marks.len() == MARK_COUNT,
        mark_key_of(key),
        unmark_active(t),
        !t.held.contains(key),
    ensures
        ({
            let (s2, t2, out) = press_transition(s, t, key, now, window_open);
            &&& out.captured
            &&& s2.marks.len() == s.marks.len()
            &&& s2.marks[mark_index(key)] is None
            &&& forall|j: int| 0 <= j < s.marks.len() && j != mark_index(key) ==> #[trigger] s2.marks[j] == s.marks[j]
            &&& marked(s, key, true).0.marks.len() == s.marks.len()
            &&& forall|j: int| 0 <= j < s.marks.len() && j != mark_index(key) ==> #[trigger] marked(s, key, true).0.marks[j] == s.marks[j]
        }),
{
    let i = choose|i: int| 0 <= i < MARK_COUNT && #[trigger] crate::keys::mark_key(i) == key;
    crate::keys::lemma_mark_index(i);
}

/// Direction along one axis from the two keys that steer it: +1, -1, or 0 when both or neither
/// are held.
pub open spec fn steer(pressed: Set<Key>, pos: Key, neg: Key) -> int {
    (if pressed.contains(pos) { 1int } else { 0int }) - (if pressed.contains(neg) { 1int } else { 0int })
}

/// What one motion tick does, from the held keys alone: nothing outside Normal mode or with no
/// direction held; otherwise it scrolls while the scroll key is held and moves the cursor
/// else, in the direction of the held move keys, fast exactly while the fast key is held and
/// slow exactly while the slow key is held (for moving as for scrolling).
pub proof fn law_motion_follows_held_keys<P, M, T>(s: StateView<P, M, T>)
    ensures
        ({
            let h = steer(s.pressed, KEY_MOVE_RIGHT, KEY_MOVE_LEFT);
            let v = steer(s.pressed, KEY_MOVE_DOWN, KEY_MOVE_UP);
            let fast = s.pressed.contains(KEY_FAST);
            let slow = s.pressed.contains(KEY_SLOW);
            &&& (s.mode != Mode::Normal || (h == 0 && v == 0)) ==> motion_plan(s) == MotionPlan::Idle
            &&& (s.mode == Mode::Normal && (h != 0 || v != 0) && s.monitors.len() > 0) ==> (
                if s.pressed.contains(KEY_SCROLL) {
                    motion_plan(s) == (MotionPlan::Scroll { horizontal: h as i8, vertical: v as i8, fast, slow })
                } else {
                    motion_plan(s) == (MotionPlan::Move { horizontal: h as i8, vertical: v as i8, fast, slow })
                })
            &&& (motion_plan(s) matches MotionPlan::Move { fast: f, slow: w, .. } ==> f == fast && w == slow)
            &&& (motion_plan(s) matches MotionPlan::Scroll { fast: f, slow: w, .. } ==> f == fast && w == slow)
        }),
{
}

} // verus!
