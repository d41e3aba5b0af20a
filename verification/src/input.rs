//! The key-ownership state machine.
//!
//! Every key press is either *captured* (dropped from the OS stream and acted on), *forwarded*
//! (an OS modifier pressed while ViMouse is idle: passed on and remembered in press order),
//! *swallowed* (an OS modifier pressed during a ViMouse action: hidden until released), or
//! passed through. The decision is taken at press time and sticks for the key's lifetime: the
//! release of a hidden key is hidden too. While movement is under way, forwarded movement
//! modifiers are *ghosted*: the OS is sent a synthetic release, and a synthetic press once the
//! movement stops.
use crate::key_set::KeySet;
use crate::keys::{
    exempt_key, grid_position, is_exempt_key, is_jump_key, is_mark_key, is_move_key, is_mouse_key,
    is_os_modifier, is_quit_chord_key, is_runtime_modifier, jump_grid_index, jump_key, mark_index, mark_key_of, mark_slot, mouse_key, move_key, os_modifier, quit_chord_key, runtime_modifier,
    Button, Key, INSERT_MODE_HIDE_CURSOR, KEY_CYCLE_MONITOR,
    KEY_FAST, KEY_INSERT_MODE, KEY_MOUSE_1, KEY_MOUSE_2, KEY_MOUSE_3, KEY_MOUSE_4, KEY_MOUSE_5,
    KEY_MOVE_DOWN, KEY_MOVE_LEFT, KEY_MOVE_RIGHT, KEY_MOVE_UP, KEY_NORMAL_MODE, KEY_SCROLL,
    KEY_SLOW, KEY_TOGGLE_GRID, KEY_TOGGLE_GRID_LETTERS, KEY_TOGGLE_OVERLAY, KEY_UNMARK,
    KEY_UNMARK_ALL, MARK_COUNT,
};
use crate::state::{move_index, move_slot, moving, Action, Mode, SharedState, StateView};
use vstd::prelude::*;

verus! {

/// What the input hook remembers about the keys it has seen.
pub struct HookTracker {
    pub held_keys: KeySet,
    pub captured_keys: KeySet,
    /// OS modifiers currently forwarded to the OS, oldest press first.
    pub forwarded_modifiers: Vec<Key>,
    pub swallowed_modifiers: KeySet,
    pub ghosted_modifiers: KeySet,
    /// Whether the platform hook observes the synthetic key events this program emits
    /// (Windows and macOS low-level hooks do; the Linux grab does not).
    pub replays_synthetic_events: bool,
    /// Platform button numbers of the back (X1) and forward (X2) mouse buttons.
    pub back_button: Button,
    pub forward_button: Button,
    /// Synthetic key events emitted and not yet seen again by the hook.
    pub passthrough_key_events: Vec<(Key, bool)>,
    /// Synthetic key events (key, is_press) waiting to be emitted.
    pub pending_key_events: Vec<(Key, bool)>,
}

/// The mathematical content of a `HookTracker`.
pub struct TrackerView {
    pub held: Set<Key>,
    pub captured: Set<Key>,
    pub forwarded: Seq<Key>,
    pub swallowed: Set<Key>,
    pub ghosted: Set<Key>,
    pub replays_synthetic_events: bool,
    pub back_button: Button,
    pub forward_button: Button,
    pub passthrough: Seq<(Key, bool)>,
    pub pending: Seq<(Key, bool)>,
}

impl View for HookTracker {
    type V = TrackerView;

    open spec fn view(&self) -> TrackerView {
        TrackerView {
            held: self.held_keys@,
            captured: self.captured_keys@,
            forwarded: self.forwarded_modifiers@,
            swallowed: self.swallowed_modifiers@,
            ghosted: self.ghosted_modifiers@,
            replays_synthetic_events: self.replays_synthetic_events,
            back_button: self.back_button,
            forward_button: self.forward_button,
            passthrough: self.passthrough_key_events@,
            pending: self.pending_key_events@,
        }
    }
}

// ---------------------------------------------------------------------------------------------
// Ghosting of movement modifiers
// ---------------------------------------------------------------------------------------------

/// Movement modifiers that double as OS modifiers; only these are ever ghosted.
pub open spec fn ghostable(key: Key) -> bool {
    runtime_modifier(key) && os_modifier(key)
}

/// `key` should be hidden from the OS: movement is under way and the key was forwarded.
pub open spec fn ghost_wanted(key: Key, pressed: Set<Key>, forwarded: Seq<Key>) -> bool {
    moving(pressed) && forwarded.contains(key)
}

/// The synthetic event that brings the OS's view of `key` in line with `ghost_wanted`.
pub open spec fn ghost_event(key: Key, ghosted: Set<Key>, pressed: Set<Key>, forwarded: Seq<Key>) -> Seq<(Key, bool)> {
    if !os_modifier(key) {
        Seq::empty()
    } else if ghost_wanted(key, pressed, forwarded) && !ghosted.contains(key) {
        seq![(key, false)]
    } else if !ghost_wanted(key, pressed, forwarded) && ghosted.contains(key) {
        seq![(key, true)]
    } else {
        Seq::empty()
    }
}

/// The synthetic events of one ghosting sync, for the scroll, fast and slow keys in turn.
pub open spec fn ghost_events(ghosted: Set<Key>, pressed: Set<Key>, forwarded: Seq<Key>) -> Seq<(Key, bool)> {
    ghost_event(KEY_SCROLL, ghosted, pressed, forwarded)
        + ghost_event(KEY_FAST, ghosted, pressed, forwarded)
        + ghost_event(KEY_SLOW, ghosted, pressed, forwarded)
}

/// The ghosted set after a sync.
pub open spec fn synced_ghosts(ghosted: Set<Key>, pressed: Set<Key>, forwarded: Seq<Key>) -> Set<Key> {
    Set::new(|k: Key| if ghostable(k) { ghost_wanted(k, pressed, forwarded) } else { ghosted.contains(k) })
}

/// The tracker after a ghosting sync against the keys that steer motion.
pub open spec fn synced(t: TrackerView, pressed: Set<Key>) -> TrackerView {
    TrackerView {
        ghosted: synced_ghosts(t.ghosted, pressed, t.forwarded),
        pending: t.pending + ghost_events(t.ghosted, pressed, t.forwarded),
        ..t
    }
}

/// Some move key steers motion.
pub fn movement_active(keys: &KeySet) -> (r: bool)
    ensures
        r == moving(keys@),
{
    let r = keys.contains(KEY_MOVE_LEFT) || keys.contains(KEY_MOVE_DOWN) || keys.contains(KEY_MOVE_UP)
        || keys.contains(KEY_MOVE_RIGHT);
    proof {
        if moving(keys@) {
            let k = choose|k: Key| #[trigger] keys@.contains(k) && move_key(k);
            assert(k == KEY_MOVE_LEFT || k == KEY_MOVE_DOWN || k == KEY_MOVE_UP || k == KEY_MOVE_RIGHT);
        }
        if r {
            if keys@.contains(KEY_MOVE_LEFT) { assert(move_key(KEY_MOVE_LEFT)); }
            else if keys@.contains(KEY_MOVE_DOWN) { assert(move_key(KEY_MOVE_DOWN)); }
            else if keys@.contains(KEY_MOVE_UP) { assert(move_key(KEY_MOVE_UP)); }
            else { assert(move_key(KEY_MOVE_RIGHT)); }
        }
    }
    r
}

/// Scrolling instead of moving: the scroll key steers motion.
pub fn scroll_mode_active(keys: &KeySet) -> (r: bool)
    ensures
        r == keys@.contains(KEY_SCROLL),
{
    keys.contains(KEY_SCROLL)
}

fn vec_contains_key(v: &Vec<Key>, key: Key) -> (r: bool)
    ensures
        r == v@.contains(key),
{
    let mut i: usize = 0;
    while i < v.len()
        invariant
            i <= v@.len(),
            forall|j: int| 0 <= j < i ==> v@[j] != key,
        decreases v@.len() - i,
    {
        if v[i] == key {
            return true;
        }
        i = i + 1;
    }
    false
}

fn sync_ghost(tracker: &mut HookTracker, key: Key, moving_now: bool)
    ensures
        final(tracker)@ == (TrackerView {
            ghosted: if !os_modifier(key) { old(tracker)@.ghosted } else if moving_now
                && old(tracker)@.forwarded.contains(key) { old(tracker)@.ghosted.insert(key) } else {
                old(tracker)@.ghosted.remove(key)
            },
            pending: old(tracker)@.pending + (if !os_modifier(key) { Seq::empty() } else if moving_now
                && old(tracker)@.forwarded.contains(key) && !old(tracker)@.ghosted.contains(key) {
                seq![(key, false)]
            } else if !(moving_now && old(tracker)@.forwarded.contains(key))
                && old(tracker)@.ghosted.contains(key) {
                seq![(key, true)]
            } else {
                Seq::empty()
            }),
            ..old(tracker)@
        }),
{
    if !is_os_modifier(key) {
        assert(tracker.pending_key_events@ + Seq::<(Key, bool)>::empty() =~= tracker.pending_key_events@);
        return;
    }
    let want = moving_now && vec_contains_key(&tracker.forwarded_modifiers, key);
    let already = tracker.ghosted_modifiers.contains(key);
    if want && !already {
        tracker.ghosted_modifiers.insert(key);
        tracker.pending_key_events.push((key, false));
    } else if !want && already {
        tracker.ghosted_modifiers.remove(key);
        tracker.pending_key_events.push((key, true));
    } else if want {
        assert(tracker.ghosted_modifiers@.insert(key) =~= tracker.ghosted_modifiers@);
    } else {
        assert(tracker.ghosted_modifiers@.remove(key) =~= tracker.ghosted_modifiers@);
    }
    assert(tracker.pending_key_events@ =~= old(tracker)@.pending + (if want && !already {
        seq![(key, false)]
    } else if !want && already {
        seq![(key, true)]
    } else {
        Seq::empty()
    }));
}

/// Hides forwarded movement modifiers from the OS while movement is under way, and restores
/// them once it stops, by queuing synthetic releases and presses.
pub fn sync_movement_modifier_ghosting<P, M, T>(state: &SharedState<P, M, T>, tracker: &mut HookTracker)
    ensures
        final(tracker)@ == synced(old(tracker)@, state@.pressed),
{
    let moving_now = movement_active(&state.pressed_keys);
    sync_ghost(tracker, KEY_SCROLL, moving_now);
    sync_ghost(tracker, KEY_FAST, moving_now);
    sync_ghost(tracker, KEY_SLOW, moving_now);
    proof {
        let t = old(tracker)@;
        let p = state@.pressed;
        assert(tracker@.ghosted =~= synced_ghosts(t.ghosted, p, t.forwarded));
        assert(tracker@.pending =~= t.pending + ghost_events(t.ghosted, p, t.forwarded));
    }
}

impl HookTracker {
    /// A tracker that has seen no key yet.
    pub fn new(replays_synthetic_events: bool, back_button: Button, forward_button: Button) -> (t: Self)
        ensures
            t@.wf(),
            t@.held == Set::<Key>::empty(),
            t@.captured == Set::<Key>::empty(),
            t@.forwarded == Seq::<Key>::empty(),
            t@.swallowed == Set::<Key>::empty(),
            t@.ghosted == Set::<Key>::empty(),
            t@.replays_synthetic_events == replays_synthetic_events,
            t@.back_button == back_button,
            t@.forward_button == forward_button,
            t@.passthrough == Seq::<(Key, bool)>::empty(),
            t@.pending == Seq::<(Key, bool)>::empty(),
    {
        HookTracker {
            held_keys: KeySet::new(),
            captured_keys: KeySet::new(),
            forwarded_modifiers: Vec::new(),
            swallowed_modifiers: KeySet::new(),
            ghosted_modifiers: KeySet::new(),
            replays_synthetic_events,
            back_button,
            forward_button,
            passthrough_key_events: Vec::new(),
            pending_key_events: Vec::new(),
        }
    }
}

impl TrackerView {
    /// Each held key has exactly one fate: captured, swallowed, forwarded (in press order,
    /// once), or passed through; only OS modifiers are forwarded or swallowed, the only OS
    /// modifier ever captured is the overlay toggle, and only forwarded movement modifiers are
    /// ghosted.
    pub open spec fn wf(self) -> bool {
        &&& self.forwarded.no_duplicates()
        &&& forall|k: Key| #[trigger] self.forwarded.contains(k) ==> os_modifier(k) && self.held.contains(k)
        &&& forall|k: Key| #[trigger] self.captured.contains(k) ==> (!os_modifier(k) || k == KEY_TOGGLE_OVERLAY)
            && self.held.contains(k)
        &&& forall|k: Key| #[trigger] self.swallowed.contains(k) ==> ghostable(k) && self.held.contains(k)
            && !self.forwarded.contains(k)
        &&& forall|k: Key| #[trigger] self.ghosted.contains(k) ==> ghostable(k) && self.forwarded.contains(k)
        &&& !self.replays_synthetic_events ==> self.passthrough.len() == 0
    }
}

/// The state and the tracker agree: the tracker is well formed, the state is well formed,
/// every held move key that steers motion was captured, every key that steers motion is held,
/// and the ghosted modifiers are exactly the forwarded movement modifiers while moving.
pub open spec fn consistent<P, M, T>(s: StateView<P, M, T>, t: TrackerView) -> bool {
    &&& s.wf()
    &&& t.wf()
    &&& forall|k: Key| #[trigger] s.pressed.contains(k) ==> t.held.contains(k)
    &&& forall|k: Key| #[trigger] s.pressed.contains(k) && move_key(k) ==> t.captured.contains(k)
    &&& t.ghosted == synced_ghosts(t.ghosted, s.pressed, t.forwarded)
}

// ---------------------------------------------------------------------------------------------
// Small decisions
// ---------------------------------------------------------------------------------------------

/// Pressing `key` (already added to `held`) completes the quit chord: it is a chord key,
/// every chord key is held, and nothing else is.
pub open spec fn quit_chord(held: Set<Key>, key: Key) -> bool {
    &&& quit_chord_key(key)
    &&& forall|c: Key| quit_chord_key(c) ==> #[trigger] held.contains(c) || c == key
    &&& forall|h: Key| #[trigger] held.contains(h) ==> quit_chord_key(h)
}

pub fn quit_chord_active(held_keys: &KeySet, current_key: Key) -> (r: bool)
    ensures
        r == quit_chord(held_keys@, current_key),
{
    if !is_quit_chord_key(current_key) {
        return false;
    }
    let all_held = (held_keys.contains(Key::ControlLeft) || current_key == Key::ControlLeft)
        && (held_keys.contains(Key::Alt) || current_key == Key::Alt)
        && (held_keys.contains(Key::ShiftLeft) || current_key == Key::ShiftLeft)
        && (held_keys.contains(Key::KeyQ) || current_key == Key::KeyQ);
    if !all_held {
        return false;
    }
    let n = held_keys.len();
    let mut i: usize = 0;
    while i < n
        invariant
            n == held_keys.members().len(),
            held_keys@ == held_keys.members().to_set(),
            i <= n,
            forall|j: int| 0 <= j < i ==> quit_chord_key(#[trigger] held_keys.members()[j]),
        decreases n - i,
    {
        if !is_quit_chord_key(held_keys.get(i)) {
            assert(held_keys@.contains(held_keys.members()[i as int]));
            return false;
        }
        i = i + 1;
    }
    proof {
        assert forall|h: Key| #[trigger] held_keys@.contains(h) implies quit_chord_key(h) by {
            let j = choose|j: int| 0 <= j < held_keys.members().len() && held_keys.members()[j] == h;
        }
    }
    true
}

/// The unmark key is active: as an OS modifier it must be the only forwarded modifier; as a
/// regular key it must be captured and held.
pub open spec fn unmark_active(t: TrackerView) -> bool {
    if os_modifier(KEY_UNMARK) {
        t.forwarded == seq![KEY_UNMARK]
    } else {
        t.captured.contains(KEY_UNMARK)
    }
}

pub fn unmark_held(tracker: &HookTracker) -> (r: bool)
    ensures
        r == unmark_active(tracker@),
{
    if is_os_modifier(KEY_UNMARK) {
        let r = tracker.forwarded_modifiers.len() == 1 && tracker.forwarded_modifiers[0] == KEY_UNMARK;
        proof {
            if r {
                assert(tracker@.forwarded =~= seq![KEY_UNMARK]);
            }
        }
        r
    } else {
        tracker.captured_keys.contains(KEY_UNMARK)
    }
}

/// Capture decision for a non-modifier, non-exempt key pressed in Normal mode. Runtime
/// modifiers and clicks are always captured; movement while the oldest forwarded modifier is
/// a movement modifier (Shift+J scrolls); marks while unmarking; everything else only when no
/// forwarded modifier puts the keyboard in leak mode.
pub open spec fn normal_captures(t: TrackerView, key: Key) -> bool {
    if runtime_modifier(key) {
        true
    } else if move_key(key) {
        t.forwarded.len() == 0 || runtime_modifier(t.forwarded[0])
    } else if key == KEY_MOUSE_1 || key == KEY_MOUSE_2 {
        true
    } else if mark_key_of(key) || key == KEY_UNMARK_ALL {
        t.forwarded.len() == 0 || unmark_active(t)
    } else {
        t.forwarded.len() == 0
    }
}

pub fn normal_mode_captures(tracker: &HookTracker, key: Key) -> (r: bool)
    ensures
        r == normal_captures(tracker@, key),
{
    if is_runtime_modifier(key) {
        return true;
    }
    if is_move_key(key) {
        return tracker.forwarded_modifiers.len() == 0 || is_runtime_modifier(tracker.forwarded_modifiers[0]);
    }
    if key == KEY_MOUSE_1 || key == KEY_MOUSE_2 {
        return true;
    }
    if is_mark_key(key) || key == KEY_UNMARK_ALL {
        return tracker.forwarded_modifiers.len() == 0 || unmark_held(tracker);
    }
    tracker.forwarded_modifiers.len() == 0
}

/// Runtime modifiers steer motion while held, but only start doing so in Normal mode.
pub open spec fn runtime_update(pressed: Set<Key>, mode: Mode, key: Key, is_down: bool) -> Set<Key> {
    if !runtime_modifier(key) {
        pressed
    } else if is_down {
        if mode == Mode::Normal { pressed.insert(key) } else { pressed }
    } else {
        pressed.remove(key)
    }
}

pub fn update_runtime_modifier_state<P, M, T>(state: &mut SharedState<P, M, T>, key: Key, is_down: bool)
    ensures
        final(state)@ == (StateView {
            pressed: runtime_update(old(state)@.pressed, old(state)@.mode, key, is_down),
            ..old(state)@
        }),
{
    if !is_runtime_modifier(key) {
        return;
    }
    if is_down {
        if state.mode == Mode::Normal {
            state.pressed_keys.insert(key);
        }
    } else {
        state.pressed_keys.remove(key);
    }
}

// ---------------------------------------------------------------------------------------------
// Mouse buttons
// ---------------------------------------------------------------------------------------------

/// Updating the runtime modifiers keeps the state well formed.
pub proof fn lemma_runtime_update_wf<P, M, T>(s: StateView<P, M, T>, key: Key, is_down: bool)
    requires
        s.wf(),
    ensures
        (StateView { pressed: runtime_update(s.pressed, s.mode, key, is_down), ..s }).wf(),
{
    let s1 = StateView { pressed: runtime_update(s.pressed, s.mode, key, is_down), ..s };
    if runtime_modifier(key) {
        assert(!move_key(key));
        assert forall|k: Key| #[trigger] s1.pressed.contains(k) implies move_key(k) || runtime_modifier(k) by {
            if k != key {
                assert(s.pressed.contains(k));
            }
        }
        assert forall|k: Key| move_key(k) implies (#[trigger] s1.pressed.contains(k)
            <==> s1.move_key_pressed_at[move_index(k)] is Some) by {
            assert(k != key);
            assert(s1.pressed.contains(k) == s.pressed.contains(k));
        }
        if s.mode == Mode::Insert {
            assert(s1.pressed =~= Set::<Key>::empty());
        }
    }
}

/// Pressing a button queues its press; left and right are queued only when not already down.
pub open spec fn press_button<P, M, T>(s: StateView<P, M, T>, button: Button) -> StateView<P, M, T> {
    match button {
        Button::Left => if s.left_button_down { s } else {
            StateView {
                left_button_down: true,
                pending_actions: s.pending_actions.push(Action::ButtonPress(Button::Left)),
                ..s
            }
        },
        Button::Right => if s.right_button_down { s } else {
            StateView {
                right_button_down: true,
                pending_actions: s.pending_actions.push(Action::ButtonPress(Button::Right)),
                ..s
            }
        },
        _ => StateView { pending_actions: s.pending_actions.push(Action::ButtonPress(button)), ..s },
    }
}

/// Releasing a button queues its release; left and right are queued only when down.
pub open spec fn release_button<P, M, T>(s: StateView<P, M, T>, button: Button) -> StateView<P, M, T> {
    match button {
        Button::Left => if !s.left_button_down { s } else {
            StateView {
                left_button_down: false,
                pending_actions: s.pending_actions.push(Action::ButtonRelease(Button::Left)),
                ..s
            }
        },
        Button::Right => if !s.right_button_down { s } else {
            StateView {
                right_button_down: false,
                pending_actions: s.pending_actions.push(Action::ButtonRelease(Button::Right)),
                ..s
            }
        },
        _ => StateView { pending_actions: s.pending_actions.push(Action::ButtonRelease(button)), ..s },
    }
}

pub fn press_mouse_button<P, M, T>(state: &mut SharedState<P, M, T>, button: Button)
    ensures
        final(state)@ == press_button(old(state)@, button),
{
    match button {
        Button::Left => {
            if !state.left_button_down {
                state.left_button_down = true;
                state.pending_actions.push(Action::ButtonPress(Button::Left));
            }
        },
        Button::Right => {
            if !state.right_button_down {
                state.right_button_down = true;
                state.pending_actions.push(Action::ButtonPress(Button::Right));
            }
        },
        _ => {
            state.pending_actions.push(Action::ButtonPress(button));
        },
    }
}

pub fn release_mouse_button<P, M, T>(state: &mut SharedState<P, M, T>, button: Button)
    ensures
        final(state)@ == release_button(old(state)@, button),
{
    match button {
        Button::Left => {
            if state.left_button_down {
                state.left_button_down = false;
                state.pending_actions.push(Action::ButtonRelease(Button::Left));
            }
        },
        Button::Right => {
            if state.right_button_down {
                state.right_button_down = false;
                state.pending_actions.push(Action::ButtonRelease(Button::Right));
            }
        },
        _ => {
            state.pending_actions.push(Action::ButtonRelease(button));
        },
    }
}

/// Releases the left and right buttons if they are down.
pub fn release_all_buttons<P, M, T>(state: &mut SharedState<P, M, T>)
    ensures
        final(state)@ == release_button(release_button(old(state)@, Button::Left), Button::Right),
{
    release_mouse_button(state, Button::Left);
    release_mouse_button(state, Button::Right);
}

// ---------------------------------------------------------------------------------------------
// Actions of captured keys
// ---------------------------------------------------------------------------------------------

/// A jump-grid destination: a cell, or a subcell of a previously chosen cell.
#[derive(Clone, Copy, Debug, PartialEq, Eq, Structural)]
pub enum JumpTarget {
    Cell { col: u8, row: u8 },
    Subcell { cell_col: u8, cell_row: u8, col: u8, row: u8 },
}

/// Work that a key press leaves to the caller because it needs monitor geometry.
#[derive(Clone, Copy, Debug)]
pub enum Followup<P> {
    Nothing,
    /// Focus the monitor nearest to the cursor.
    ReselectMonitor,
    /// Put the cursor at the center of this monitor and queue the move.
    CenterOnMonitor(usize),
    /// Clamp this point to the monitors, focus the monitor it lands on, put the cursor there
    /// and queue the move.
    MoveCursorTo(P),
    /// Compute the target on this monitor, then as `MoveCursorTo`.
    Jump { monitor: usize, target: JumpTarget },
}

/// Requested change of the cursor's visibility (hidden in Insert mode when so configured).
pub open spec fn insert_mode_cursor(hidden: bool) -> Option<bool> {
    if INSERT_MODE_HIDE_CURSOR { Some(hidden) } else { None }
}

/// Insert mode: nothing steers motion and held clicks are released.
pub open spec fn entered_insert<P, M, T>(s: StateView<P, M, T>) -> StateView<P, M, T> {
    release_button(
        release_button(
            StateView {
                mode: Mode::Insert,
                pressed: Set::empty(),
                move_key_pressed_at: Seq::new(4, |i: int| None::<T>),
                ..s
            },
            Button::Left,
        ),
        Button::Right,
    )
}

/// Normal mode: held runtime modifiers steer motion again; no move key does until re-pressed.
pub open spec fn entered_normal<P, M, T>(s: StateView<P, M, T>, held: Set<Key>) -> StateView<P, M, T> {
    StateView {
        mode: Mode::Normal,
        pressed: held.filter(|k: Key| runtime_modifier(k)),
        move_key_pressed_at: Seq::new(4, |i: int| None::<T>),
        ..s
    }
}

fn clear_move_times<P, M, T>(state: &mut SharedState<P, M, T>)
    ensures
        final(state)@ == (StateView { move_key_pressed_at: Seq::new(4, |i: int| None::<T>), ..old(state)@ }),
{
    let mut times: Vec<Option<T>> = Vec::new();
    while times.len() < 4
        invariant
            times@.len() <= 4,
            forall|i: int| 0 <= i < times@.len() ==> times@[i] is None,
        decreases 4 - times@.len(),
    {
        times.push(None);
    }
    state.move_key_pressed_at = times;
    assert(state.move_key_pressed_at@ =~= Seq::new(4, |i: int| None::<T>));
}

pub fn enter_insert_mode<P, M, T>(state: &mut SharedState<P, M, T>) -> (cursor_request: Option<bool>)
    ensures
        final(state)@ == entered_insert(old(state)@),
        cursor_request == insert_mode_cursor(true),
{
    state.mode = Mode::Insert;
    state.pressed_keys.clear();
    clear_move_times(state);
    release_all_buttons(state);
    if INSERT_MODE_HIDE_CURSOR {
        Some(true)
    } else {
        None
    }
}

pub fn enter_normal_mode<P, M, T>(state: &mut SharedState<P, M, T>, held_keys: &KeySet) -> (cursor_request: Option<bool>)
    ensures
        final(state)@ == entered_normal(old(state)@, held_keys@),
        cursor_request == insert_mode_cursor(false),
{
    state.mode = Mode::Normal;
    state.pressed_keys.clear();
    clear_move_times(state);
    let n = held_keys.len();
    let mut i: usize = 0;
    while i < n
        invariant
            n == held_keys.members().len(),
            held_keys@ == held_keys.members().to_set(),
            i <= n,
            state@ == (StateView {
                pressed: state@.pressed,
                ..entered_normal(old(state)@, held_keys@)
            }),
            forall|k: Key| #[trigger] state@.pressed.contains(k) <==> (runtime_modifier(k)
                && held_keys.members().subrange(0, i as int).contains(k)),
        decreases n - i,
    {
        let key = held_keys.get(i);
        let ghost before = state@.pressed;
        if is_runtime_modifier(key) {
            state.pressed_keys.insert(key);
        }
        proof {
            let pre = held_keys.members().subrange(0, i as int);
            let post = held_keys.members().subrange(0, i + 1);
            assert forall|k: Key| #[trigger] post.contains(k) <==> (pre.contains(k) || k == key) by {
                if post.contains(k) && k != key {
                    let j = choose|j: int| 0 <= j < post.len() && post[j] == k;
                    assert(pre[j] == k);
                }
                if pre.contains(k) {
                    let j = choose|j: int| 0 <= j < pre.len() && pre[j] == k;
                    assert(post[j] == k);
                }
                if k == key {
                    assert(post[i as int] == k);
                }
            }
        }
        i = i + 1;
    }
    proof {
        assert(held_keys.members().subrange(0, n as int) =~= held_keys.members());
        assert(state@.pressed =~= held_keys@.filter(|k: Key| runtime_modifier(k)));
    }
    if INSERT_MODE_HIDE_CURSOR {
        Some(false)
    } else {
        None
    }
}

/// Focus the next monitor (wrapping around); the cursor moves to its center unless there is
/// only one monitor.
pub open spec fn cycled<P, M, T>(s: StateView<P, M, T>) -> (StateView<P, M, T>, Followup<P>) {
    if s.monitors.len() == 0 {
        (s, Followup::Nothing)
    } else {
        let next = ((s.selected_monitor + 1) % (s.monitors.len() as int)) as usize;
        (
            StateView { selected_monitor: next, ..s },
            if next == s.selected_monitor { Followup::Nothing } else { Followup::CenterOnMonitor(next) },
        )
    }
}

pub fn cycle_monitor<P, M, T>(state: &mut SharedState<P, M, T>) -> (f: Followup<P>)
    requires
        old(state)@.wf(),
    ensures
        (final(state)@, f) == cycled(old(state)@),
{
    if state.monitors.len() == 0 {
        return Followup::Nothing;
    }
    let prev = state.selected_monitor;
    state.selected_monitor = (state.selected_monitor + 1) % state.monitors.len();
    if state.selected_monitor == prev {
        return Followup::Nothing;
    }
    Followup::CenterOnMonitor(state.selected_monitor)
}

/// A jump key on the focused monitor: when a cell was chosen and the subcell window is still
/// open, jump to the subcell of that cell; otherwise jump to the key's cell and remember it for
/// a subcell jump.
pub open spec fn jumped<P, M, T>(s: StateView<P, M, T>, key: Key, now: T, window_open: bool) -> (StateView<P, M, T>, Followup<P>) {
    if s.selected_monitor >= s.monitors.len() {
        (s, Followup::Nothing)
    } else {
        let (row, col) = grid_position(key);
        match s.pending_subcell {
            Some((cell_col, cell_row, _)) if window_open => (
                StateView { pending_subcell: None, ..s },
                Followup::Jump {
                    monitor: s.selected_monitor,
                    target: JumpTarget::Subcell { cell_col, cell_row, col: col as u8, row: row as u8 },
                },
            ),
            _ => (
                StateView { pending_subcell: Some((col as u8, row as u8, now)), ..s },
                Followup::Jump {
                    monitor: s.selected_monitor,
                    target: JumpTarget::Cell { col: col as u8, row: row as u8 },
                },
            ),
        }
    }
}

pub fn queue_jump<P, M, T: Copy>(state: &mut SharedState<P, M, T>, key: Key, now: T, window_open: bool) -> (f: Followup<P>)
    requires
        jump_key(key),
    ensures
        (final(state)@, f) == jumped(old(state)@, key, now, window_open),
{
    if state.selected_monitor >= state.monitors.len() {
        return Followup::Nothing;
    }
    let monitor = state.selected_monitor;
    let (col, row) = match jump_grid_index(key) {
        Some(cell) => cell,
        None => {
            return Followup::Nothing;
        },
    };
    let primed = state.pending_subcell;
    state.pending_subcell = None;
    if let Some((cell_col, cell_row, _pressed_at)) = primed {
        if window_open {
            return Followup::Jump {
                monitor,
                target: JumpTarget::Subcell { cell_col, cell_row, col: col as u8, row: row as u8 },
            };
        }
    }
    state.pending_subcell = Some((col as u8, row as u8, now));
    Followup::Jump { monitor, target: JumpTarget::Cell { col: col as u8, row: row as u8 } }
}

/// A mark key: with the unmark key active remove the mark; otherwise jump to it if set, or set
/// it at the cursor.
pub open spec fn marked<P, M, T>(s: StateView<P, M, T>, key: Key, unmark: bool) -> (StateView<P, M, T>, Followup<P>) {
    let i = mark_index(key);
    if unmark {
        (StateView { marks: s.marks.update(i, None), ..s }, Followup::Nothing)
    } else {
        match s.marks[i] {
            Some(target) => (s, Followup::MoveCursorTo(target)),
            None => (StateView { marks: s.marks.update(i, Some(s.cursor)), ..s }, Followup::Nothing),
        }
    }
}

pub fn apply_mark_press<P: Copy, M, T>(state: &mut SharedState<P, M, T>, key: Key, unmark_held: bool) -> (f: Followup<P>)
    requires
        mark_key_of(key),
        old(state)@.marks.len() == MARK_COUNT,
    ensures
        (final(state)@, f) == marked(old(state)@, key, unmark_held),
{
    let slot = match mark_slot(key) {
        Some(i) => i,
        None => {
            return Followup::Nothing;
        },
    };
    if unmark_held {
        state.marks.set(slot, None);
        return Followup::Nothing;
    }
    match state.marks[slot] {
        Some(target) => Followup::MoveCursorTo(target),
        None => {
            let cursor = state.cursor;
            state.marks.set(slot, Some(cursor));
            Followup::Nothing
        },
    }
}

/// Every mark removed.
pub open spec fn unmarked_all<P, M, T>(s: StateView<P, M, T>) -> StateView<P, M, T> {
    StateView { marks: Seq::new(s.marks.len(), |i: int| None::<P>), ..s }
}

pub fn clear_marks<P, M, T>(state: &mut SharedState<P, M, T>)
    ensures
        final(state)@ == unmarked_all(old(state)@),
{
    let mut i: usize = 0;
    while i < state.marks.len()
        invariant
            i <= state.marks@.len(),
            state.marks@.len() == old(state)@.marks.len(),
            forall|j: int| 0 <= j < i ==> state.marks@[j] is None,
            state@ == (StateView { marks: state@.marks, ..old(state)@ }),
        decreases state.marks@.len() - i,
    {
        state.marks.set(i, None);
        i = i + 1;
    }
    assert(state.marks@ =~= Seq::new(old(state)@.marks.len(), |i: int| None::<P>));
}

/// Move keys start steering motion, remembering when they were first pressed.
pub open spec fn move_pressed<P, M, T>(s: StateView<P, M, T>, key: Key, now: T) -> StateView<P, M, T> {
    let i = move_index(key);
    StateView {
        pressed: s.pressed.insert(key),
        move_key_pressed_at: if s.move_key_pressed_at[i] is None {
            s.move_key_pressed_at.update(i, Some(now))
        } else {
            s.move_key_pressed_at
        },
        ..s
    }
}

/// The button a mouse key clicks.
pub open spec fn mouse_button_of(key: Key, back: Button, forward: Button) -> Button {
    if key == KEY_MOUSE_1 {
        Button::Left
    } else if key == KEY_MOUSE_2 {
        Button::Right
    } else if key == KEY_MOUSE_3 {
        Button::Middle
    } else if key == KEY_MOUSE_4 {
        back
    } else {
        forward
    }
}

/// The action of a captured key pressed in Normal mode (other than the mode and overlay keys).
pub open spec fn normal_press<P, M, T>(s: StateView<P, M, T>, t: TrackerView, key: Key, now: T, window_open: bool) -> (StateView<P, M, T>, Followup<P>, Option<bool>) {
    if key == KEY_INSERT_MODE {
        (entered_insert(s), Followup::Nothing, insert_mode_cursor(true))
    } else if key == KEY_CYCLE_MONITOR {
        let (s1, f) = cycled(s);
        (s1, f, None)
    } else if mouse_key(key) {
        (press_button(s, mouse_button_of(key, t.back_button, t.forward_button)), Followup::Nothing, None)
    } else if key == KEY_TOGGLE_GRID {
        (StateView { show_grid: !s.show_grid, ..s }, Followup::Nothing, None)
    } else if key == KEY_TOGGLE_GRID_LETTERS {
        (StateView { show_grid_letters: !s.show_grid_letters, ..s }, Followup::Nothing, None)
    } else if move_key(key) {
        (move_pressed(s, key, now), Followup::Nothing, None)
    } else if jump_key(key) {
        let (s1, f) = jumped(s, key, now, window_open);
        (s1, f, None)
    } else if key == KEY_UNMARK_ALL {
        (if unmark_active(t) { unmarked_all(s) } else { s }, Followup::Nothing, None)
    } else if mark_key_of(key) {
        let (s1, f) = marked(s, key, unmark_active(t));
        (s1, f, None)
    } else {
        (s, Followup::Nothing, None)
    }
}

pub fn apply_normal_mode_press<P: Copy, M, T: Copy>(
    state: &mut SharedState<P, M, T>,
    key: Key,
    tracker: &HookTracker,
    now: T,
    window_open: bool,
) -> (r: (Followup<P>, Option<bool>))
    requires
        old(state)@.wf(),
    ensures
        (final(state)@, r.0, r.1) == normal_press(old(state)@, tracker@, key, now, window_open),
{
    if key == KEY_INSERT_MODE {
        let cursor_request = enter_insert_mode(state);
        return (Followup::Nothing, cursor_request);
    }
    if key == KEY_CYCLE_MONITOR {
        return (cycle_monitor(state), None);
    }
    if is_mouse_key(key) {
        let button = if key == KEY_MOUSE_1 {
            Button::Left
        } else if key == KEY_MOUSE_2 {
            Button::Right
        } else if key == KEY_MOUSE_3 {
            Button::Middle
        } else if key == KEY_MOUSE_4 {
            tracker.back_button
        } else {
            tracker.forward_button
        };
        press_mouse_button(state, button);
        return (Followup::Nothing, None);
    }
    if key == KEY_TOGGLE_GRID {
        state.show_grid = !state.show_grid;
        return (Followup::Nothing, None);
    }
    if key == KEY_TOGGLE_GRID_LETTERS {
        state.show_grid_letters = !state.show_grid_letters;
        return (Followup::Nothing, None);
    }
    if is_move_key(key) {
        state.pressed_keys.insert(key);
        let slot = move_slot(key);
        if state.move_key_pressed_at[slot].is_none() {
            state.move_key_pressed_at.set(slot, Some(now));
        }
        return (Followup::Nothing, None);
    }
    if is_jump_key(key) {
        return (queue_jump(state, key, now, window_open), None);
    }
    if key == KEY_UNMARK_ALL {
        if unmark_held(tracker) {
            clear_marks(state);
        }
        return (Followup::Nothing, None);
    }
    if is_mark_key(key) {
        let unmark = unmark_held(tracker);
        return (apply_mark_press(state, key, unmark), None);
    }
    (Followup::Nothing, None)
}

// ---------------------------------------------------------------------------------------------
// UI change detection
// ---------------------------------------------------------------------------------------------

/// Which marks are set.
pub open spec fn mark_presence<P>(marks: Seq<Option<P>>) -> Seq<bool> {
    Seq::new(marks.len(), |i: int| marks[i] is Some)
}

/// The part of the state that the overlays render.
pub open spec fn ui_view<P, M, T>(s: StateView<P, M, T>) -> (Mode, bool, bool, bool, usize, Seq<bool>) {
    (s.mode, s.show_grid, s.show_grid_letters, s.show_overlays, s.selected_monitor, mark_presence(s.marks))
}

/// What the overlays render, captured to detect whether a key press changed it.
pub struct UiSnapshot {
    pub mode: Mode,
    pub show_grid: bool,
    pub show_grid_letters: bool,
    pub show_overlays: bool,
    pub selected_monitor: usize,
    pub marks: Vec<bool>,
}

impl UiSnapshot {
    pub open spec fn view_tuple(&self) -> (Mode, bool, bool, bool, usize, Seq<bool>) {
        (self.mode, self.show_grid, self.show_grid_letters, self.show_overlays, self.selected_monitor, self.marks@)
    }

    /// The two snapshots render identically.
    pub fn same_as(&self, other: &UiSnapshot) -> (r: bool)
        ensures
            r == (self.view_tuple() == other.view_tuple()),
    {
        if !(self.mode == other.mode && self.show_grid == other.show_grid
            && self.show_grid_letters == other.show_grid_letters
            && self.show_overlays == other.show_overlays
            && self.selected_monitor == other.selected_monitor
            && self.marks.len() == other.marks.len()) {
            return false;
        }
        let mut i: usize = 0;
        while i < self.marks.len()
            invariant
                self.marks@.len() == other.marks@.len(),
                i <= self.marks@.len(),
                forall|j: int| 0 <= j < i ==> self.marks@[j] == other.marks@[j],
            decreases self.marks@.len() - i,
        {
            if self.marks[i] != other.marks[i] {
                return false;
            }
            i = i + 1;
        }
        assert(self.marks@ =~= other.marks@);
        true
    }
}

pub fn ui_snapshot<P, M, T>(state: &SharedState<P, M, T>) -> (snap: UiSnapshot)
    ensures
        snap.view_tuple() == ui_view(state@),
{
    let mut marks: Vec<bool> = Vec::new();
    let mut i: usize = 0;
    while i < state.marks.len()
        invariant
            i <= state.marks@.len(),
            marks@ == mark_presence(state.marks@).subrange(0, i as int),
        decreases state.marks@.len() - i,
    {
        marks.push(state.marks[i].is_some());
        proof {
            assert(marks@ =~= mark_presence(state.marks@).subrange(0, i + 1));
        }
        i = i + 1;
    }
    assert(marks@ =~= mark_presence(state.marks@));
    UiSnapshot {
        mode: state.mode,
        show_grid: state.show_grid,
        show_grid_letters: state.show_grid_letters,
        show_overlays: state.show_overlays,
        selected_monitor: state.selected_monitor,
        marks,
    }
}

// ---------------------------------------------------------------------------------------------
// Key press and release
// ---------------------------------------------------------------------------------------------

/// What a key press tells the hook.
#[derive(Clone, Copy, Debug)]
pub struct KeyPressOutcome<P> {
    /// The press is dropped from the OS stream.
    pub captured: bool,
    /// The quit chord is complete: the program shuts down.
    pub quit: bool,
    /// The motion loop must be woken.
    pub wake_motion: bool,
    /// Something the overlays render changed (before the follow-up is performed).
    pub ui_changed: bool,
    pub followup: Followup<P>,
    /// The cursor should be hidden (`Some(true)`) or shown (`Some(false)`).
    pub set_cursor_hidden: Option<bool>,
}

pub open spec fn press_outcome<P>(captured: bool, quit: bool, wake_motion: bool, ui_changed: bool, followup: Followup<P>, set_cursor_hidden: Option<bool>) -> KeyPressOutcome<P> {
    KeyPressOutcome { captured, quit, wake_motion, ui_changed, followup, set_cursor_hidden }
}

/// Capture decision for a fresh, non-modifier key press. The Normal-mode key is always
/// captured and exempt keys never; the overlay toggle is captured in both modes unless a
/// forwarded modifier is held; Insert mode captures nothing else.
pub open spec fn press_captures(t: TrackerView, mode: Mode, key: Key) -> bool {
    if key == KEY_NORMAL_MODE {
        true
    } else if exempt_key(key) {
        false
    } else if key == KEY_TOGGLE_OVERLAY {
        t.forwarded.len() == 0
    } else {
        match mode {
            Mode::Insert => false,
            Mode::Normal => normal_captures(t, key),
        }
    }
}

/// The action of a captured, fresh, non-modifier key press.
pub open spec fn captured_press<P, M, T>(s: StateView<P, M, T>, t: TrackerView, key: Key, now: T, window_open: bool) -> (StateView<P, M, T>, Followup<P>, Option<bool>) {
    if key == KEY_NORMAL_MODE {
        if s.mode == Mode::Insert {
            (entered_normal(s, t.held), Followup::ReselectMonitor, insert_mode_cursor(false))
        } else {
            (s, Followup::Nothing, None)
        }
    } else if key == KEY_TOGGLE_OVERLAY {
        (StateView { show_overlays: !s.show_overlays, ..s }, Followup::Nothing, None)
    } else {
        let s1 = if !jump_key(key) { StateView { pending_subcell: None, ..s } } else { s };
        normal_press(s1, t, key, now, window_open)
    }
}

/// The complete effect of a key press on the state and the tracker, and what it tells the hook.
pub open spec fn press_transition<P, M, T>(s: StateView<P, M, T>, t: TrackerView, key: Key, now: T, window_open: bool) -> (StateView<P, M, T>, TrackerView, KeyPressOutcome<P>) {
    let t1 = TrackerView { held: t.held.insert(key), ..t };
    let s1 = StateView { pressed: runtime_update(s.pressed, s.mode, key, true), ..s };
    if t.held.contains(key) {
        // An OS auto-repeat: hidden exactly when the first press was.
        let hidden = t.captured.contains(key) || t.swallowed.contains(key) || t.ghosted.contains(key);
        (s1, t1, press_outcome(hidden, false, false, false, Followup::Nothing, None))
    } else if quit_chord(t1.held, key) {
        (s1, t1, press_outcome(true, true, false, false, Followup::Nothing, None))
    } else if key == KEY_TOGGLE_OVERLAY && t.forwarded.len() == 0 {
        // The overlay toggle is taken ahead of the modifiers, in both modes.
        fresh_press(s1, t1, key, now, window_open)
    } else if os_modifier(key) {
        if s.mode == Mode::Normal && t.captured != Set::<Key>::empty() && runtime_modifier(key) {
            (s1, TrackerView { swallowed: t.swallowed.insert(key), ..t1 },
                press_outcome(true, false, false, false, Followup::Nothing, None))
        } else {
            (s1, TrackerView { forwarded: t.forwarded.push(key), ..t1 },
                press_outcome(false, false, false, false, Followup::Nothing, None))
        }
    } else {
        fresh_press(s1, t1, key, now, window_open)
    }
}

/// Handles a key press from the hook. `now` is the time of the press and `window_open` tells
/// whether a primed subcell jump is still within its time window.
pub fn handle_key_press<P: Copy, M, T: Copy>(
    state: &mut SharedState<P, M, T>,
    tracker: &mut HookTracker,
    key: Key,
    now: T,
    window_open: bool,
) -> (out: KeyPressOutcome<P>)
    requires
        old(state)@.wf(),
    ensures
        (final(state)@, final(tracker)@, out) == press_transition(old(state)@, old(tracker)@, key, now, window_open),
{
    let is_repeat = !tracker.held_keys.insert(key);
    update_runtime_modifier_state(state, key, true);

    if is_repeat {
        let hidden = tracker.captured_keys.contains(key) || tracker.swallowed_modifiers.contains(key)
            || tracker.ghosted_modifiers.contains(key);
        return KeyPressOutcome {
            captured: hidden,
            quit: false,
            wake_motion: false,
            ui_changed: false,
            followup: Followup::Nothing,
            set_cursor_hidden: None,
        };
    }

    if quit_chord_active(&tracker.held_keys, key) {
        return KeyPressOutcome {
            captured: true,
            quit: true,
            wake_motion: false,
            ui_changed: false,
            followup: Followup::Nothing,
            set_cursor_hidden: None,
        };
    }

    if key == KEY_TOGGLE_OVERLAY && tracker.forwarded_modifiers.len() == 0 {
        return press_fresh_key(state, tracker, key, now, window_open);
    }

    if is_os_modifier(key) {
        if state.mode == Mode::Normal && !tracker.captured_keys.is_empty() && is_runtime_modifier(key) {
            tracker.swallowed_modifiers.insert(key);
            return KeyPressOutcome {
                captured: true,
                quit: false,
                wake_motion: false,
                ui_changed: false,
                followup: Followup::Nothing,
                set_cursor_hidden: None,
            };
        }
        tracker.forwarded_modifiers.push(key);
        return KeyPressOutcome {
            captured: false,
            quit: false,
            wake_motion: false,
            ui_changed: false,
            followup: Followup::Nothing,
            set_cursor_hidden: None,
        };
    }

    press_fresh_key(state, tracker, key, now, window_open)
}

/// The effect of a fresh press of a key that is not an OS modifier.
pub open spec fn fresh_press<P, M, T>(s: StateView<P, M, T>, t: TrackerView, key: Key, now: T, window_open: bool) -> (StateView<P, M, T>, TrackerView, KeyPressOutcome<P>) {
    let capture = press_captures(t, s.mode, key);
    let t2 = if capture { TrackerView { captured: t.captured.insert(key), ..t } } else { t };
    let (s2, f, cursor_request) = if capture { captured_press(s, t2, key, now, window_open) } else {
        (s, Followup::Nothing, None)
    };
    (
        StateView { motion_needed: true, ..s2 },
        synced(t2, s2.pressed),
        press_outcome(capture, false, true, ui_view(s) != ui_view(s2), f, cursor_request),
    )
}

fn press_in_normal_mode<P: Copy, M, T: Copy>(
    state: &mut SharedState<P, M, T>,
    tracker: &HookTracker,
    key: Key,
    now: T,
    window_open: bool,
) -> (r: (Followup<P>, Option<bool>))
    requires
        old(state)@.wf(),
    ensures
        (final(state)@, r.0, r.1) == normal_press(
            if !jump_key(key) { StateView { pending_subcell: None, ..old(state)@ } } else { old(state)@ },
            tracker@,
            key,
            now,
            window_open,
        ),
{
    if !is_jump_key(key) {
        state.pending_subcell = None;
    }
    assert(state.pressed_keys@ == old(state).pressed_keys@);
    assert(state@.wf());
    apply_normal_mode_press(state, key, tracker, now, window_open)
}

fn apply_captured_press<P: Copy, M, T: Copy>(
    state: &mut SharedState<P, M, T>,
    tracker: &HookTracker,
    key: Key,
    now: T,
    window_open: bool,
) -> (r: (Followup<P>, Option<bool>))
    requires
        old(state)@.wf(),
    ensures
        (final(state)@, r.0, r.1) == captured_press(old(state)@, tracker@, key, now, window_open),
{
    if key == KEY_NORMAL_MODE {
        if state.mode == Mode::Insert {
            let cursor_request = enter_normal_mode(state, &tracker.held_keys);
            (Followup::ReselectMonitor, cursor_request)
        } else {
            (Followup::Nothing, None)
        }
    } else if key == KEY_TOGGLE_OVERLAY {
        state.show_overlays = !state.show_overlays;
        (Followup::Nothing, None)
    } else {
        press_in_normal_mode(state, tracker, key, now, window_open)
    }
}

fn press_fresh_key<P: Copy, M, T: Copy>(
    state: &mut SharedState<P, M, T>,
    tracker: &mut HookTracker,
    key: Key,
    now: T,
    window_open: bool,
) -> (out: KeyPressOutcome<P>)
    requires
        old(state)@.wf(),
    ensures
        (final(state)@, final(tracker)@, out) == fresh_press(old(state)@, old(tracker)@, key, now, window_open),
{
    let should_capture = if key == KEY_NORMAL_MODE {
        true
    } else if is_exempt_key(key) {
        false
    } else if key == KEY_TOGGLE_OVERLAY {
        tracker.forwarded_modifiers.len() == 0
    } else {
        match state.mode {
            Mode::Insert => false,
            Mode::Normal => normal_mode_captures(tracker, key),
        }
    };

    let mut followup = Followup::Nothing;
    let mut cursor_request = None;
    let mut ui_changed = false;
    if should_capture {
        tracker.captured_keys.insert(key);
        let ui_before = ui_snapshot(state);
        let (f, h) = apply_captured_press(state, tracker, key, now, window_open);
        let ui_after = ui_snapshot(state);
        followup = f;
        cursor_request = h;
        ui_changed = !ui_after.same_as(&ui_before);
    }

    sync_movement_modifier_ghosting(state, tracker);
    state.motion_needed = true;

    KeyPressOutcome {
        captured: should_capture,
        quit: false,
        wake_motion: true,
        ui_changed,
        followup,
        set_cursor_hidden: cursor_request,
    }
}

/// The verdict on a key release.
#[derive(Clone, Copy, Debug)]
pub struct KeyReleaseOutcome {
    /// The release is dropped from the OS stream.
    pub captured: bool,
    /// The motion loop must be woken.
    pub wake_motion: bool,
}

/// The effect of releasing a captured key: a move key stops steering motion (motion goes on
/// if another move key is held), a mouse key releases its button.
pub open spec fn released_captured<P, M, T>(s: StateView<P, M, T>, t: TrackerView, key: Key) -> (StateView<P, M, T>, bool) {
    let (s1, wake1) = if move_key(key) {
        let s0 = StateView {
            pressed: s.pressed.remove(key),
            move_key_pressed_at: s.move_key_pressed_at.update(move_index(key), None),
            ..s
        };
        if moving(s0.pressed) { (StateView { motion_needed: true, ..s0 }, true) } else { (s0, false) }
    } else if mouse_key(key) {
        (release_button(s, mouse_button_of(key, t.back_button, t.forward_button)), false)
    } else {
        (s, false)
    };
    if mouse_key(key) { (StateView { motion_needed: true, ..s1 }, true) } else { (s1, wake1) }
}

/// The complete effect of a key release on the state and the tracker, and what it tells the hook: the
/// release is hidden exactly when the press was captured, swallowed or later ghosted.
pub open spec fn release_transition<P, M, T>(s: StateView<P, M, T>, t: TrackerView, key: Key) -> (StateView<P, M, T>, TrackerView, KeyReleaseOutcome) {
    let t1 = TrackerView {
        held: t.held.remove(key),
        captured: t.captured.remove(key),
        swallowed: t.swallowed.remove(key),
        ghosted: t.ghosted.remove(key),
        forwarded: t.forwarded.filter(other_than(key)),
        ..t
    };
    let s1 = StateView { pressed: runtime_update(s.pressed, s.mode, key, false), ..s };
    let (s2, wake) = if t.captured.contains(key) { released_captured(s1, t, key) } else { (s1, false) };
    (
        s2,
        synced(t1, s2.pressed),
        KeyReleaseOutcome {
            captured: t.captured.contains(key) || t.swallowed.contains(key) || t.ghosted.contains(key),
            wake_motion: wake,
        },
    )
}

/// Every key but `key`.
pub open spec fn other_than(key: Key) -> spec_fn(Key) -> bool {
    |m: Key| m != key
}

fn remove_key_from(v: &mut Vec<Key>, key: Key)
    ensures
        final(v)@ == old(v)@.filter(other_than(key)),
{
    proof {
        reveal(Seq::filter);
        assert(v@.subrange(0, 0).filter(other_than(key)) =~= Seq::<Key>::empty());
    }
    let mut kept: Vec<Key> = Vec::new();
    let mut i: usize = 0;
    while i < v.len()
        invariant
            i <= v@.len(),
            kept@ == v@.subrange(0, i as int).filter(other_than(key)),
        decreases v@.len() - i,
    {
        let k = v[i];
        proof {
            assert(v@.subrange(0, i + 1) =~= v@.subrange(0, i as int).push(k));
            v@.subrange(0, i as int).lemma_filter_push(k, other_than(key));
            assert((other_than(key))(k) == (k != key));
        }
        if k != key {
            kept.push(k);
        }
        i = i + 1;
    }
    assert(v@.subrange(0, v@.len() as int) =~= v@);
    *v = kept;
}

fn release_captured_key<P, M, T>(state: &mut SharedState<P, M, T>, tracker: &HookTracker, key: Key) -> (wake: bool)
    requires
        old(state)@.wf(),
    ensures
        (final(state)@, wake) == released_captured(old(state)@, tracker@, key),
{
    let mut wake_motion = false;
    if is_move_key(key) {
        state.pressed_keys.remove(key);
        let slot = move_slot(key);
        state.move_key_pressed_at.set(slot, None);
        if movement_active(&state.pressed_keys) {
            state.motion_needed = true;
            wake_motion = true;
        }
    } else if key == KEY_MOUSE_1 {
        release_mouse_button(state, Button::Left);
    } else if key == KEY_MOUSE_2 {
        release_mouse_button(state, Button::Right);
    } else if key == KEY_MOUSE_3 {
        release_mouse_button(state, Button::Middle);
    } else if key == KEY_MOUSE_4 {
        release_mouse_button(state, tracker.back_button);
    } else if key == KEY_MOUSE_5 {
        release_mouse_button(state, tracker.forward_button);
    }
    if is_mouse_key(key) {
        state.motion_needed = true;
        wake_motion = true;
    }
    wake_motion
}

/// Handles a key release from the hook.
pub fn handle_key_release<P, M, T>(state: &mut SharedState<P, M, T>, tracker: &mut HookTracker, key: Key) -> (out: KeyReleaseOutcome)
    requires
        old(state)@.wf(),
    ensures
        (final(state)@, final(tracker)@, out) == release_transition(old(state)@, old(tracker)@, key),
{
    tracker.held_keys.remove(key);
    let was_captured = tracker.captured_keys.remove(key);
    let was_swallowed = tracker.swallowed_modifiers.remove(key);
    // A ghosted modifier's release stays hidden: the OS already saw its ghost key-up.
    let was_ghosted = tracker.ghosted_modifiers.remove(key);
    remove_key_from(&mut tracker.forwarded_modifiers, key);

    proof {
        lemma_runtime_update_wf(state@, key, false);
    }
    update_runtime_modifier_state(state, key, false);
    let mut wake_motion = false;
    if was_captured {
        wake_motion = release_captured_key(state, tracker, key);
    }
    sync_movement_modifier_ghosting(state, tracker);
    KeyReleaseOutcome { captured: was_captured || was_swallowed || was_ghosted, wake_motion }
}

// ---------------------------------------------------------------------------------------------
// Synthetic key events
// ---------------------------------------------------------------------------------------------

/// `seq` with its first occurrence of `e` removed by moving the last element into its place.
pub open spec fn swap_removed_first<A>(seq: Seq<A>, e: A, result: Seq<A>) -> bool {
    exists|i: int|
        0 <= i < seq.len() && seq[i] == e && (forall|j: int| 0 <= j < i ==> seq[j] != e)
            && result == #[trigger] seq.update(i, seq.last()).drop_last()
}

fn remove_first_event(events: &mut Vec<(Key, bool)>, event: (Key, bool)) -> (found: bool)
    ensures
        found == old(events)@.contains(event),
        found ==> swap_removed_first(old(events)@, event, final(events)@),
        !found ==> final(events)@ == old(events)@,
{
    let mut i: usize = 0;
    while i < events.len()
        invariant
            i <= events@.len(),
            events@ == old(events)@,
            forall|j: int| 0 <= j < i ==> events@[j] != event,
        decreases events@.len() - i,
    {
        let (k, press) = events[i];
        if k == event.0 && press == event.1 {
            events.swap_remove(i);
            proof {
                let k = i as int;
                assert(0 <= k < old(events)@.len() && old(events)@[k] == event);
                assert(events@ == old(events)@.update(k, old(events)@.last()).drop_last());
            }
            return true;
        }
        i = i + 1;
    }
    false
}

/// A key event this program emitted itself was observed again by the hook: it is dropped from
/// the outstanding list and must pass through untouched.
pub fn take_passthrough_key_event(tracker: &mut HookTracker, key: Key, is_press: bool) -> (r: bool)
    ensures
        r == (old(tracker)@.replays_synthetic_events && old(tracker)@.passthrough.contains((key, is_press))),
        r ==> swap_removed_first(old(tracker)@.passthrough, (key, is_press), final(tracker)@.passthrough),
        final(tracker)@ == (TrackerView { passthrough: final(tracker)@.passthrough, ..old(tracker)@ }),
        !r ==> final(tracker)@ == old(tracker)@,
{
    if !tracker.replays_synthetic_events {
        return false;
    }
    remove_first_event(&mut tracker.passthrough_key_events, (key, is_press))
}

/// Records a synthetic key event about to be emitted, so the hook lets it through when it
/// observes it.
pub fn mark_passthrough_key_event(tracker: &mut HookTracker, key: Key, is_press: bool)
    ensures
        final(tracker)@ == (TrackerView {
            passthrough: if old(tracker)@.replays_synthetic_events {
                old(tracker)@.passthrough.push((key, is_press))
            } else {
                old(tracker)@.passthrough
            },
            ..old(tracker)@
        }),
{
    if tracker.replays_synthetic_events {
        tracker.passthrough_key_events.push((key, is_press));
    }
}

/// Forgets a synthetic key event whose emission failed.
pub fn clear_passthrough_key_event(tracker: &mut HookTracker, key: Key, is_press: bool)
    ensures
        final(tracker)@ == (TrackerView { passthrough: final(tracker)@.passthrough, ..old(tracker)@ }),
        old(tracker)@.replays_synthetic_events && old(tracker)@.passthrough.contains((key, is_press))
            ==> swap_removed_first(old(tracker)@.passthrough, (key, is_press), final(tracker)@.passthrough),
        !(old(tracker)@.replays_synthetic_events && old(tracker)@.passthrough.contains((key, is_press)))
            ==> final(tracker)@ == old(tracker)@,
{
    if tracker.replays_synthetic_events {
        remove_first_event(&mut tracker.passthrough_key_events, (key, is_press));
    }
}

/// Hands over the queued synthetic key events, oldest first.
pub fn take_pending_key_events(tracker: &mut HookTracker) -> (events: Vec<(Key, bool)>)
    ensures
        events@ == old(tracker)@.pending,
        final(tracker)@ == (TrackerView { pending: Seq::empty(), ..old(tracker)@ }),
{
    let mut events: Vec<(Key, bool)> = Vec::new();
    std::mem::swap(&mut events, &mut tracker.pending_key_events);
    events
}

/// Handles a key event from the hook: `None` when it is a replay of a synthetic event (it
/// passes through and nothing else happens), otherwise what the press tells the hook.
pub fn handle_key_event<P: Copy, M, T: Copy>(
    state: &mut SharedState<P, M, T>,
    tracker: &mut HookTracker,
    key: Key,
    is_press: bool,
    now: T,
    window_open: bool,
) -> (out: Option<KeyPressOutcome<P>>)
    requires
        old(state)@.wf(),
    ensures
        old(tracker)@.replays_synthetic_events && old(tracker)@.passthrough.contains((key, is_press))
            ==> out is None && final(state)@ == old(state)@
            && swap_removed_first(old(tracker)@.passthrough, (key, is_press), final(tracker)@.passthrough)
            && final(tracker)@ == (TrackerView { passthrough: final(tracker)@.passthrough, ..old(tracker)@ }),
        !(old(tracker)@.replays_synthetic_events && old(tracker)@.passthrough.contains((key, is_press)))
            ==> out is Some && (is_press ==> (final(state)@, final(tracker)@, out.unwrap())
                == press_transition(old(state)@, old(tracker)@, key, now, window_open))
            && (!is_press ==> ({
                let (s, t, r) = release_transition(old(state)@, old(tracker)@, key);
                &&& final(state)@ == s
                &&& final(tracker)@ == t
                &&& out.unwrap() == press_outcome(r.captured, false, r.wake_motion, false, Followup::<P>::Nothing, None)
            })),
{
    if take_passthrough_key_event(tracker, key, is_press) {
        return None;
    }
    if is_press {
        Some(handle_key_press(state, tracker, key, now, window_open))
    } else {
        let r = handle_key_release(state, tracker, key);
        Some(KeyPressOutcome {
            captured: r.captured,
            quit: false,
            wake_motion: r.wake_motion,
            ui_changed: false,
            followup: Followup::Nothing,
            set_cursor_hidden: None,
        })
    }
}

// ---------------------------------------------------------------------------------------------
// Cursor placement (after the caller has clamped the point to the monitors)
// ---------------------------------------------------------------------------------------------

/// Puts the cursor at `clamped`, focusing `monitor` when the point lies on one.
pub fn update_cursor<P, M, T>(state: &mut SharedState<P, M, T>, clamped: P, monitor: Option<usize>)
    requires
        monitor matches Some(i) ==> i < old(state)@.monitors.len(),
    ensures
        final(state)@ == (StateView {
            cursor: clamped,
            selected_monitor: match monitor {
                Some(i) => i,
                None => old(state)@.selected_monitor,
            },
            ..old(state)@
        }),
{
    if let Some(index) = monitor {
        state.selected_monitor = index;
    }
    state.cursor = clamped;
}

/// `update_cursor`, then queues the move for the motion loop.
pub fn place_cursor<P: Copy, M, T>(state: &mut SharedState<P, M, T>, clamped: P, monitor: Option<usize>)
    requires
        monitor matches Some(i) ==> i < old(state)@.monitors.len(),
    ensures
        final(state)@ == (StateView {
            cursor: clamped,
            selected_monitor: match monitor {
                Some(i) => i,
                None => old(state)@.selected_monitor,
            },
            pending_actions: old(state)@.pending_actions.push(Action::MouseMove(clamped)),
            ..old(state)@
        }),
{
    update_cursor(state, clamped, monitor);
    state.pending_actions.push(Action::MouseMove(clamped));
}

/// Moves the cursor to `point` without clamping and queues the move.
pub fn move_cursor_to<P: Copy, M, T>(state: &mut SharedState<P, M, T>, point: P)
    ensures
        final(state)@ == (StateView {
            cursor: point,
            pending_actions: old(state)@.pending_actions.push(Action::MouseMove(point)),
            ..old(state)@
        }),
{
    state.cursor = point;
    state.pending_actions.push(Action::MouseMove(point));
}

/// Focuses `monitor` when there is one.
pub fn select_monitor<P, M, T>(state: &mut SharedState<P, M, T>, monitor: Option<usize>)
    requires
        monitor matches Some(i) ==> i < old(state)@.monitors.len(),
    ensures
        final(state)@ == (StateView {
            selected_monitor: match monitor {
                Some(i) => i,
                None => old(state)@.selected_monitor,
            },
            ..old(state)@
        }),
{
    if let Some(index) = monitor {
        state.selected_monitor = index;
    }
}


// ---------------------------------------------------------------------------------------------
// Motion loop
// ---------------------------------------------------------------------------------------------

/// What the motion loop does on one tick.
#[derive(Clone, Copy, Debug, PartialEq, Eq, Structural)]
pub enum MotionPlan {
    /// Nothing steers motion: the loop parks until it is woken again.
    Idle,
    /// Motion is steered but there is no monitor to move on: nothing happens this tick.
    NoMonitor,
    /// Scroll along the held direction (`horizontal` is right minus left, `vertical` is down
    /// minus up, each -1, 0 or 1), faster or slower as the speed modifiers say.
    Scroll { horizontal: i8, vertical: i8, fast: bool, slow: bool },
    /// Move the cursor along the held direction.
    Move { horizontal: i8, vertical: i8, fast: bool, slow: bool },
}

/// 1 if `pos` is held, minus 1 if `neg` is held.
pub open spec fn axis(pressed: Set<Key>, pos: Key, neg: Key) -> int {
    (if pressed.contains(pos) { 1int } else { 0int }) - (if pressed.contains(neg) { 1int } else { 0int })
}

/// The plan for one tick in state `s`.
pub open spec fn motion_plan<P, M, T>(s: StateView<P, M, T>) -> MotionPlan {
    let horizontal = axis(s.pressed, KEY_MOVE_RIGHT, KEY_MOVE_LEFT);
    let vertical = axis(s.pressed, KEY_MOVE_DOWN, KEY_MOVE_UP);
    let fast = s.pressed.contains(KEY_FAST);
    let slow = s.pressed.contains(KEY_SLOW);
    if s.mode != Mode::Normal || (horizontal == 0 && vertical == 0) {
        MotionPlan::Idle
    } else if s.monitors.len() == 0 {
        MotionPlan::NoMonitor
    } else if s.pressed.contains(KEY_SCROLL) {
        MotionPlan::Scroll { horizontal: horizontal as i8, vertical: vertical as i8, fast, slow }
    } else {
        MotionPlan::Move { horizontal: horizontal as i8, vertical: vertical as i8, fast, slow }
    }
}

fn axis_value(keys: &KeySet, pos: Key, neg: Key) -> (v: i8)
    ensures
        v == axis(keys@, pos, neg),
{
    let p: i8 = if keys.contains(pos) { 1 } else { 0 };
    let n: i8 = if keys.contains(neg) { 1 } else { 0 };
    p - n
}

/// One tick of the motion loop's bookkeeping: hands over the queued mouse events (in queue
/// order) and decides what to do with the held keys. When nothing steers motion (Insert mode,
/// or opposite or no move keys held) the loop is told to park.
pub fn plan_motion<P, M, T>(state: &mut SharedState<P, M, T>) -> (out: (Vec<Action<P>>, MotionPlan))
    ensures
        out.0@ == old(state)@.pending_actions,
        out.1 == motion_plan(old(state)@),
        final(state)@ == (StateView {
            pending_actions: Seq::<Action<P>>::empty(),
            motion_needed: if out.1 == MotionPlan::Idle { false } else { old(state)@.motion_needed },
            ..old(state)@
        }),
{
    let mut actions: Vec<Action<P>> = Vec::new();
    std::mem::swap(&mut actions, &mut state.pending_actions);
    let horizontal = axis_value(&state.pressed_keys, KEY_MOVE_RIGHT, KEY_MOVE_LEFT);
    let vertical = axis_value(&state.pressed_keys, KEY_MOVE_DOWN, KEY_MOVE_UP);
    let fast = state.pressed_keys.contains(KEY_FAST);
    let slow = state.pressed_keys.contains(KEY_SLOW);
    let plan = if state.mode != Mode::Normal || (horizontal == 0 && vertical == 0) {
        state.motion_needed = false;
        MotionPlan::Idle
    } else if state.monitors.len() == 0 {
        MotionPlan::NoMonitor
    } else if state.pressed_keys.contains(KEY_SCROLL) {
        MotionPlan::Scroll { horizontal, vertical, fast, slow }
    } else {
        MotionPlan::Move { horizontal, vertical, fast, slow }
    };
    (actions, plan)
}

} // verus!
