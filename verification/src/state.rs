use crate::key_set::KeySet;
use crate::keys::{
    move_key, runtime_modifier, Button, Key, KEY_MOVE_DOWN, KEY_MOVE_LEFT, KEY_MOVE_UP, MARK_COUNT,
};
use vstd::prelude::*;

verus! {

/// The two modes: Normal mode owns the keyboard, Insert mode lets typing through.
#[derive(Clone, Copy, Debug, PartialEq, Eq, Structural)]
pub enum Mode {
    Normal,
    Insert,
}

impl Mode {
    /// The letter shown on the mode badge.
    pub fn label(self) -> (c: char)
        ensures
            c == (match self {
                Mode::Normal => 'N',
                Mode::Insert => 'I',
            }),
    {
        match self {
            Mode::Normal => 'N',
            Mode::Insert => 'I',
        }
    }

    /// The RGBA background of the mode badge.
    pub fn background(self) -> (rgba: [u8; 4])
        ensures
            rgba@ == (match self {
                Mode::Normal => seq![30u8, 160u8, 98u8, 255u8],
                Mode::Insert => seq![44u8, 55u8, 72u8, 255u8],
            }),
    {
        let rgba = match self {
            Mode::Normal => [30u8, 160u8, 98u8, 255u8],
            Mode::Insert => [44u8, 55u8, 72u8, 255u8],
        };
        assert(rgba@ =~= (match self {
            Mode::Normal => seq![30u8, 160u8, 98u8, 255u8],
            Mode::Insert => seq![44u8, 55u8, 72u8, 255u8],
        }));
        rgba
    }

    /// The RGBA color of the mode line.
    pub fn color(self) -> (rgba: [u8; 4])
        ensures
            rgba@ == (match self {
                Mode::Normal => seq![40u8, 150u8, 230u8, 255u8],
                Mode::Insert => seq![230u8, 150u8, 40u8, 255u8],
            }),
    {
        let rgba = match self {
            Mode::Normal => [40u8, 150u8, 230u8, 255u8],
            Mode::Insert => [230u8, 150u8, 40u8, 255u8],
        };
        assert(rgba@ =~= (match self {
            Mode::Normal => seq![40u8, 150u8, 230u8, 255u8],
            Mode::Insert => seq![230u8, 150u8, 40u8, 255u8],
        }));
        rgba
    }
}

/// A synthetic mouse event queued by the input hook for the motion loop to emit.
#[derive(Clone, Copy, Debug)]
pub enum Action<P> {
    MouseMove(P),
    ButtonPress(Button),
    ButtonRelease(Button),
}

/// Index of a move key among `h j k l` (left, down, up, right).
pub open spec fn move_index(key: Key) -> int {
    if key == KEY_MOVE_LEFT {
        0
    } else if key == KEY_MOVE_DOWN {
        1
    } else if key == KEY_MOVE_UP {
        2
    } else {
        3
    }
}

pub fn move_slot(key: Key) -> (i: usize)
    requires
        move_key(key),
    ensures
        i == move_index(key),
        i < 4,
{
    if key == KEY_MOVE_LEFT {
        0
    } else if key == KEY_MOVE_DOWN {
        1
    } else if key == KEY_MOVE_UP {
        2
    } else {
        3
    }
}

/// The runtime state shared by the input hook, the motion loop and the overlays.
///
/// `P` is a point in virtual-desktop coordinates, `M` a monitor rectangle and `T` an instant:
/// the state machine stores and forwards them but computes nothing with them.
pub struct SharedState<P, M, T> {
    pub mode: Mode,
    pub cursor: P,
    pub selected_monitor: usize,
    pub monitors: Vec<M>,
    /// Held move keys and runtime modifiers that currently steer motion.
    pub pressed_keys: KeySet,
    pub left_button_down: bool,
    pub right_button_down: bool,
    pub pending_actions: Vec<Action<P>>,
    pub show_grid: bool,
    pub show_grid_letters: bool,
    pub show_overlays: bool,
    pub show_mode_line: bool,
    pub motion_needed: bool,
    /// When each move key (`h j k l`) started being held.
    pub move_key_pressed_at: Vec<Option<T>>,
    /// The grid cell of the last first-level jump, awaiting a subcell key.
    pub pending_subcell: Option<(u8, u8, T)>,
    /// The position stored under each mark key (`1`..`9`, `0`).
    pub marks: Vec<Option<P>>,
}

/// The mathematical content of a `SharedState`.
pub struct StateView<P, M, T> {
    pub mode: Mode,
    pub cursor: P,
    pub selected_monitor: usize,
    pub monitors: Seq<M>,
    pub pressed: Set<Key>,
    pub left_button_down: bool,
    pub right_button_down: bool,
    pub pending_actions: Seq<Action<P>>,
    pub show_grid: bool,
    pub show_grid_letters: bool,
    pub show_overlays: bool,
    pub show_mode_line: bool,
    pub motion_needed: bool,
    pub move_key_pressed_at: Seq<Option<T>>,
    pub pending_subcell: Option<(u8, u8, T)>,
    pub marks: Seq<Option<P>>,
}

/// Some move key is held.
pub open spec fn moving(pressed: Set<Key>) -> bool {
    exists|k: Key| #[trigger] pressed.contains(k) && move_key(k)
}

impl<P, M, T> StateView<P, M, T> {
    /// Structural validity: the per-key tables have one entry per key, the focused monitor
    /// exists, only move keys and runtime modifiers steer motion, and nothing steers it in
    /// Insert mode.
    pub open spec fn wf(self) -> bool {
        &&& self.move_key_pressed_at.len() == 4
        &&& self.marks.len() == MARK_COUNT
        &&& self.monitors.len() > 0 ==> self.selected_monitor < self.monitors.len()
        &&& forall|k: Key| #[trigger] self.pressed.contains(k) ==> move_key(k) || runtime_modifier(k)
        &&& self.mode == Mode::Insert ==> self.pressed == Set::<Key>::empty()
        &&& forall|k: Key|
            move_key(k) ==> (#[trigger] self.pressed.contains(k)
                <==> self.move_key_pressed_at[move_index(k)] is Some)
    }
}

impl<P, M, T> View for SharedState<P, M, T> {
    type V = StateView<P, M, T>;

    open spec fn view(&self) -> StateView<P, M, T> {
        StateView {
            mode: self.mode,
            cursor: self.cursor,
            selected_monitor: self.selected_monitor,
            monitors: self.monitors@,
            pressed: self.pressed_keys@,
            left_button_down: self.left_button_down,
            right_button_down: self.right_button_down,
            pending_actions: self.pending_actions@,
            show_grid: self.show_grid,
            show_grid_letters: self.show_grid_letters,
            show_overlays: self.show_overlays,
            show_mode_line: self.show_mode_line,
            motion_needed: self.motion_needed,
            move_key_pressed_at: self.move_key_pressed_at@,
            pending_subcell: self.pending_subcell,
            marks: self.marks@,
        }
    }
}

impl<P: Copy, M, T: Copy> SharedState<P, M, T> {
    /// The state at launch: Normal mode, mode line shown, grid and letters hidden, overlays
    /// on, no marks, and motion requested once so the initial queue is flushed.
    pub fn new(cursor: P, selected_monitor: usize, monitors: Vec<M>) -> (s: Self)
        requires
            monitors@.len() > 0 ==> selected_monitor < monitors@.len(),
        ensures
            s@.wf(),
            s@.mode == Mode::Normal,
            s@.cursor == cursor,
            s@.selected_monitor == selected_monitor,
            s@.monitors == monitors@,
            s@.pressed == Set::<Key>::empty(),
            !s@.left_button_down,
            !s@.right_button_down,
            s@.pending_actions == Seq::<Action<P>>::empty(),
            !s@.show_grid,
            !s@.show_grid_letters,
            s@.show_overlays,
            s@.show_mode_line,
            s@.motion_needed,
            s@.move_key_pressed_at == Seq::new(4, |i: int| None::<T>),
            s@.pending_subcell is None,
            s@.marks == Seq::new(MARK_COUNT as nat, |i: int| None::<P>),
    {
        let mut move_key_pressed_at: Vec<Option<T>> = Vec::new();
        while move_key_pressed_at.len() < 4
            invariant
                move_key_pressed_at@.len() <= 4,
                forall|i: int| 0 <= i < move_key_pressed_at@.len() ==> move_key_pressed_at@[i] is None,
            decreases 4 - move_key_pressed_at@.len(),
        {
            move_key_pressed_at.push(None);
        }
        let mut marks: Vec<Option<P>> = Vec::new();
        while marks.len() < MARK_COUNT
            invariant
                marks@.len() <= MARK_COUNT,
                forall|i: int| 0 <= i < marks@.len() ==> marks@[i] is None,
            decreases MARK_COUNT - marks@.len(),
        {
            marks.push(None);
        }
        let s = SharedState {
            mode: Mode::Normal,
            cursor,
            selected_monitor,
            monitors,
            pressed_keys: KeySet::new(),
            left_button_down: false,
            right_button_down: false,
            pending_actions: Vec::new(),
            show_grid: false,
            show_grid_letters: false,
            show_overlays: true,
            show_mode_line: true,
            motion_needed: true,
            move_key_pressed_at,
            pending_subcell: None,
            marks,
        };
        assert(s@.move_key_pressed_at =~= Seq::new(4, |i: int| None::<T>));
        assert(s@.marks =~= Seq::new(MARK_COUNT as nat, |i: int| None::<P>));
        s
    }
}

} // verus!
