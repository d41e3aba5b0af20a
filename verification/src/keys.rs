use vstd::prelude::*;

verus! {

/// A physical keyboard key, as reported by the input hook.
///
/// `Unknown` carries the platform key code of keys that have no name of their own
/// (media and volume keys, for instance).
#[derive(Clone, Copy, Debug, PartialEq, Eq, Structural, Hash)]
pub enum Key {
    Alt,
    AltGr,
    Backspace,
    CapsLock,
    ControlLeft,
    ControlRight,
    Delete,
    DownArrow,
    End,
    Escape,
    F1,
    F10,
    F11,
    F12,
    F2,
    F3,
    F4,
    F5,
    F6,
    F7,
    F8,
    F9,
    Home,
    LeftArrow,
    MetaLeft,
    MetaRight,
    PageDown,
    PageUp,
    Return,
    RightArrow,
    ShiftLeft,
    ShiftRight,
    Space,
    Tab,
    UpArrow,
    PrintScreen,
    ScrollLock,
    Pause,
    NumLock,
    BackQuote,
    Num1,
    Num2,
    Num3,
    Num4,
    Num5,
    Num6,
    Num7,
    Num8,
    Num9,
    Num0,
    Minus,
    Equal,
    KeyQ,
    KeyW,
    KeyE,
    KeyR,
    KeyT,
    KeyY,
    KeyU,
    KeyI,
    KeyO,
    KeyP,
    LeftBracket,
    RightBracket,
    KeyA,
    KeyS,
    KeyD,
    KeyF,
    KeyG,
    KeyH,
    KeyJ,
    KeyK,
    KeyL,
    SemiColon,
    Quote,
    BackSlash,
    IntlBackslash,
    KeyZ,
    KeyX,
    KeyC,
    KeyV,
    KeyB,
    KeyN,
    KeyM,
    Comma,
    Dot,
    Slash,
    Insert,
    KpReturn,
    KpMinus,
    KpPlus,
    KpMultiply,
    KpDivide,
    Kp0,
    Kp1,
    Kp2,
    Kp3,
    Kp4,
    Kp5,
    Kp6,
    Kp7,
    Kp8,
    Kp9,
    KpDelete,
    Function,
    Unknown(u32),
}

/// A mouse button. `Unknown` carries the platform button number of extra buttons.
#[derive(Clone, Copy, Debug, PartialEq, Eq, Structural, Hash)]
pub enum Button {
    Left,
    Right,
    Middle,
    Unknown(u8),
}

// ---------------------------------------------------------------------------------------------
// Key bindings
// ---------------------------------------------------------------------------------------------

/// Enters Insert mode (Normal mode only).
pub const KEY_INSERT_MODE: Key = Key::KeyI;
/// Enters Normal mode; captured in both modes.
pub const KEY_NORMAL_MODE: Key = Key::CapsLock;
/// Whether the mouse cursor is hidden while in Insert mode.
pub const INSERT_MODE_HIDE_CURSOR: bool = false;

pub const KEY_MOVE_LEFT: Key = Key::KeyH;
pub const KEY_MOVE_DOWN: Key = Key::KeyJ;
pub const KEY_MOVE_UP: Key = Key::KeyK;
pub const KEY_MOVE_RIGHT: Key = Key::KeyL;

/// Left click.
pub const KEY_MOUSE_1: Key = Key::SemiColon;
/// Right click.
pub const KEY_MOUSE_2: Key = Key::Quote;
/// Middle click.
pub const KEY_MOUSE_3: Key = Key::KeyM;
/// Back (X1) click.
pub const KEY_MOUSE_4: Key = Key::KeyO;
/// Forward (X2) click.
pub const KEY_MOUSE_5: Key = Key::KeyP;

/// Held together with a move key to scroll instead of moving the cursor.
pub const KEY_SCROLL: Key = Key::ShiftLeft;
/// Speed-up modifier for movement and scrolling.
pub const KEY_FAST: Key = Key::Space;
/// Slow-down modifier for movement and scrolling.
pub const KEY_SLOW: Key = Key::Alt;

/// Cycles the focused monitor.
pub const KEY_CYCLE_MONITOR: Key = Key::KeyN;

/// Toggles the reference jump-grid overlay.
pub const KEY_TOGGLE_GRID: Key = Key::Slash;
/// Toggles the grid-letter overlay.
pub const KEY_TOGGLE_GRID_LETTERS: Key = Key::Dot;
/// Toggles every overlay; works in both modes. Though the OS counts Right Shift as a
/// modifier, a press of it with no other OS modifier forwarded is taken as the toggle.
pub const KEY_TOGGLE_OVERLAY: Key = Key::ShiftRight;

/// Held with a mark key to remove that mark.
pub const KEY_UNMARK: Key = Key::ShiftLeft;
/// Pressed while `KEY_UNMARK` is active to remove every mark.
pub const KEY_UNMARK_ALL: Key = Key::BackQuote;

/// Number of columns of the jump grid.
pub const JUMP_GRID_COLS: usize = 5;
/// Number of rows of the jump grid.
pub const JUMP_GRID_ROWS: usize = 3;
/// Number of mark keys.
pub const MARK_COUNT: usize = 10;

/// The key of jump-grid cell (`row`, `col`), read left-to-right, top-to-bottom:
/// `Q W E R T` / `A S D F G` / `Z X C V B`.
pub open spec fn grid_key(row: int, col: int) -> Key {
    if row == 0 {
        if col == 0 { Key::KeyQ } else if col == 1 { Key::KeyW } else if col == 2 { Key::KeyE }
        else if col == 3 { Key::KeyR } else { Key::KeyT }
    } else if row == 1 {
        if col == 0 { Key::KeyA } else if col == 1 { Key::KeyS } else if col == 2 { Key::KeyD }
        else if col == 3 { Key::KeyF } else { Key::KeyG }
    } else {
        if col == 0 { Key::KeyZ } else if col == 1 { Key::KeyX } else if col == 2 { Key::KeyC }
        else if col == 3 { Key::KeyV } else { Key::KeyB }
    }
}

/// The `i`-th mark key: `1` through `9`, then `0`.
pub open spec fn mark_key(i: int) -> Key {
    if i == 0 { Key::Num1 } else if i == 1 { Key::Num2 } else if i == 2 { Key::Num3 }
    else if i == 3 { Key::Num4 } else if i == 4 { Key::Num5 } else if i == 5 { Key::Num6 }
    else if i == 6 { Key::Num7 } else if i == 7 { Key::Num8 } else if i == 8 { Key::Num9 }
    else { Key::Num0 }
}

// ---------------------------------------------------------------------------------------------
// Key classes
// ---------------------------------------------------------------------------------------------

/// Keys the operating system treats as modifiers.
pub open spec fn os_modifier(key: Key) -> bool {
    key == Key::ControlLeft || key == Key::ControlRight || key == Key::Alt
        || key == Key::ShiftLeft || key == Key::ShiftRight || key == Key::MetaLeft
        || key == Key::MetaRight
}

/// Keys that change how movement behaves while held (scroll, fast, slow).
pub open spec fn runtime_modifier(key: Key) -> bool {
    key == KEY_SCROLL || key == KEY_FAST || key == KEY_SLOW
}

/// Keys that always pass through to the operating system, even in Normal mode: the listed
/// editing, navigation, function and keypad keys, plus keys that have no name.
pub open spec fn exempt_key(key: Key) -> bool {
    ||| key is Unknown
    ||| key == Key::Function
    ||| key == Key::Return ||| key == Key::Escape ||| key == Key::Tab
    ||| key == Key::Backspace ||| key == Key::Delete ||| key == Key::Insert
    ||| key == Key::Home ||| key == Key::End ||| key == Key::PageUp ||| key == Key::PageDown
    ||| key == Key::UpArrow ||| key == Key::DownArrow ||| key == Key::LeftArrow
    ||| key == Key::RightArrow
    ||| key == Key::F1 ||| key == Key::F2 ||| key == Key::F3 ||| key == Key::F4
    ||| key == Key::F5 ||| key == Key::F6 ||| key == Key::F7 ||| key == Key::F8
    ||| key == Key::F9 ||| key == Key::F10 ||| key == Key::F11 ||| key == Key::F12
    ||| key == Key::PrintScreen ||| key == Key::ScrollLock ||| key == Key::Pause
    ||| key == Key::NumLock
    ||| key == Key::Kp0 ||| key == Key::Kp1 ||| key == Key::Kp2 ||| key == Key::Kp3
    ||| key == Key::Kp4 ||| key == Key::Kp5 ||| key == Key::Kp6 ||| key == Key::Kp7
    ||| key == Key::Kp8 ||| key == Key::Kp9
    ||| key == Key::KpReturn ||| key == Key::KpMinus ||| key == Key::KpPlus
    ||| key == Key::KpMultiply ||| key == Key::KpDivide ||| key == Key::KpDelete
}

pub open spec fn move_key(key: Key) -> bool {
    key == KEY_MOVE_LEFT || key == KEY_MOVE_DOWN || key == KEY_MOVE_UP || key == KEY_MOVE_RIGHT
}

pub open spec fn mouse_key(key: Key) -> bool {
    key == KEY_MOUSE_1 || key == KEY_MOUSE_2 || key == KEY_MOUSE_3 || key == KEY_MOUSE_4
        || key == KEY_MOUSE_5
}

/// `key` labels some cell of the jump grid.
pub open spec fn jump_key(key: Key) -> bool {
    exists|row: int, col: int|
        0 <= row < JUMP_GRID_ROWS && 0 <= col < JUMP_GRID_COLS && #[trigger] grid_key(row, col)
            == key
}

/// `key` is one of the mark keys.
pub open spec fn mark_key_of(key: Key) -> bool {
    exists|i: int| 0 <= i < MARK_COUNT && #[trigger] mark_key(i) == key
}

/// The keys of the quit chord: Left Ctrl + Alt + Left Shift + Q.
pub open spec fn quit_chord_key(key: Key) -> bool {
    key == Key::ControlLeft || key == Key::Alt || key == Key::ShiftLeft || key == Key::KeyQ
}

pub fn is_os_modifier(key: Key) -> (r: bool)
    ensures
        r == os_modifier(key),
{
    matches!(
        key,
        Key::ControlLeft | Key::ControlRight | Key::Alt | Key::ShiftLeft | Key::ShiftRight
            | Key::MetaLeft | Key::MetaRight
    )
}

pub fn is_runtime_modifier(key: Key) -> (r: bool)
    ensures
        r == runtime_modifier(key),
{
    key == KEY_SCROLL || key == KEY_FAST || key == KEY_SLOW
}

pub fn is_exempt_key(key: Key) -> (r: bool)
    ensures
        r == exempt_key(key),
{
    matches!(
        key,
        Key::Unknown(_) | Key::Function | Key::Return | Key::Escape | Key::Tab | Key::Backspace
            | Key::Delete | Key::Insert | Key::Home | Key::End | Key::PageUp | Key::PageDown
            | Key::UpArrow | Key::DownArrow | Key::LeftArrow | Key::RightArrow | Key::F1
            | Key::F2 | Key::F3 | Key::F4 | Key::F5 | Key::F6 | Key::F7 | Key::F8 | Key::F9
            | Key::F10 | Key::F11 | Key::F12 | Key::PrintScreen | Key::ScrollLock | Key::Pause
            | Key::NumLock | Key::Kp0 | Key::Kp1 | Key::Kp2 | Key::Kp3 | Key::Kp4 | Key::Kp5
            | Key::Kp6 | Key::Kp7 | Key::Kp8 | Key::Kp9 | Key::KpReturn | Key::KpMinus
            | Key::KpPlus | Key::KpMultiply | Key::KpDivide | Key::KpDelete
    )
}

pub fn is_move_key(key: Key) -> (r: bool)
    ensures
        r == move_key(key),
{
    key == KEY_MOVE_LEFT || key == KEY_MOVE_DOWN || key == KEY_MOVE_UP || key == KEY_MOVE_RIGHT
}

pub fn is_mouse_key(key: Key) -> (r: bool)
    ensures
        r == mouse_key(key),
{
    key == KEY_MOUSE_1 || key == KEY_MOUSE_2 || key == KEY_MOUSE_3 || key == KEY_MOUSE_4
        || key == KEY_MOUSE_5
}

pub fn is_quit_chord_key(key: Key) -> (r: bool)
    ensures
        r == quit_chord_key(key),
{
    key == Key::ControlLeft || key == Key::Alt || key == Key::ShiftLeft || key == Key::KeyQ
}


/// The (row, column) of the jump-grid cell labelled by `key` (meaningful for jump keys).
pub open spec fn grid_position(key: Key) -> (int, int) {
    match key {
        Key::KeyQ => (0, 0), Key::KeyW => (0, 1), Key::KeyE => (0, 2), Key::KeyR => (0, 3),
        Key::KeyT => (0, 4),
        Key::KeyA => (1, 0), Key::KeyS => (1, 1), Key::KeyD => (1, 2), Key::KeyF => (1, 3),
        Key::KeyG => (1, 4),
        Key::KeyZ => (2, 0), Key::KeyX => (2, 1), Key::KeyC => (2, 2), Key::KeyV => (2, 3),
        Key::KeyB => (2, 4),
        _ => (0, 0),
    }
}

/// The position of `key` among the mark keys (meaningful for mark keys).
pub open spec fn mark_index(key: Key) -> int {
    match key {
        Key::Num1 => 0, Key::Num2 => 1, Key::Num3 => 2, Key::Num4 => 3, Key::Num5 => 4,
        Key::Num6 => 5, Key::Num7 => 6, Key::Num8 => 7, Key::Num9 => 8, _ => 9,
    }
}

/// `grid_position` inverts `grid_key`.
pub proof fn lemma_grid_position(row: int, col: int)
    requires
        0 <= row < JUMP_GRID_ROWS,
        0 <= col < JUMP_GRID_COLS,
    ensures
        grid_position(grid_key(row, col)) == (row, col),
{
}

/// `mark_index` inverts `mark_key`.
pub proof fn lemma_mark_index(i: int)
    requires
        0 <= i < MARK_COUNT,
    ensures
        mark_index(mark_key(i)) == i,
{
}

/// The key of jump-grid cell (`row`, `col`).
pub fn jump_grid_key(row: usize, col: usize) -> (k: Key)
    requires
        row < JUMP_GRID_ROWS,
        col < JUMP_GRID_COLS,
    ensures
        k == grid_key(row as int, col as int),
{
    if row == 0 {
        if col == 0 { Key::KeyQ } else if col == 1 { Key::KeyW } else if col == 2 { Key::KeyE }
        else if col == 3 { Key::KeyR } else { Key::KeyT }
    } else if row == 1 {
        if col == 0 { Key::KeyA } else if col == 1 { Key::KeyS } else if col == 2 { Key::KeyD }
        else if col == 3 { Key::KeyF } else { Key::KeyG }
    } else {
        if col == 0 { Key::KeyZ } else if col == 1 { Key::KeyX } else if col == 2 { Key::KeyC }
        else if col == 3 { Key::KeyV } else { Key::KeyB }
    }
}

/// The `i`-th mark key.
pub fn mark_key_at(i: usize) -> (k: Key)
    requires
        i < MARK_COUNT,
    ensures
        k == mark_key(i as int),
{
    if i == 0 { Key::Num1 } else if i == 1 { Key::Num2 } else if i == 2 { Key::Num3 }
    else if i == 3 { Key::Num4 } else if i == 4 { Key::Num5 } else if i == 5 { Key::Num6 }
    else if i == 6 { Key::Num7 } else if i == 7 { Key::Num8 } else if i == 8 { Key::Num9 }
    else { Key::Num0 }
}

/// The jump-grid cell labelled by `key`, as `(column, row)`, or `None` for keys outside the
/// grid.
pub fn jump_grid_index(key: Key) -> (r: Option<(usize, usize)>)
    ensures
        r is None <==> !jump_key(key),
        r matches Some((col, row)) ==> row < JUMP_GRID_ROWS && col < JUMP_GRID_COLS
            && grid_key(row as int, col as int) == key && grid_position(key) == (row as int, col as int),
{
    let mut row: usize = 0;
    while row < JUMP_GRID_ROWS
        invariant
            row <= JUMP_GRID_ROWS,
            forall|r: int, c: int|
                0 <= r < row && 0 <= c < JUMP_GRID_COLS ==> #[trigger] grid_key(r, c) != key,
        decreases JUMP_GRID_ROWS - row,
    {
        let mut col: usize = 0;
        while col < JUMP_GRID_COLS
            invariant
                row < JUMP_GRID_ROWS,
                col <= JUMP_GRID_COLS,
                forall|r: int, c: int|
                    0 <= r < row && 0 <= c < JUMP_GRID_COLS ==> #[trigger] grid_key(r, c) != key,
                forall|c: int| 0 <= c < col ==> #[trigger] grid_key(row as int, c) != key,
            decreases JUMP_GRID_COLS - col,
        {
            if jump_grid_key(row, col) == key {
                proof {
                    lemma_grid_position(row as int, col as int);
                }
                return Some((col, row));
            }
            col = col + 1;
        }
        row = row + 1;
    }
    None
}

/// The jump-grid cell labelled by `key`, as `(row, column)`.
pub fn jump_cell(key: Key) -> (r: Option<(usize, usize)>)
    ensures
        r is None <==> !jump_key(key),
        r matches Some((row, col)) ==> row < JUMP_GRID_ROWS && col < JUMP_GRID_COLS
            && grid_key(row as int, col as int) == key && grid_position(key) == (row as int, col as int),
{
    match jump_grid_index(key) {
        Some((col, row)) => Some((row, col)),
        None => None,
    }
}

pub fn is_jump_key(key: Key) -> (r: bool)
    ensures
        r == jump_key(key),
{
    jump_grid_index(key).is_some()
}

/// Position of `key` among the mark keys.
pub fn mark_slot(key: Key) -> (r: Option<usize>)
    ensures
        r is None <==> !mark_key_of(key),
        r matches Some(i) ==> i < MARK_COUNT && mark_key(i as int) == key && mark_index(key) == i,
{
    let mut i: usize = 0;
    while i < MARK_COUNT
        invariant
            i <= MARK_COUNT,
            forall|j: int| 0 <= j < i ==> #[trigger] mark_key(j) != key,
        decreases MARK_COUNT - i,
    {
        if mark_key_at(i) == key {
            proof {
                lemma_mark_index(i as int);
            }
            return Some(i);
        }
        i = i + 1;
    }
    None
}

pub fn is_mark_key(key: Key) -> (r: bool)
    ensures
        r == mark_key_of(key),
{
    mark_slot(key).is_some()
}

/// Distinct jump-grid cells carry distinct keys.
pub proof fn lemma_grid_keys_distinct(r1: int, c1: int, r2: int, c2: int)
    requires
        0 <= r1 < JUMP_GRID_ROWS,
        0 <= c1 < JUMP_GRID_COLS,
        0 <= r2 < JUMP_GRID_ROWS,
        0 <= c2 < JUMP_GRID_COLS,
        grid_key(r1, c1) == grid_key(r2, c2),
    ensures
        r1 == r2 && c1 == c2,
{
}

/// Distinct mark positions carry distinct keys.
pub proof fn lemma_mark_keys_distinct(i: int, j: int)
    requires
        0 <= i < MARK_COUNT,
        0 <= j < MARK_COUNT,
        mark_key(i) == mark_key(j),
    ensures
        i == j,
{
}

/// The character drawn for `key` in the overlays: its letter or digit.
pub open spec fn label_of(key: Key) -> Option<char> {
    match key {
        Key::KeyA => Some('A'), Key::KeyB => Some('B'), Key::KeyC => Some('C'),
        Key::KeyD => Some('D'), Key::KeyE => Some('E'), Key::KeyF => Some('F'),
        Key::KeyG => Some('G'), Key::KeyH => Some('H'), Key::KeyI => Some('I'),
        Key::KeyJ => Some('J'), Key::KeyK => Some('K'), Key::KeyL => Some('L'),
        Key::KeyM => Some('M'), Key::KeyN => Some('N'), Key::KeyO => Some('O'),
        Key::KeyP => Some('P'), Key::KeyQ => Some('Q'), Key::KeyR => Some('R'),
        Key::KeyS => Some('S'), Key::KeyT => Some('T'), Key::KeyU => Some('U'),
        Key::KeyV => Some('V'), Key::KeyW => Some('W'), Key::KeyX => Some('X'),
        Key::KeyY => Some('Y'), Key::KeyZ => Some('Z'),
        Key::Num0 => Some('0'), Key::Num1 => Some('1'), Key::Num2 => Some('2'),
        Key::Num3 => Some('3'), Key::Num4 => Some('4'), Key::Num5 => Some('5'),
        Key::Num6 => Some('6'), Key::Num7 => Some('7'), Key::Num8 => Some('8'),
        Key::Num9 => Some('9'),
        _ => None,
    }
}

/// The character drawn for `key` in an overlay (grid cells and marks).
pub fn key_label(key: Key) -> (r: Option<char>)
    ensures
        r == label_of(key),
{
    match key {
        Key::KeyA => Some('A'), Key::KeyB => Some('B'), Key::KeyC => Some('C'),
        Key::KeyD => Some('D'), Key::KeyE => Some('E'), Key::KeyF => Some('F'),
        Key::KeyG => Some('G'), Key::KeyH => Some('H'), Key::KeyI => Some('I'),
        Key::KeyJ => Some('J'), Key::KeyK => Some('K'), Key::KeyL => Some('L'),
        Key::KeyM => Some('M'), Key::KeyN => Some('N'), Key::KeyO => Some('O'),
        Key::KeyP => Some('P'), Key::KeyQ => Some('Q'), Key::KeyR => Some('R'),
        Key::KeyS => Some('S'), Key::KeyT => Some('T'), Key::KeyU => Some('U'),
        Key::KeyV => Some('V'), Key::KeyW => Some('W'), Key::KeyX => Some('X'),
        Key::KeyY => Some('Y'), Key::KeyZ => Some('Z'),
        Key::Num0 => Some('0'), Key::Num1 => Some('1'), Key::Num2 => Some('2'),
        Key::Num3 => Some('3'), Key::Num4 => Some('4'), Key::Num5 => Some('5'),
        Key::Num6 => Some('6'), Key::Num7 => Some('7'), Key::Num8 => Some('8'),
        Key::Num9 => Some('9'),
        _ => None,
    }
}

/// Some key binding of the configuration is Caps Lock (the keys of the bindings, the quit
/// chord and the jump grid).
pub open spec fn config_uses_caps_lock() -> bool {
    ||| KEY_NORMAL_MODE == Key::CapsLock ||| KEY_INSERT_MODE == Key::CapsLock
    ||| KEY_SCROLL == Key::CapsLock ||| KEY_FAST == Key::CapsLock ||| KEY_SLOW == Key::CapsLock
    ||| mouse_key(Key::CapsLock) ||| KEY_CYCLE_MONITOR == Key::CapsLock
    ||| KEY_TOGGLE_GRID == Key::CapsLock ||| KEY_TOGGLE_GRID_LETTERS == Key::CapsLock
    ||| move_key(Key::CapsLock) ||| quit_chord_key(Key::CapsLock) ||| jump_key(Key::CapsLock)
}

/// Whether Caps Lock is one of the configured bindings, in which case its lock state is
/// suppressed (or, on macOS, the key is remapped) so it acts purely as a trigger.
pub fn caps_lock_used_in_config() -> (r: bool)
    ensures
        r == config_uses_caps_lock(),
{
    let bound = KEY_NORMAL_MODE == Key::CapsLock || KEY_INSERT_MODE == Key::CapsLock
        || KEY_SCROLL == Key::CapsLock || KEY_FAST == Key::CapsLock || KEY_SLOW == Key::CapsLock
        || is_mouse_key(Key::CapsLock) || KEY_CYCLE_MONITOR == Key::CapsLock
        || KEY_TOGGLE_GRID == Key::CapsLock || KEY_TOGGLE_GRID_LETTERS == Key::CapsLock
        || is_move_key(Key::CapsLock);
    bound || is_quit_chord_key(Key::CapsLock) || is_jump_key(Key::CapsLock)
}

} // verus!
