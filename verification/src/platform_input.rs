//! The platform-facing decisions of the input layer: which button numbers the platforms use,
//! how macOS key codes and modifier flags read, which synthetic mouse event each action is on
//! macOS, multi-click counting, scroll clicks on X11, and what shutting down has to undo.
use crate::caps_lock_remap::{remap_step, set_enabled, stepped, CapsLockRemapper, RemapStep, VKEY_F18};
use crate::cursor_visibility::{set_cursor_hidden, CursorVisibility};
use crate::keys::{Button, Key};
use crate::state::Action;
use vstd::prelude::*;

verus! {

/// The platforms, for the button numbers that differ between them.
#[derive(Clone, Copy, Debug, PartialEq, Eq, Structural)]
pub enum Platform {
    Windows,
    MacOs,
    Linux,
}

/// The back (X1) mouse button as the platform's input layer numbers it.
pub fn button_mouse_4(platform: Platform) -> (b: Button)
    ensures
        b == (match platform {
            Platform::Windows => Button::Unknown(1),
            Platform::Linux => Button::Unknown(8),
            Platform::MacOs => Button::Unknown(3),
        }),
{
    match platform {
        Platform::Windows => Button::Unknown(1),
        Platform::Linux => Button::Unknown(8),
        Platform::MacOs => Button::Unknown(3),
    }
}

/// The forward (X2) mouse button as the platform's input layer numbers it.
pub fn button_mouse_5(platform: Platform) -> (b: Button)
    ensures
        b == (match platform {
            Platform::Windows => Button::Unknown(2),
            Platform::Linux => Button::Unknown(9),
            Platform::MacOs => Button::Unknown(4),
        }),
{
    match platform {
        Platform::Windows => Button::Unknown(2),
        Platform::Linux => Button::Unknown(9),
        Platform::MacOs => Button::Unknown(4),
    }
}

/// Turns the macOS Caps Lock remap on or off.
pub fn set_caps_lock_remap<M>(remapper: &mut CapsLockRemapper<M>, enabled: bool) -> (step: RemapStep)
    ensures
        step == remap_step(*old(remapper), enabled),
        *final(remapper) == stepped(*old(remapper), enabled),
{
    set_caps_lock_remap_enabled(remapper, enabled)
}

/// Turns the macOS Caps Lock remap on or off (the event tap's entry point).
pub fn set_caps_lock_remap_enabled<M>(remapper: &mut CapsLockRemapper<M>, enabled: bool) -> (step: RemapStep)
    ensures
        step == remap_step(*old(remapper), enabled),
        *final(remapper) == stepped(*old(remapper), enabled),
{
    set_enabled(remapper, enabled)
}

/// Turns the macOS Caps Lock remap off (the event tap's exit).
pub fn shutdown<M>(remapper: &mut CapsLockRemapper<M>) -> (step: RemapStep)
    ensures
        step == remap_step(*old(remapper), false),
        *final(remapper) == stepped(*old(remapper), false),
{
    crate::caps_lock_remap::shutdown(remapper)
}

/// What shutting down the input layer has to undo.
#[derive(Clone, Copy, Debug, PartialEq, Eq, Structural)]
pub struct ShutdownPlan {
    /// Show the cursor again (it was hidden).
    pub show_cursor: bool,
    /// The step that turns the Caps Lock remap off.
    pub remap: RemapStep,
}

/// Shutting down: the cursor is shown again if Insert mode hid it, and the Caps Lock remap is
/// turned off (a remapper without a client, as on Windows and Linux, is never on).
pub fn shutdown_platform_input<M>(cursor: &mut CursorVisibility, remapper: &mut CapsLockRemapper<M>) -> (plan: ShutdownPlan)
    ensures
        plan.show_cursor == old(cursor).hidden,
        !final(cursor).hidden,
        plan.remap == remap_step(*old(remapper), false),
        *final(remapper) == stepped(*old(remapper), false),
{
    let show_cursor = set_cursor_hidden(cursor, false);
    let remap = shutdown(remapper);
    ShutdownPlan { show_cursor, remap }
}

/// The key of a macOS virtual key code, from the ANSI keyboard layout.
pub open spec fn mac_key(code: u16) -> Key {
    match code {
        0 => Key::KeyA,
        1 => Key::KeyS,
        2 => Key::KeyD,
        3 => Key::KeyF,
        4 => Key::KeyH,
        5 => Key::KeyG,
        6 => Key::KeyZ,
        7 => Key::KeyX,
        8 => Key::KeyC,
        9 => Key::KeyV,
        11 => Key::KeyB,
        12 => Key::KeyQ,
        13 => Key::KeyW,
        14 => Key::KeyE,
        15 => Key::KeyR,
        16 => Key::KeyY,
        17 => Key::KeyT,
        31 => Key::KeyO,
        32 => Key::KeyU,
        34 => Key::KeyI,
        35 => Key::KeyP,
        37 => Key::KeyL,
        38 => Key::KeyJ,
        40 => Key::KeyK,
        45 => Key::KeyN,
        46 => Key::KeyM,
        18 => Key::Num1,
        19 => Key::Num2,
        20 => Key::Num3,
        21 => Key::Num4,
        22 => Key::Num6,
        23 => Key::Num5,
        25 => Key::Num9,
        26 => Key::Num7,
        28 => Key::Num8,
        29 => Key::Num0,
        24 => Key::Equal,
        27 => Key::Minus,
        30 => Key::RightBracket,
        33 => Key::LeftBracket,
        39 => Key::Quote,
        41 => Key::SemiColon,
        42 => Key::BackSlash,
        43 => Key::Comma,
        44 => Key::Slash,
        47 => Key::Dot,
        50 => Key::BackQuote,
        36 => Key::Return,
        48 => Key::Tab,
        49 => Key::Space,
        51 => Key::Backspace,
        53 => Key::Escape,
        117 => Key::Delete,
        54 => Key::MetaRight,
        55 => Key::MetaLeft,
        56 => Key::ShiftLeft,
        57 => Key::CapsLock,
        58 => Key::Alt,
        59 => Key::ControlLeft,
        60 => Key::ShiftRight,
        61 => Key::AltGr,
        62 => Key::ControlRight,
        63 => Key::Function,
        115 => Key::Home,
        116 => Key::PageUp,
        119 => Key::End,
        121 => Key::PageDown,
        123 => Key::LeftArrow,
        124 => Key::RightArrow,
        125 => Key::DownArrow,
        126 => Key::UpArrow,
        96 => Key::F5,
        97 => Key::F6,
        98 => Key::F7,
        99 => Key::F3,
        100 => Key::F8,
        101 => Key::F9,
        103 => Key::F11,
        109 => Key::F10,
        111 => Key::F12,
        118 => Key::F4,
        120 => Key::F2,
        122 => Key::F1,
        65 => Key::KpDelete,
        67 => Key::KpMultiply,
        69 => Key::KpPlus,
        71 => Key::NumLock,
        75 => Key::KpDivide,
        76 => Key::KpReturn,
        78 => Key::KpMinus,
        82 => Key::Kp0,
        83 => Key::Kp1,
        84 => Key::Kp2,
        85 => Key::Kp3,
        86 => Key::Kp4,
        87 => Key::Kp5,
        88 => Key::Kp6,
        89 => Key::Kp7,
        91 => Key::Kp8,
        92 => Key::Kp9,
        _ => Key::Unknown(code as u32),
    }
}

/// The key a macOS key event with virtual key code `code` is: while the Caps Lock remap is
/// active, F18 is Caps Lock; otherwise the layout's key.
pub fn key_from_code(code: u16, remap_active: bool) -> (k: Key)
    ensures
        k == (if remap_active && code == VKEY_F18 { Key::CapsLock } else { mac_key(code) }),
{
    if remap_active && code == VKEY_F18 {
        return Key::CapsLock;
    }
    match code {
        0 => Key::KeyA,
        1 => Key::KeyS,
        2 => Key::KeyD,
        3 => Key::KeyF,
        4 => Key::KeyH,
        5 => Key::KeyG,
        6 => Key::KeyZ,
        7 => Key::KeyX,
        8 => Key::KeyC,
        9 => Key::KeyV,
        11 => Key::KeyB,
        12 => Key::KeyQ,
        13 => Key::KeyW,
        14 => Key::KeyE,
        15 => Key::KeyR,
        16 => Key::KeyY,
        17 => Key::KeyT,
        31 => Key::KeyO,
        32 => Key::KeyU,
        34 => Key::KeyI,
        35 => Key::KeyP,
        37 => Key::KeyL,
        38 => Key::KeyJ,
        40 => Key::KeyK,
        45 => Key::KeyN,
        46 => Key::KeyM,
        18 => Key::Num1,
        19 => Key::Num2,
        20 => Key::Num3,
        21 => Key::Num4,
        22 => Key::Num6,
        23 => Key::Num5,
        25 => Key::Num9,
        26 => Key::Num7,
        28 => Key::Num8,
        29 => Key::Num0,
        24 => Key::Equal,
        27 => Key::Minus,
        30 => Key::RightBracket,
        33 => Key::LeftBracket,
        39 => Key::Quote,
        41 => Key::SemiColon,
        42 => Key::BackSlash,
        43 => Key::Comma,
        44 => Key::Slash,
        47 => Key::Dot,
        50 => Key::BackQuote,
        36 => Key::Return,
        48 => Key::Tab,
        49 => Key::Space,
        51 => Key::Backspace,
        53 => Key::Escape,
        117 => Key::Delete,
        54 => Key::MetaRight,
        55 => Key::MetaLeft,
        56 => Key::ShiftLeft,
        57 => Key::CapsLock,
        58 => Key::Alt,
        59 => Key::ControlLeft,
        60 => Key::ShiftRight,
        61 => Key::AltGr,
        62 => Key::ControlRight,
        63 => Key::Function,
        115 => Key::Home,
        116 => Key::PageUp,
        119 => Key::End,
        121 => Key::PageDown,
        123 => Key::LeftArrow,
        124 => Key::RightArrow,
        125 => Key::DownArrow,
        126 => Key::UpArrow,
        96 => Key::F5,
        97 => Key::F6,
        98 => Key::F7,
        99 => Key::F3,
        100 => Key::F8,
        101 => Key::F9,
        103 => Key::F11,
        109 => Key::F10,
        111 => Key::F12,
        118 => Key::F4,
        120 => Key::F2,
        122 => Key::F1,
        65 => Key::KpDelete,
        67 => Key::KpMultiply,
        69 => Key::KpPlus,
        71 => Key::NumLock,
        75 => Key::KpDivide,
        76 => Key::KpReturn,
        78 => Key::KpMinus,
        82 => Key::Kp0,
        83 => Key::Kp1,
        84 => Key::Kp2,
        85 => Key::Kp3,
        86 => Key::Kp4,
        87 => Key::Kp5,
        88 => Key::Kp6,
        89 => Key::Kp7,
        91 => Key::Kp8,
        92 => Key::Kp9,
        _ => Key::Unknown(code as u32),
    }
}

/// The macOS event flag that shows the Command keys held.
pub const MAC_FLAG_COMMAND: u64 = 0x00100000;
/// The macOS event flag that shows the Shift keys held.
pub const MAC_FLAG_SHIFT: u64 = 0x00020000;
/// The macOS event flag that shows the Option keys held.
pub const MAC_FLAG_ALTERNATE: u64 = 0x00080000;
/// The macOS event flag that shows the Control keys held.
pub const MAC_FLAG_CONTROL: u64 = 0x00040000;
/// The macOS event flag that shows the Fn key held.
pub const MAC_FLAG_SECONDARY_FN: u64 = 0x00800000;

/// The event flag of the modifier key with virtual key code `code` (0 for other keys).
pub open spec fn modifier_flag(code: u16) -> u64 {
    if code == 54 || code == 55 {
        MAC_FLAG_COMMAND
    } else if code == 56 || code == 60 {
        MAC_FLAG_SHIFT
    } else if code == 58 || code == 61 {
        MAC_FLAG_ALTERNATE
    } else if code == 59 || code == 62 {
        MAC_FLAG_CONTROL
    } else if code == 63 {
        MAC_FLAG_SECONDARY_FN
    } else {
        0
    }
}

/// Whether a flags-changed event for the modifier `code` is a press: its flag is set in `flags`.
pub fn modifier_flag_active(code: u16, flags: u64) -> (down: bool)
    ensures
        down == (flags & modifier_flag(code) != 0),
{
    let modifier_flag: u64 = if code == 54 || code == 55 {
        MAC_FLAG_COMMAND
    } else if code == 56 || code == 60 {
        MAC_FLAG_SHIFT
    } else if code == 58 || code == 61 {
        MAC_FLAG_ALTERNATE
    } else if code == 59 || code == 62 {
        MAC_FLAG_CONTROL
    } else if code == 63 {
        MAC_FLAG_SECONDARY_FN
    } else {
        0
    };
    flags & modifier_flag != 0
}

/// The macOS virtual key code of Caps Lock.
pub const MAC_CAPS_LOCK_CODE: u16 = 57;

/// Whether a macOS flags-changed event for key `code` is a press. Caps Lock reports only its
/// lock state, so its presses and releases alternate, tracked in `caps_lock_down`; other
/// modifiers are pressed while their flag is set (`flag_active`).
pub fn flags_changed_is_press(code: u16, caps_lock_down: &mut bool, flag_active: bool) -> (press: bool)
    ensures
        code == MAC_CAPS_LOCK_CODE ==> press == !*old(caps_lock_down) && *final(caps_lock_down) == !*old(caps_lock_down),
        code != MAC_CAPS_LOCK_CODE ==> press == flag_active && *final(caps_lock_down) == *old(caps_lock_down),
{
    if code == MAC_CAPS_LOCK_CODE {
        let was_down = *caps_lock_down;
        *caps_lock_down = !was_down;
        !was_down
    } else {
        flag_active
    }
}

/// The macOS "other" mouse-button number of the middle or an extra button.
pub fn other_button_index(button: Button) -> (n: u32)
    requires
        button == Button::Middle || button is Unknown,
    ensures
        n == (match button {
            Button::Unknown(b) => b as u32,
            _ => 2u32,
        }),
{
    match button {
        Button::Unknown(b) => b as u32,
        _ => 2,
    }
}

/// The X11 button number of `button` (XTest numbers every button).
pub fn linux_button_code(button: Button) -> (code: Option<u32>)
    ensures
        code == Some(match button {
            Button::Left => 1u32,
            Button::Middle => 2u32,
            Button::Right => 3u32,
            Button::Unknown(b) => b as u32,
        }),
{
    match button {
        Button::Left => Some(1),
        Button::Middle => Some(2),
        Button::Right => Some(3),
        Button::Unknown(b) => Some(b as u32),
    }
}

/// The X11 pointer-state mask bit of a button whose held state can be read (left or right).
pub fn linux_button_mask(button: Button) -> (mask: Option<u32>)
    ensures
        mask == (match button {
            Button::Left => Some(256u32),
            Button::Right => Some(1024u32),
            _ => None,
        }),
{
    assert(1u32 << 8u32 == 256u32 && 1u32 << 10u32 == 1024u32) by (bit_vector);
    match button {
        Button::Left => Some(1u32 << 8u32),
        Button::Right => Some(1u32 << 10u32),
        _ => None,
    }
}

/// The Core Graphics button number of a button whose held state can be read (left or right).
pub fn mac_button_index(button: Button) -> (index: Option<u32>)
    ensures
        index == (match button {
            Button::Left => Some(0u32),
            Button::Right => Some(1u32),
            _ => None,
        }),
{
    match button {
        Button::Left => Some(0),
        Button::Right => Some(1),
        _ => None,
    }
}

/// The X11 button a scroll of `delta` whole clicks along one axis presses, and how many
/// times: `positive` for a positive (or zero) delta, `negative` otherwise.
pub fn scroll_axis_clicks(delta: i64, negative: u32, positive: u32) -> (r: (u32, u64))
    ensures
        r.0 == (if delta >= 0 { positive } else { negative }),
        r.1 as int == (if delta >= 0 { delta as int } else { -(delta as int) }),
{
    let button = if delta >= 0 { positive } else { negative };
    let count: u64 = if delta >= 0 { delta as u64 } else { (-(delta + 1)) as u64 + 1 };
    (button, count)
}

/// The macOS mouse event that carries an action.
#[derive(Clone, Copy, Debug, PartialEq, Eq, Structural)]
pub enum MacMouseEvent {
    Moved,
    LeftDragged,
    RightDragged,
    LeftDown,
    LeftUp,
    RightDown,
    RightUp,
    OtherDown(u32),
    OtherUp(u32),
}

/// The macOS mouse event for an action: a move is a drag while the left (else the right)
/// button is held, so that drag sessions follow it; the middle and extra buttons are "other"
/// buttons.
pub fn mac_mouse_event<P>(action: &Action<P>, left_down: bool, right_down: bool) -> (e: MacMouseEvent)
    ensures
        e == (match *action {
            Action::MouseMove(_) => if left_down {
                MacMouseEvent::LeftDragged
            } else if right_down {
                MacMouseEvent::RightDragged
            } else {
                MacMouseEvent::Moved
            },
            Action::ButtonPress(Button::Left) => MacMouseEvent::LeftDown,
            Action::ButtonRelease(Button::Left) => MacMouseEvent::LeftUp,
            Action::ButtonPress(Button::Right) => MacMouseEvent::RightDown,
            Action::ButtonRelease(Button::Right) => MacMouseEvent::RightUp,
            Action::ButtonPress(Button::Middle) => MacMouseEvent::OtherDown(2),
            Action::ButtonRelease(Button::Middle) => MacMouseEvent::OtherUp(2),
            Action::ButtonPress(Button::Unknown(b)) => MacMouseEvent::OtherDown(b as u32),
            Action::ButtonRelease(Button::Unknown(b)) => MacMouseEvent::OtherUp(b as u32),
        }),
{
    match action {
        Action::MouseMove(_) => {
            if left_down {
                MacMouseEvent::LeftDragged
            } else if right_down {
                MacMouseEvent::RightDragged
            } else {
                MacMouseEvent::Moved
            }
        },
        Action::ButtonPress(Button::Left) => MacMouseEvent::LeftDown,
        Action::ButtonRelease(Button::Left) => MacMouseEvent::LeftUp,
        Action::ButtonPress(Button::Right) => MacMouseEvent::RightDown,
        Action::ButtonRelease(Button::Right) => MacMouseEvent::RightUp,
        Action::ButtonPress(b) => MacMouseEvent::OtherDown(other_button_index(*b)),
        Action::ButtonRelease(b) => MacMouseEvent::OtherUp(other_button_index(*b)),
    }
}

/// Multi-click counting for macOS button presses: a press of the same button (left, or not)
/// as the last one, soon enough after it, counts one more click.
pub struct ClickCounter {
    pub click_count: i64,
    pub last_press_left: Option<bool>,
}

impl ClickCounter {
    /// No press seen yet.
    pub fn new() -> (c: Self)
        ensures
            c.click_count == 0,
            c.last_press_left is None,
    {
        ClickCounter { click_count: 0, last_press_left: None }
    }

    /// Records a press of the left button (`is_left`) or another; `within_window` tells
    /// whether it came within the multi-click interval of the last press. Returns the click
    /// count the press carries.
    pub fn register_press(&mut self, is_left: bool, within_window: bool) -> (count: i64)
        requires
            old(self).click_count < i64::MAX,
        ensures
            count == (if old(self).last_press_left == Some(is_left) && within_window { old(self).click_count + 1 } else { 1 }),
            final(self).click_count == count,
            final(self).last_press_left == Some(is_left),
    {
        let same_button = match self.last_press_left {
            Some(left) => left == is_left,
            None => false,
        };
        self.click_count = if same_button && within_window { self.click_count + 1 } else { 1 };
        self.last_press_left = Some(is_left);
        self.click_count
    }
}

} // verus!
