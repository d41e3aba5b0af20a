//! Keyboard-driven mouse control: the key-ownership state machine, the jump grid, marks, the
//! pixel layouts of the on-screen overlays, and the decisions behind the platform integrations
//! (Caps Lock handling, cursor hiding, synthetic input).

pub mod caps_lock_remap;
pub mod caps_lock_suppress;
pub mod cursor_visibility;
pub mod glyph;
pub mod grid_overlay;
pub mod input;
pub mod key_set;
pub mod keys;
pub mod laws;
pub mod mark_overlay;
pub mod mode_icon;
pub mod mode_overlay;
pub mod os_view;
pub mod overlay_surface;
pub mod pixels;
pub mod platform_input;
pub mod state;
pub mod ui;
