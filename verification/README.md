# vimouse

Keyboard-driven mouse control (Vim-like Normal and Insert modes, cursor movement and
scrolling with `h j k l`, clicks, a 5×3 jump grid with subcell jumps, marks, multi-monitor
focus), written as a library whose behaviour is proved with Verus, and a thin program around it.

## Layout

- `src/` — the verified library.
  - `keys`, `key_set`, `state`: keys, bindings, the shared state and its invariant.
  - `input`: the key-ownership state machine (what each key press and release does, and
    whether the OS sees it), the ghosting of movement modifiers, and the motion plan.
  - `laws`: properties that span operations (agreement of state and tracker across every key
    event, the behaviour of each binding, the Caps Lock remapper's flag).
  - `glyph`, `grid_overlay`, `mark_overlay`, `mode_overlay`, `mode_icon`, `overlay_surface`,
    `pixels`, `ui`: the pixel layouts of the overlays and what they show.
  - `caps_lock_remap`, `caps_lock_suppress`, `cursor_visibility`, `platform_input`: the
    decisions behind the platform integrations, as state machines the program drives.
- `app/` — the program: keyboard grab, event emission, windows and compositing, and the
  floating-point geometry (monitor clamping, speeds), calling the library for every decision.
- `tests/` — tests of the library on concrete inputs.
