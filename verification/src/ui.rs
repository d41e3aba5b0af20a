//! What the overlays show, decided from the shared state, and how the event loop brings the
//! overlay windows up to date when it changes.
use crate::keys::Button;
use crate::state::{Action, Mode, SharedState, StateView};
use vstd::prelude::*;

verus! {

/// Which overlays are shown.
#[derive(Clone, Copy, Debug, PartialEq, Eq, Structural)]
pub struct OverlayVisibility {
    pub mode_line: bool,
    pub grid: bool,
    pub grid_letters: bool,
    pub marks: bool,
}

/// The overlays shown in state `s`: the mode line whenever overlays are on and it is enabled;
/// the grid, its letters and the marks only in Normal mode.
pub open spec fn visibility_of<P, M, T>(s: StateView<P, M, T>) -> OverlayVisibility {
    OverlayVisibility {
        mode_line: s.show_overlays && s.show_mode_line,
        grid: s.show_overlays && s.show_grid && s.mode == Mode::Normal,
        grid_letters: s.show_overlays && s.show_grid_letters && s.mode == Mode::Normal,
        marks: s.show_overlays && s.mode == Mode::Normal,
    }
}

/// The overlays shown in the current state.
pub fn overlay_visibility<P, M, T>(state: &SharedState<P, M, T>) -> (v: OverlayVisibility)
    ensures
        v == visibility_of(state@),
{
    let normal = state.mode == Mode::Normal;
    OverlayVisibility {
        mode_line: state.show_overlays && state.show_mode_line,
        grid: state.show_overlays && state.show_grid && normal,
        grid_letters: state.show_overlays && state.show_grid_letters && normal,
        marks: state.show_overlays && normal,
    }
}

/// How the event loop brings a changed mode line up to date.
#[derive(Clone, Copy, Debug, PartialEq, Eq, Structural)]
pub struct ModeLineUpdate {
    /// Hide the line on the monitor it was on.
    pub hide_previous: bool,
    /// Resize, reposition and show or hide the window on the focused monitor; otherwise only
    /// repaint it (a color change).
    pub full_update: bool,
}

/// The update of a changed mode line, from whether its visibility and the focused monitor
/// changed.
pub fn mode_line_update(last_visible: bool, visible: bool, last_monitor: usize, monitor: usize) -> (u: ModeLineUpdate)
    ensures
        u.hide_previous == (last_monitor != monitor),
        u.full_update == (last_visible != visible || last_monitor != monitor),
{
    let monitor_changed = last_monitor != monitor;
    ModeLineUpdate { hide_previous: monitor_changed, full_update: last_visible != visible || monitor_changed }
}

/// Whether a changed grid (or letters) overlay must first be hidden on the monitor it was on:
/// when the focus moved and it was shown.
pub fn hide_previous_grid(last_visible: bool, last_monitor: usize, monitor: usize) -> (hide: bool)
    ensures
        hide == (last_monitor != monitor && last_visible),
{
    last_monitor != monitor && last_visible
}

/// Whether a monitor's mark overlay is shown: marks are shown and one lies on that monitor,
/// so monitors without marks never flash an empty overlay.
pub fn mark_slot_visible(marks_visible: bool, has_marks: bool) -> (shown: bool)
    ensures
        shown == (marks_visible && has_marks),
{
    marks_visible && has_marks
}

/// At launch: releases the buttons the OS reports held (left, then right), so no drag
/// survives from before, then moves the cursor to its start position.
pub fn queue_startup_actions<P: Copy, M, T>(state: &mut SharedState<P, M, T>, left_down: bool, right_down: bool)
    ensures
        final(state)@ == (StateView {
            pending_actions: old(state)@.pending_actions
                + (if left_down { seq![Action::ButtonRelease(Button::Left)] } else { Seq::empty() })
                + (if right_down { seq![Action::ButtonRelease(Button::Right)] } else { Seq::empty() })
                + seq![Action::MouseMove(old(state)@.cursor)],
            ..old(state)@
        }),
{
    let ghost before = state.pending_actions@;
    if left_down {
        state.pending_actions.push(Action::ButtonRelease(Button::Left));
    }
    let ghost mid = state.pending_actions@;
    if right_down {
        state.pending_actions.push(Action::ButtonRelease(Button::Right));
    }
    let ghost mid2 = state.pending_actions@;
    let cursor = state.cursor;
    state.pending_actions.push(Action::MouseMove(cursor));
    assert(mid =~= before + (if left_down { seq![Action::ButtonRelease(Button::Left)] } else { Seq::empty() }));
    assert(mid2 =~= mid + (if right_down { seq![Action::ButtonRelease(Button::Right)] } else { Seq::empty() }));
    assert(state.pending_actions@ =~= mid2 + seq![Action::MouseMove(cursor)]);
}

} // verus!
