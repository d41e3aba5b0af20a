//! What the operating system believes about the movement modifiers (the Shift and Alt keys that
//! steer scrolling and slow movement), and the law that keeps it right: once the synthetic
//! events the state machine queues are emitted, the OS sees such a key held exactly when it is
//! forwarded and not ghosted.
use crate::input::{
    consistent, ghost_event, ghost_events, ghost_wanted, ghostable, press_transition, release_transition, synced_ghosts,
    TrackerView,
};
use crate::keys::{os_modifier, runtime_modifier, Key, KEY_FAST, KEY_SCROLL, KEY_SLOW, KEY_TOGGLE_OVERLAY};
use crate::state::StateView;
use vstd::prelude::*;

verus! {

/// The movement modifiers the OS sees held: forwarded to it and not ghosted.
pub open spec fn os_view(forwarded: Seq<Key>, ghosted: Set<Key>) -> Set<Key> {
    Set::new(|k: Key| ghostable(k) && forwarded.contains(k) && !ghosted.contains(k))
}

/// The OS's view after a sequence of synthetic key events (key, pressed).
pub open spec fn apply_key_events(view: Set<Key>, events: Seq<(Key, bool)>) -> Set<Key>
    decreases events.len(),
{
    if events.len() == 0 {
        view
    } else {
        let v = apply_key_events(view, events.drop_last());
        let e = events.last();
        if e.1 { v.insert(e.0) } else { v.remove(e.0) }
    }
}

/// The OS's view after a real key event that reached it (`passed`) or not.
pub open spec fn os_after_event(view: Set<Key>, key: Key, down: bool, passed: bool) -> Set<Key> {
    if passed && ghostable(key) {
        if down { view.insert(key) } else { view.remove(key) }
    } else {
        view
    }
}

/// Applying two runs of events is applying their concatenation.
proof fn lemma_apply_concat(view: Set<Key>, a: Seq<(Key, bool)>, b: Seq<(Key, bool)>)
    ensures
        apply_key_events(view, a + b) == apply_key_events(apply_key_events(view, a), b),
    decreases b.len(),
{
    if b.len() == 0 {
        assert(a + b =~= a);
    } else {
        assert((a + b).drop_last() =~= a + b.drop_last());
        lemma_apply_concat(view, a, b.drop_last());
    }
}

/// The synthetic event for one key brings the OS's view of that key in line with the ghosted
/// set after the sync, and leaves every other key alone.
proof fn lemma_ghost_event(view: Set<Key>, key: Key, ghosted: Set<Key>, pressed: Set<Key>, forwarded: Seq<Key>)
    requires
        ghostable(key) || !os_modifier(key),
        ghosted.contains(key) ==> forwarded.contains(key),
        view.contains(key) == (ghostable(key) && forwarded.contains(key) && !ghosted.contains(key)),
    ensures
        ({
            let v = apply_key_events(view, ghost_event(key, ghosted, pressed, forwarded));
            &&& forall|k: Key| k != key ==> (v.contains(k) == view.contains(k))
            &&& v.contains(key) == (ghostable(key) && forwarded.contains(key) && !ghost_wanted(key, pressed, forwarded))
        }),
{
    reveal_with_fuel(apply_key_events, 2);
    let e = ghost_event(key, ghosted, pressed, forwarded);
    if e.len() == 1 {
        assert(e.drop_last() =~= Seq::<(Key, bool)>::empty());
    }
}

/// A ghosting sync keeps the OS in line: applied to the OS's view before it, the synthetic
/// events it queues give the view with the new ghosted set.
pub proof fn law_sync_aligns_os_view(ghosted: Set<Key>, pressed: Set<Key>, forwarded: Seq<Key>)
    requires
        forall|k: Key| #[trigger] ghosted.contains(k) ==> ghostable(k) && forwarded.contains(k),
    ensures
        apply_key_events(os_view(forwarded, ghosted), ghost_events(ghosted, pressed, forwarded)) == os_view(
            forwarded,
            synced_ghosts(ghosted, pressed, forwarded),
        ),
{
    let v0 = os_view(forwarded, ghosted);
    let e1 = ghost_event(KEY_SCROLL, ghosted, pressed, forwarded);
    let e2 = ghost_event(KEY_FAST, ghosted, pressed, forwarded);
    let e3 = ghost_event(KEY_SLOW, ghosted, pressed, forwarded);
    lemma_apply_concat(v0, e1 + e2, e3);
    lemma_apply_concat(v0, e1, e2);
    let v1 = apply_key_events(v0, e1);
    let v2 = apply_key_events(v1, e2);
    let v3 = apply_key_events(v2, e3);
    lemma_ghost_event(v0, KEY_SCROLL, ghosted, pressed, forwarded);
    lemma_ghost_event(v1, KEY_FAST, ghosted, pressed, forwarded);
    lemma_ghost_event(v2, KEY_SLOW, ghosted, pressed, forwarded);
    let target = os_view(forwarded, synced_ghosts(ghosted, pressed, forwarded));
    assert forall|k: Key| v3.contains(k) == target.contains(k) by {
        if k != KEY_SCROLL && k != KEY_FAST && k != KEY_SLOW {
            assert(!ghostable(k));
        }
    }
    assert(v3 =~= target);
}

/// A key press keeps the OS in line: the OS's view, updated by the press if it reached the OS
/// and then by the synthetic events the press queued, is the view of the tracker after it.
pub proof fn law_press_keeps_os_view<P, M, T>(s: StateView<P, M, T>, t: TrackerView, key: Key, now: T, window_open: bool)
    requires
        consistent(s, t),
        !t.held.contains(key),
        !press_transition(s, t, key, now, window_open).2.quit,
    ensures
        ({
            let (s2, t2, out) = press_transition(s, t, key, now, window_open);
            apply_key_events(
                os_after_event(os_view(t.forwarded, t.ghosted), key, true, !out.captured),
                t2.pending.subrange(t.pending.len() as int, t2.pending.len() as int),
            ) == os_view(t2.forwarded, t2.ghosted)
        }),
{
    let (s2, t2, out) = press_transition(s, t, key, now, window_open);
    assert(!t.ghosted.contains(key));
    if os_modifier(key) && !(key == KEY_TOGGLE_OVERLAY && t.forwarded.len() == 0) {
        assert(t2.pending.subrange(t.pending.len() as int, t2.pending.len() as int) =~= Seq::<(Key, bool)>::empty());
        assert(t2.ghosted == t.ghosted);
        if !out.captured {
            assert(t2.forwarded == t.forwarded.push(key));
            assert forall|k: Key| #[trigger] t2.forwarded.contains(k) == (t.forwarded.contains(k) || k == key) by {
                if k == key {
                    assert(t2.forwarded[t.forwarded.len() as int] == key);
                } else if t2.forwarded.contains(k) {
                    let i = choose|i: int| 0 <= i < t2.forwarded.len() && t2.forwarded[i] == k;
                    assert(t.forwarded[i] == k);
                } else if t.forwarded.contains(k) {
                    let i = choose|i: int| 0 <= i < t.forwarded.len() && t.forwarded[i] == k;
                    assert(t2.forwarded[i] == k);
                }
            }
        } else {
            assert(t2.forwarded == t.forwarded);
        }
        assert(os_after_event(os_view(t.forwarded, t.ghosted), key, true, !out.captured) =~= os_view(t2.forwarded, t2.ghosted));
    } else {
        assert(!ghostable(key));
        let events = t2.pending.subrange(t.pending.len() as int, t2.pending.len() as int);
        assert(t2.forwarded == t.forwarded);
        law_sync_aligns_os_view(t.ghosted, s2.pressed, t.forwarded);
        assert(events =~= ghost_events(t.ghosted, s2.pressed, t.forwarded));
    }
}

/// A key release keeps the OS in line in the same way.
pub proof fn law_release_keeps_os_view<P, M, T>(s: StateView<P, M, T>, t: TrackerView, key: Key)
    requires
        consistent(s, t),
    ensures
        ({
            let (s2, t2, out) = release_transition(s, t, key);
            apply_key_events(
                os_after_event(os_view(t.forwarded, t.ghosted), key, false, !out.captured),
                t2.pending.subrange(t.pending.len() as int, t2.pending.len() as int),
            ) == os_view(t2.forwarded, t2.ghosted)
        }),
{
    let (s2, t2, out) = release_transition(s, t, key);
    let f1 = t.forwarded.filter(crate::input::other_than(key));
    let g1 = t.ghosted.remove(key);
    crate::laws::lemma_filter_other(t.forwarded, key);
    assert(os_after_event(os_view(t.forwarded, t.ghosted), key, false, !out.captured) =~= os_view(f1, g1));
    law_sync_aligns_os_view(g1, s2.pressed, f1);
    let events = t2.pending.subrange(t.pending.len() as int, t2.pending.len() as int);
    assert(events =~= ghost_events(g1, s2.pressed, f1));
}

} // verus!
