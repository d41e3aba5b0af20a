//! The macOS Caps Lock remap, which makes the HID layer deliver Caps Lock as F18 (a plain key
//! press, unlike the lock toggle Caps Lock itself produces), as a state machine.
//!
//! Setting the remap takes work outside the library: reading the user's key mapping, writing a
//! new one. `set_enabled` says what to do; the caller does it and reports back through
//! `finish_enable` or `finish_restore`, which update the remapper and give the outcome.
use vstd::prelude::*;

verus! {

/// HID usage page 7 (keyboard), as the high bits of a usage.
pub const HID_USAGE_PREFIX: i64 = 0x700000000;
/// The HID usage of Caps Lock.
pub const HID_USAGE_CAPS_LOCK: i64 = HID_USAGE_PREFIX | 0x39;
/// The HID usage of F18.
pub const HID_USAGE_F18: i64 = HID_USAGE_PREFIX | 0x6D;
/// The macOS virtual key code of F18.
pub const VKEY_F18: u16 = 0x4F;

/// Why setting the remap failed.
#[derive(Clone, Copy, Debug, PartialEq, Eq, Structural)]
pub enum RemapError {
    /// There is no HID event-system client to set the mapping with.
    NoClient,
    /// Writing the remapping was refused.
    EnableFailed,
    /// Writing back the user's mapping was refused.
    RestoreFailed,
}

impl RemapError {
    /// The text logged for the error.
    pub fn message(&self) -> (m: &'static str)
        ensures
            m@ == (match *self {
                RemapError::NoClient => "failed to create macOS HID remap client"@,
                RemapError::EnableFailed => "failed to enable macOS Caps Lock remap"@,
                RemapError::RestoreFailed => "failed to restore macOS Caps Lock remap"@,
            }),
    {
        match *self {
            RemapError::NoClient => "failed to create macOS HID remap client",
            RemapError::EnableFailed => "failed to enable macOS Caps Lock remap",
            RemapError::RestoreFailed => "failed to restore macOS Caps Lock remap",
        }
    }
}

/// The remapper: whether it has an event-system client, the user's own key mapping `M` as read
/// before the first remap, whether the remap is on, whether Caps Lock currently arrives as F18,
/// and whether an error was logged already.
pub struct CapsLockRemapper<M> {
    pub has_client: bool,
    pub user_mapping: Option<M>,
    pub enabled: bool,
    pub active: bool,
    pub error_logged: bool,
}

/// What `set_enabled` asks of the caller.
#[derive(Clone, Copy, Debug, PartialEq, Eq, Structural)]
pub enum RemapStep {
    /// The remap is already as asked: nothing to do.
    Unchanged,
    /// The request failed at once.
    Failed(RemapError),
    /// Read the user's mapping (only when `copy_user_mapping`), write it with Caps Lock sent to F18,
    /// then call `finish_enable`.
    Enable { copy_user_mapping: bool },
    /// Write back the user's mapping (an empty one if none was read), then call
    /// `finish_restore`.
    Restore,
}

impl<M> CapsLockRemapper<M> {
    /// A remapper with the remap off; `has_client` tells whether the event-system client could
    /// be created.
    pub fn new(has_client: bool) -> (r: Self)
        ensures
            r.has_client == has_client,
            r.user_mapping is None,
            !r.enabled,
            !r.active,
            !r.error_logged,
    {
        CapsLockRemapper { has_client, user_mapping: None, enabled: false, active: false, error_logged: false }
    }

    /// Records that an error is being reported; true only the first time, so each process logs
    /// one remap error at most.
    pub fn note_error(&mut self) -> (first: bool)
        ensures
            first == !old(self).error_logged,
            final(self).error_logged,
            final(self).has_client == old(self).has_client,
            final(self).user_mapping == old(self).user_mapping,
            final(self).enabled == old(self).enabled,
            final(self).active == old(self).active,
    {
        let first = !self.error_logged;
        self.error_logged = true;
        first
    }
}

/// The step `set_enabled(enabled)` asks for in state `r`.
pub open spec fn remap_step<M>(r: CapsLockRemapper<M>, enabled: bool) -> RemapStep {
    if r.enabled == enabled {
        RemapStep::Unchanged
    } else if !r.has_client {
        RemapStep::Failed(RemapError::NoClient)
    } else if enabled {
        RemapStep::Enable { copy_user_mapping: r.user_mapping is None }
    } else {
        RemapStep::Restore
    }
}

/// The remapper after `set_enabled(enabled)`: unchanged, except that Caps Lock is recorded as
/// not remapped when there is no client.
pub open spec fn stepped<M>(r: CapsLockRemapper<M>, enabled: bool) -> CapsLockRemapper<M> {
    if remap_step(r, enabled) == RemapStep::Failed(RemapError::NoClient) {
        CapsLockRemapper { active: false, ..r }
    } else {
        r
    }
}

/// The remapper after an `Enable` step completed with the mapping `copied` (kept only when none
/// was kept before) and the write outcome `written`.
pub open spec fn enable_finished<M>(r: CapsLockRemapper<M>, copied: Option<M>, written: bool) -> CapsLockRemapper<M> {
    CapsLockRemapper {
        user_mapping: if r.user_mapping is None { copied } else { r.user_mapping },
        enabled: written || r.enabled,
        active: written,
        ..r
    }
}

/// The remapper after a `Restore` step completed with the write outcome `written`.
pub open spec fn restore_finished<M>(r: CapsLockRemapper<M>, written: bool) -> CapsLockRemapper<M> {
    CapsLockRemapper { enabled: !written && r.enabled, active: !written && r.active, ..r }
}

/// Turns the remap on or off: decides the step, and records at once that Caps Lock is not
/// remapped when there is no client.
pub fn set_enabled<M>(remapper: &mut CapsLockRemapper<M>, enabled: bool) -> (step: RemapStep)
    ensures
        step == remap_step(*old(remapper), enabled),
        *final(remapper) == stepped(*old(remapper), enabled),
{
    if remapper.enabled == enabled {
        return RemapStep::Unchanged;
    }
    if !remapper.has_client {
        remapper.active = false;
        return RemapStep::Failed(RemapError::NoClient);
    }
    if enabled {
        RemapStep::Enable { copy_user_mapping: remapper.user_mapping.is_none() }
    } else {
        RemapStep::Restore
    }
}

/// Turns the remap off, as on exit.
pub fn shutdown<M>(remapper: &mut CapsLockRemapper<M>) -> (step: RemapStep)
    ensures
        step == remap_step(*old(remapper), false),
        *final(remapper) == stepped(*old(remapper), false),
{
    set_enabled(remapper, false)
}

/// Completes an `Enable` step: `copied` is the user's mapping as read (or `None` when it was
/// not read or there is none), `written` whether writing the remap succeeded. The first mapping
/// read is kept for later restores.
pub fn finish_enable<M>(remapper: &mut CapsLockRemapper<M>, copied: Option<M>, written: bool) -> (r: Result<(), RemapError>)
    ensures
        r == (if written { Ok(()) } else { Err(RemapError::EnableFailed) }),
        *final(remapper) == enable_finished(*old(remapper), copied, written),
{
    if remapper.user_mapping.is_none() {
        remapper.user_mapping = copied;
    }
    if !written {
        remapper.active = false;
        return Err(RemapError::EnableFailed);
    }
    remapper.enabled = true;
    remapper.active = true;
    Ok(())
}

/// Completes a `Restore` step: `written` tells whether writing back the user's mapping
/// succeeded; when it did not, the remap stays on.
pub fn finish_restore<M>(remapper: &mut CapsLockRemapper<M>, written: bool) -> (r: Result<(), RemapError>)
    ensures
        r == (if written { Ok(()) } else { Err(RemapError::RestoreFailed) }),
        *final(remapper) == restore_finished(*old(remapper), written),
{
    if !written {
        return Err(RemapError::RestoreFailed);
    }
    remapper.enabled = false;
    remapper.active = false;
    Ok(())
}

/// The indices, in order, of the first `n` entries of a key mapping (each given by the HID
/// usage it maps from, when it has one) that a new remap keeps: all but those mapping Caps Lock.
pub open spec fn kept_upto(sources: Seq<Option<i64>>, n: nat) -> Seq<usize>
    decreases n,
{
    if n == 0 {
        Seq::empty()
    } else if sources[n - 1] == Some(HID_USAGE_CAPS_LOCK) {
        kept_upto(sources, (n - 1) as nat)
    } else {
        kept_upto(sources, (n - 1) as nat).push((n - 1) as usize)
    }
}

/// Which entries of the user's key mapping the remap keeps, by index and in order: every entry
/// but those that remap Caps Lock, whose place the Caps Lock to F18 entry takes.
pub fn kept_mappings(sources: &Vec<Option<i64>>) -> (kept: Vec<usize>)
    ensures
        kept@ == kept_upto(sources@, sources@.len()),
{
    let mut kept: Vec<usize> = Vec::new();
    let mut i: usize = 0;
    while i < sources.len()
        invariant
            i <= sources@.len(),
            kept@ == kept_upto(sources@, i as nat),
        decreases sources@.len() - i,
    {
        if sources[i] != Some(HID_USAGE_CAPS_LOCK) {
            kept.push(i);
        }
        i = i + 1;
    }
    kept
}

/// The entry added by the remap, as (source usage, destination usage): Caps Lock to F18.
pub fn caps_lock_remap_entry() -> (e: (i64, i64))
    ensures
        e == (HID_USAGE_CAPS_LOCK, HID_USAGE_F18),
{
    (HID_USAGE_CAPS_LOCK, HID_USAGE_F18)
}

} // verus!
