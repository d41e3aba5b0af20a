//! Keeping Caps Lock from locking on Windows and Linux while a binding uses it: the lock is
//! turned off once at launch, so the key acts purely as a trigger.
use crate::keys::{caps_lock_used_in_config, config_uses_caps_lock};
use vstd::prelude::*;

verus! {

/// Whether the Caps Lock lock state has been turned off already.
pub struct CapsLockSuppressor {
    pub suppressed: bool,
}

impl CapsLockSuppressor {
    /// Nothing suppressed yet.
    pub fn new() -> (s: Self)
        ensures
            !s.suppressed,
    {
        CapsLockSuppressor { suppressed: false }
    }
}

/// Whether the lock state should be turned off now: only when a binding uses Caps Lock and it
/// has not been done yet.
pub fn suppress(suppressor: &CapsLockSuppressor) -> (attempt: bool)
    ensures
        attempt == (config_uses_caps_lock() && !suppressor.suppressed),
{
    caps_lock_used_in_config() && !suppressor.suppressed
}

/// Records the outcome of turning the lock state off; a failure leaves it to be tried again.
pub fn record_suppress(suppressor: &mut CapsLockSuppressor, succeeded: bool)
    ensures
        final(suppressor).suppressed == (old(suppressor).suppressed || succeeded),
{
    if succeeded {
        suppressor.suppressed = true;
    }
}

} // verus!
