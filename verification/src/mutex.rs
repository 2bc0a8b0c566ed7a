//! The interrupt-safe mutual-exclusion primitive.
//!
//! In the kernel this is a spin lock that, on acquisition, also disables
//! interrupt delivery and, on release, restores the interrupt-enabled state
//! it found — so an interrupt handler can never preempt a critical section
//! and spin on the lock its own context holds. Here the protocol is modelled
//! by ownership: locking consumes the mutex and yields a guard that carries
//! the value and the saved interrupt state; only unlocking the guard gives
//! the mutex back, together with whether interrupts must be re-enabled. The
//! boot glue performs the actual interrupt masking around these calls.
//! Acquiring a lock twice on one execution context spins forever by design;
//! with a consumed mutex that call cannot be written.

use vstd::prelude::*;

verus! {

/// Marker carried by the guard: a critical section must stay on the
/// execution context that entered it, so the guard must not be sent to or
/// shared with another context.
pub struct NegativeSendAndSync;

/// A value guarded by the interrupt-safe lock.
pub struct Mutex<T> {
    val: T,
}

/// Exclusive access to the value of a locked [`Mutex`], with the
/// interrupt-enabled state saved at acquisition.
pub struct MutexGuard<T> {
    val: T,
    initial_interrupts: bool,
    _context_bound: NegativeSendAndSync,
}

impl<T> Mutex<T> {
    /// The guarded value.
    pub closed spec fn value(&self) -> T {
        self.val
    }

    /// A new, unlocked mutex holding `val`.
    pub fn new(val: T) -> (m: Mutex<T>)
        ensures
            m.value() == val,
    {
        Mutex { val }
    }

    /// Acquires the lock. The caller passes the interrupt-enabled state it
    /// observed just before disabling interrupts; the guard keeps it until
    /// release.
    pub fn lock(self, interrupts_enabled: bool) -> (g: MutexGuard<T>)
        ensures
            g.value() == self.value(),
            g.initial_interrupts() == interrupts_enabled,
    {
        MutexGuard {
            val: self.val,
            initial_interrupts: interrupts_enabled,
            _context_bound: NegativeSendAndSync,
        }
    }
}

impl<T> MutexGuard<T> {
    /// The guarded value.
    pub closed spec fn value(&self) -> T {
        self.val
    }

    /// The interrupt-enabled state saved when the lock was taken.
    pub closed spec fn initial_interrupts(&self) -> bool {
        self.initial_interrupts
    }

    /// Reads the guarded value.
    pub fn get_ref(&self) -> (r: &T)
        ensures
            *r == self.value(),
    {
        &self.val
    }

    /// Writes the guarded value.
    pub fn get_mut(&mut self) -> (r: &mut T)
        ensures
            *r == old(self).value(),
            final(self).value() == *final(r),
            final(self).initial_interrupts() == old(self).initial_interrupts(),
    {
        &mut self.val
    }

    /// Releases the lock: gives the mutex back and says whether interrupt
    /// delivery must be re-enabled — exactly when it was enabled at
    /// acquisition.
    pub fn unlock(self) -> (r: (Mutex<T>, bool))
        ensures
            r.0.value() == self.value(),
            r.1 == self.initial_interrupts(),
    {
        let MutexGuard { val, initial_interrupts, _context_bound } = self;
        (Mutex { val }, initial_interrupts)
    }
}

} // verus!
