//! A write-once cell for state that is initialized during boot and lives
//! forever after.
//!
//! The kernel's global singletons start uninitialized and are written
//! exactly once during the boot sequence. Reading one before it is written
//! is a programming error — the checked accessors return `None`, the plain
//! ones require initialization — and `write_once` refuses a second write.

use vstd::prelude::*;

verus! {

/// A second write through [`IsItUninit::try_write_once`] was refused.
#[derive(Clone, Copy, Debug, PartialEq, Eq, Structural)]
pub struct WriteOnceError;

/// Storage that may not have been initialized yet.
pub struct IsItUninit<T> {
    value: Option<T>,
}

impl<T> IsItUninit<T> {
    /// The stored value, if initialization has happened.
    pub closed spec fn view(&self) -> Option<T> {
        self.value
    }

    /// An uninitialized cell.
    pub fn new() -> (r: IsItUninit<T>)
        ensures
            r@ is None,
    {
        IsItUninit { value: None }
    }

    /// Whether the cell has been initialized.
    pub fn initialized(&self) -> (r: bool)
        ensures
            r == self@ is Some,
    {
        self.value.is_some()
    }

    /// The value, exclusively. May only be called once initialized.
    pub fn get_mut(&mut self) -> (r: &mut T)
        requires
            old(self)@ is Some,
        ensures
            *r == old(self)@->Some_0,
            final(self)@ == Some(*final(r)),
    {
        match &mut self.value {
            Some(v) => v,
            None => vstd::pervasive::unreached(),
        }
    }

    /// The value, exclusively; `None` before initialization.
    pub fn try_get_mut(&mut self) -> (r: Option<&mut T>)
        ensures
            match old(self)@ {
                None => r is None && *final(self) == *old(self),
                Some(v) => r is Some && *r->Some_0 == v && final(self)@ == Some(
                    *final(r->Some_0),
                ),
            },
    {
        match &mut self.value {
            Some(v) => Some(v),
            None => None,
        }
    }

    /// The value, shared; `None` before initialization.
    pub fn try_get_ref(&self) -> (r: Option<&T>)
        ensures
            match r {
                Some(v) => self@ == Some(*v),
                None => self@ is None,
            },
    {
        match &self.value {
            Some(v) => Some(v),
            None => None,
        }
    }

    /// The value, shared. May only be called once initialized.
    pub fn get_ref(&self) -> (r: &T)
        requires
            self@ is Some,
        ensures
            self@ == Some(*r),
    {
        match &self.value {
            Some(v) => v,
            None => vstd::pervasive::unreached(),
        }
    }

    /// The value, by move; `None` before initialization.
    pub fn try_get(self) -> (r: Option<T>)
        ensures
            r == self@,
    {
        self.value
    }

    /// The value, by move. May only be called once initialized.
    pub fn get(self) -> (r: T)
        requires
            self@ is Some,
        ensures
            self@ == Some(r),
    {
        match self.value {
            Some(v) => v,
            None => vstd::pervasive::unreached(),
        }
    }

    /// Stores `data`, initializing the cell or replacing its value.
    pub fn write(&mut self, data: T)
        ensures
            final(self)@ == Some(data),
    {
        self.value = Some(data);
    }

    /// Stores `data` only into an uninitialized cell; a second write is
    /// refused and changes nothing.
    pub fn try_write_once(&mut self, data: T) -> (r: Result<(), WriteOnceError>)
        ensures
            r is Ok <==> old(self)@ is None,
            r is Ok ==> final(self)@ == Some(data),
            r is Err ==> *final(self) == *old(self),
    {
        if self.value.is_some() {
            return Err(WriteOnceError);
        }
        self.value = Some(data);
        Ok(())
    }

    /// Stores `data` into a cell that must not have been written before.
    pub fn write_once(&mut self, data: T)
        requires
            old(self)@ is None,
        ensures
            final(self)@ == Some(data),
    {
        self.value = Some(data);
    }
}

} // verus!
