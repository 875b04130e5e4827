//! The raw slot: an exclusively owned storage location for one value.

use vstd::prelude::*;

verus! {

/// An exclusively owned storage location holding exactly one value.
///
/// Every cell of this crate owns its contents through a slot, and all access
/// to the stored value is mediated by the one cell that owns it. In-place
/// replacement swaps the whole value, so no caller ever observes a
/// half-written slot, and the displaced value is handed back to the caller,
/// which decides when to let it drop.
pub(crate) struct Slot<T> {
    pub(crate) value: T,
}

impl<T> Slot<T> {
    /// Creates a slot holding `value`.
    pub(crate) fn new(value: T) -> (slot: Self)
        ensures
            slot.value == value,
    {
        Slot { value }
    }

    /// Installs `value` and returns the displaced contents.
    pub(crate) fn store(&mut self, value: T) -> (displaced: T)
        ensures
            displaced == old(self).value,
            final(self).value == value,
    {
        let mut value = value;
        core::mem::swap(&mut self.value, &mut value);
        value
    }

    /// Consumes the slot, yielding the stored value.
    pub(crate) fn into_value(self) -> (value: T)
        ensures
            value == self.value,
    {
        self.value
    }

    /// Borrows the stored value.
    pub(crate) fn borrow(&self) -> (value: &T)
        ensures
            *value == self.value,
    {
        &self.value
    }

    /// Mutably borrows the stored value.
    pub(crate) fn borrow_mut(&mut self) -> (value: &mut T)
        ensures
            *value == old(self).value,
            final(self).value == *final(value),
    {
        &mut self.value
    }
}

} // verus!
