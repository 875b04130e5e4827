//! A mutable memory location that clones its contents on retrieval.

use crate::slot::Slot;
use std::rc::Rc;
use vstd::prelude::*;

verus! {

/// The capability to be stored in a [`CloningCell`]: a clone operation that
/// returns an equal, structurally independent copy and never reaches back
/// into the cell that holds the value being cloned.
///
/// A cell reads its contents by cloning them while it is itself borrowed for
/// the duration of the call. If the clone operation could reach the same
/// cell again — say, through a shared-ownership handle with a path back to
/// it — the cell would be read and written at once, which no aliasing model
/// allows. The capability is therefore granted explicitly, never inferred:
/// plain owned character sequences, shared-ownership handles and their
/// non-owning counterparts (cloning a handle touches only the handle, never
/// the pointee), and wrappers that forward cloning to an already certified
/// inner type. Granting it to a new type is a deliberate, audited assertion
/// by the implementer that its clone operation meets this contract.
pub trait NonSelfReferentialClone: Sized {
    /// Returns an equal, structurally independent copy of `self`, without
    /// reading or writing any cell that holds `self`.
    fn safe_clone(&self) -> (copy: Self)
        ensures
            copy == *self,
    ;
}

/// Relies on std's `String::clone`: it returns an equal, freshly allocated
/// string, built from the character data alone.
impl NonSelfReferentialClone for String {
    fn safe_clone(&self) -> (copy: Self)
        ensures
            copy == *self,
    {
        self.clone()
    }
}

/// Relies on std's `Rc::clone`: it returns a new handle to the same
/// allocation, only incrementing a reference count, so the copy carries the
/// same value and the pointee is never dereferenced.
#[verifier::external_body]
fn rc_clone<T>(handle: &Rc<T>) -> (copy: Rc<T>)
    ensures
        copy == *handle,
{
    Rc::clone(handle)
}

impl<T> NonSelfReferentialClone for Rc<T> {
    fn safe_clone(&self) -> (copy: Self)
        ensures
            copy == *self,
    {
        rc_clone(self)
    }
}

/// An owned box of a certified type forwards cloning to its contents, so
/// the capability set is closed under boxing.
impl<T: NonSelfReferentialClone> NonSelfReferentialClone for Box<T> {
    fn safe_clone(&self) -> (copy: Self)
        ensures
            copy == *self,
    {
        Box::new((**self).safe_clone())
    }
}

/// An optional value of a certified type forwards cloning to its contents,
/// so the capability set is closed under the optional wrapper.
impl<T: NonSelfReferentialClone> NonSelfReferentialClone for Option<T> {
    fn safe_clone(&self) -> (copy: Self)
        ensures
            copy == *self,
    {
        match self {
            Some(value) => Some(value.safe_clone()),
            None => None,
        }
    }
}

/// A mutable memory location that clones its contents on retrieval.
///
/// The cell always holds a live value; reading produces an independent copy
/// of it and writing replaces it whole. The value type must carry the
/// [`NonSelfReferentialClone`] capability: see there for the aliasing hazard
/// that the restriction guards against.
pub struct CloningCell<T: NonSelfReferentialClone> {
    slot: Slot<T>,
}

impl<T: NonSelfReferentialClone> View for CloningCell<T> {
    type V = T;

    closed spec fn view(&self) -> T {
        self.slot.value
    }
}

impl<T: NonSelfReferentialClone> CloningCell<T> {
    /// Creates a new `CloningCell` containing the given value.
    pub fn new(value: T) -> (cell: Self)
        ensures
            cell@ == value,
    {
        CloningCell { slot: Slot::new(value) }
    }

    /// Returns a copy of the contained value, leaving the cell's own
    /// contents unchanged and structurally independent of the copy.
    pub fn get(&self) -> (copy: T)
        ensures
            copy == self@,
    {
        self.slot.borrow().safe_clone()
    }

    /// Sets the contained value, dropping the previous one.
    pub fn set(&mut self, value: T)
        ensures
            final(self)@ == value,
    {
        let _ = self.slot.store(value);
    }
}

} // verus!
