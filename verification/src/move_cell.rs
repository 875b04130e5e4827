//! A mutable memory location that steals ownership.

use crate::slot::Slot;
use vstd::prelude::*;

verus! {

/// A mutable memory location that steals ownership.
///
/// The cell always holds a live value: mutation is exposed only through
/// whole-value swaps, which install a replacement in the same step that
/// moves the previous content out, so no caller ever observes an empty
/// cell.
pub struct MoveCell<T> {
    slot: Slot<T>,
}

impl<T> View for MoveCell<T> {
    type V = T;

    closed spec fn view(&self) -> T {
        self.slot.value
    }
}

impl<T> MoveCell<T> {
    /// Creates a new `MoveCell` containing `value`.
    pub fn new(value: T) -> (cell: Self)
        ensures
            cell@ == value,
    {
        MoveCell { slot: Slot::new(value) }
    }

    /// Consumes the `MoveCell`, returning the wrapped value.
    pub fn into_inner(self) -> (value: T)
        ensures
            value == self@,
    {
        self.slot.into_value()
    }

    /// Replaces the value of this cell, returning the old one.
    pub fn replace(&mut self, value: T) -> (displaced: T)
        ensures
            displaced == old(self)@,
            final(self)@ == value,
    {
        self.slot.store(value)
    }

    /// Sets the value of this cell, dropping the old one immediately.
    pub fn set(&mut self, value: T)
        ensures
            final(self)@ == value,
    {
        let _ = self.replace(value);
    }

    /// Returns a mutable reference to the underlying value.
    ///
    /// This call borrows the `MoveCell` mutably, which guarantees that the
    /// caller holds the only reference.
    pub fn as_mut(&mut self) -> (value: &mut T)
        ensures
            *value == old(self)@,
            final(self)@ == *final(value),
    {
        self.slot.borrow_mut()
    }
}

impl<T: Default> MoveCell<T> {
    /// Replaces the value of this cell with the value type's default,
    /// returning the previous content. This empties a cell of a type that
    /// has no explicit empty state.
    pub fn take(&mut self) -> (value: T)
        ensures
            value == old(self)@,
            T::default.ensures((), final(self)@),
    {
        self.replace(T::default())
    }
}

impl<T: Default> Default for MoveCell<T> {
    /// Creates a cell holding the value type's default.
    fn default() -> (cell: Self)
        ensures
            T::default.ensures((), cell@),
    {
        MoveCell::new(T::default())
    }
}

impl<T> vstd::std_specs::convert::FromSpecImpl<T> for MoveCell<T> {
    closed spec fn obeys_from_spec() -> bool {
        true
    }

    closed spec fn from_spec(value: T) -> Self {
        MoveCell { slot: Slot { value } }
    }
}

impl<T> From<T> for MoveCell<T> {
    /// Wraps a bare value into a cell holding it.
    fn from(value: T) -> (cell: Self)
        ensures
            cell@ == value,
    {
        MoveCell::new(value)
    }
}

/// The values that a run of `replace` calls returns, one call per element of
/// `values` in order, on a cell whose content starts as `initial`: each call
/// returns what the cell held just before it, exactly as `replace` ensures.
pub open spec fn replace_returns<T>(initial: T, values: Seq<T>) -> Seq<T>
    decreases values.len(),
{
    if values.len() == 0 {
        Seq::empty()
    } else {
        seq![initial] + replace_returns(values[0], values.drop_first())
    }
}

/// The cell content left behind by the same run of `replace` calls.
pub open spec fn content_after_replaces<T>(initial: T, values: Seq<T>) -> T
    decreases values.len(),
{
    if values.len() == 0 {
        initial
    } else {
        content_after_replaces(values[0], values.drop_first())
    }
}

/// Law (swap correctness): in a run of `replace` calls feeding `values`
/// into a cell that starts with `initial`, the first call returns `initial`,
/// every later call returns the value fed by the call before it, and the
/// content left for `into_inner` is the last value fed (or `initial` when
/// no call was made).
pub proof fn lemma_replace_sequence<T>(initial: T, values: Seq<T>)
    ensures
        replace_returns(initial, values).len() == values.len(),
        forall|k: int|
            0 <= k < values.len() ==> #[trigger] replace_returns(initial, values)[k] == if k == 0 {
                initial
            } else {
                values[k - 1]
            },
        content_after_replaces(initial, values) == if values.len() == 0 {
            initial
        } else {
            values.last()
        },
    decreases values.len(),
{
    if values.len() > 0 {
        lemma_replace_sequence(values[0], values.drop_first());
        assert forall|k: int|
            0 <= k < values.len() implies #[trigger] replace_returns(initial, values)[k] == if k
            == 0 {
            initial
        } else {
            values[k - 1]
        } by {
            if k > 0 {
                assert(replace_returns(initial, values)[k] == replace_returns(
                    values[0],
                    values.drop_first(),
                )[k - 1]);
            }
        };
    }
}

} // verus!
