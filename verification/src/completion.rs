//! The slot through which the outcome of one call reaches its caller.

use vstd::prelude::*;

verus! {

/// A slot as a mathematical value.
pub struct SlotView<T> {
    /// What waits to be taken.
    pub value: Option<T>,
    /// Whether the slot has been resolved.
    pub resolved: bool,
}

impl<T> SlotView<T> {
    /// A slot that nobody has resolved.
    pub open spec fn initial() -> SlotView<T> {
        SlotView { value: None, resolved: false }
    }

    /// The slot after an attempt to resolve it with `value`: the first
    /// attempt fills the slot, every later one changes nothing.
    pub open spec fn resolved_with(self, value: T) -> SlotView<T> {
        if self.resolved {
            self
        } else {
            SlotView { value: Some(value), resolved: true }
        }
    }

    /// The slot after its value was taken.
    pub open spec fn taken(self) -> SlotView<T> {
        SlotView { value: None, ..self }
    }
}

/// A slot that carries exactly one value from the one that resolves it to
/// the one that waits for it. Whoever resolves first wins; a caller and a
/// timer can therefore race for the same slot.
pub struct Slot<T> {
    value: Option<T>,
    resolved: bool,
}

impl<T> View for Slot<T> {
    type V = SlotView<T>;

    closed spec fn view(&self) -> SlotView<T> {
        SlotView { value: self.value, resolved: self.resolved }
    }
}

impl<T> Slot<T> {
    /// A slot that nobody has resolved.
    pub fn new() -> (slot: Self)
        ensures
            slot@ == SlotView::<T>::initial(),
    {
        Slot { value: None, resolved: false }
    }

    /// Whether the slot has been resolved.
    pub fn is_resolved(&self) -> (resolved: bool)
        ensures
            resolved == self@.resolved,
    {
        self.resolved
    }

    /// Resolves the slot with `value`, unless it has been resolved before.
    /// Says whether this attempt was the first; a later attempt hands its
    /// value back.
    pub fn resolve(&mut self, value: T) -> (late: Option<T>)
        ensures
            final(self)@ == old(self)@.resolved_with(value),
            late == if old(self)@.resolved {
                Some(value)
            } else {
                None
            },
    {
        if self.resolved {
            Some(value)
        } else {
            self.value = Some(value);
            self.resolved = true;
            None
        }
    }

    /// Takes the value out of the slot, if one waits there. The slot stays
    /// resolved.
    pub fn take(&mut self) -> (value: Option<T>)
        ensures
            value == old(self)@.value,
            final(self)@ == old(self)@.taken(),
    {
        self.value.take()
    }
}

/// The first resolution wins: whatever is tried afterwards, the value of the
/// first attempt is what the slot holds, until it is taken, and it is taken
/// at most once.
pub proof fn lemma_first_resolution_wins<T>(first: T, second: T)
    ensures
        SlotView::<T>::initial().resolved_with(first).resolved_with(second)
            == SlotView::<T>::initial().resolved_with(first),
        SlotView::<T>::initial().resolved_with(first).value == Some(first),
        SlotView::<T>::initial().resolved_with(first).taken().resolved_with(second).value
            is None,
        SlotView::<T>::initial().resolved_with(first).taken().taken()
            == SlotView::<T>::initial().resolved_with(first).taken(),
{
}

} // verus!
