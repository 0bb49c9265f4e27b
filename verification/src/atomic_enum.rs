use vstd::prelude::*;

use crate::error::WsIoError;

verus! {

/// A state-machine state that can live inside an [`AtomicEnum`] word.
pub trait AtomicEnumValue: Sized + Copy {
    /// Decides equality of two states.
    fn eq_value(self, other: Self) -> (r: bool)
        ensures
            r == (self == other),
    ;
}

/// A single mutable state word holding one value of a state enum.
///
/// Every state machine of this library keeps its current state in one of
/// these; all changes go through `store` or the compare-and-swap
/// `try_transition`, so a reader of the contracts sees exactly which
/// transitions are possible.
pub struct AtomicEnum<T: AtomicEnumValue> {
    value: T,
}

impl<T: AtomicEnumValue> AtomicEnum<T> {
    /// The state currently held.
    pub closed spec fn current(&self) -> T {
        self.value
    }

    /// A fresh state word holding `value`.
    pub fn new(value: T) -> (r: Self)
        ensures
            r.current() == value,
    {
        Self { value }
    }

    /// Fails with a status error unless the current state is `expected`.
    pub fn ensure(&self, expected: T) -> (r: Result<(), WsIoError>)
        ensures
            r is Ok <==> self.current() == expected,
            r matches Err(e) ==> e == WsIoError::Status,
    {
        if self.value.eq_value(expected) {
            Ok(())
        } else {
            Err(WsIoError::Status)
        }
    }

    /// The current state.
    pub fn get(&self) -> (r: T)
        ensures
            r == self.current(),
    {
        self.value
    }

    /// Whether the current state is `value`.
    pub fn is(&self, value: T) -> (r: bool)
        ensures
            r == (self.current() == value),
    {
        self.value.eq_value(value)
    }

    /// Overwrites the current state.
    pub fn store(&mut self, value: T)
        ensures
            final(self).current() == value,
    {
        self.value = value;
    }

    /// Compare-and-swap: moves from `from` to `to` only when the current
    /// state is exactly `from`; otherwise leaves the state alone and fails.
    pub fn try_transition(&mut self, from: T, to: T) -> (r: Result<(), WsIoError>)
        ensures
            old(self).current() == from ==> r is Ok && final(self).current() == to,
            old(self).current() != from ==> r is Err && *final(self) == *old(self),
            r matches Err(e) ==> e == WsIoError::Status,
    {
        if self.value.eq_value(from) {
            self.value = to;
            Ok(())
        } else {
            Err(WsIoError::Status)
        }
    }
}

} // verus!
