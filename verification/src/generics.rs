//! Building blocks for formats: the slot register, length strategies,
//! conditional fields and collections.

use vstd::prelude::*;

pub mod blob;
pub mod collections;
pub mod condition;
pub mod length;
pub mod record;
pub mod slots;
pub mod utility;

verus! {

/// A context that holds a `T`.
pub trait Has<T>: Sized {
    /// The `T` that this context holds.
    open spec fn part(&self) -> T {
        arbitrary()
    }

    /// This context with `value` in place of the `T` that it holds.
    open spec fn with_part(self, value: T) -> Self {
        arbitrary()
    }

    /// The `T` that this context holds.
    fn give(&self) -> (held: &T)
        ensures
            *held == self.part(),
    ;

    /// The `T` that this context holds, to be changed in place. What is written
    /// there is what the context holds afterwards, and nothing else of the
    /// context changes.
    fn give_mut(&mut self) -> (held: &mut T)
        ensures
            *held == old(self).part(),
            *final(self) == old(self).with_part(*final(held)),
            final(self).part() == *final(held),
    ;
}

/// A context that holds a value on behalf of the marker type `T`.
pub trait HasValue<T>: Sized {
    /// The type of the value held.
    type Value;

    /// The value that this context holds.
    open spec fn value_part(&self) -> Self::Value {
        arbitrary()
    }

    /// This context with `value` in place of the value that it holds.
    open spec fn with_value_part(self, value: Self::Value) -> Self {
        arbitrary()
    }

    /// The value that this context holds.
    fn give_value(&self) -> (held: &Self::Value)
        ensures
            *held == self.value_part(),
    ;

    /// The value that this context holds, to be changed in place. What is
    /// written there is what the context holds afterwards, and nothing else of
    /// the context changes.
    fn give_value_mut(&mut self) -> (held: &mut Self::Value)
        ensures
            *held == old(self).value_part(),
            *final(self) == old(self).with_value_part(*final(held)),
            final(self).value_part() == *final(held),
    ;
}

impl<T, S: HasValue<T, Value = T>> Has<T> for S {
    open spec fn part(&self) -> T {
        self.value_part()
    }

    open spec fn with_part(self, value: T) -> Self {
        self.with_value_part(value)
    }

    fn give(&self) -> (held: &T) {
        self.give_value()
    }

    fn give_mut(&mut self) -> (held: &mut T) {
        self.give_value_mut()
    }
}

/// A context that may hold a value on behalf of the marker type `T`.
pub trait MaybeHasValue<T>: Sized {
    /// The type of the value held.
    type Value;

    /// The value that this context holds, if it holds one.
    open spec fn maybe_value_part(&self) -> Option<Self::Value> {
        arbitrary()
    }

    /// This context with `value` in place of the value that it holds. It means
    /// something only where the context holds a value.
    open spec fn with_maybe_value_part(self, value: Self::Value) -> Self {
        arbitrary()
    }

    /// The value that this context holds, if it holds one.
    fn maybe_give_value(&self) -> (held: Option<&Self::Value>)
        ensures
            held is Some <==> self.maybe_value_part() is Some,
            held matches Some(value) ==> *value == self.maybe_value_part()->0,
    ;

    /// The value that this context holds, if it holds one, to be changed in
    /// place. Nothing else of the context changes.
    fn maybe_give_value_mut(&mut self) -> (held: Option<&mut Self::Value>)
        ensures
            held is Some <==> old(self).maybe_value_part() is Some,
            held is None ==> *final(self) == *old(self),
            held matches Some(value) ==> *value == old(self).maybe_value_part()->0
                && *final(self) == old(self).with_maybe_value_part(*final(value))
                && final(self).maybe_value_part() == Some(*final(value)),
    ;

    /// Puts `other` in place of the value that this context holds and returns
    /// the value that was there. A context that holds no value is left as it is.
    fn maybe_replace_value(&mut self, other: Self::Value) -> (previous: Option<Self::Value>)
        ensures
            previous == old(self).maybe_value_part(),
            previous is Some ==> *final(self) == old(self).with_maybe_value_part(other)
                && final(self).maybe_value_part() == Some(other),
            previous is None ==> *final(self) == *old(self),
    ;
}

impl<T, S: HasValue<T>> MaybeHasValue<T> for S {
    type Value = <S as HasValue<T>>::Value;

    open spec fn maybe_value_part(&self) -> Option<Self::Value> {
        Some(self.value_part())
    }

    open spec fn with_maybe_value_part(self, value: Self::Value) -> Self {
        self.with_value_part(value)
    }

    fn maybe_give_value(&self) -> (held: Option<&Self::Value>) {
        Some(self.give_value())
    }

    fn maybe_give_value_mut(&mut self) -> (held: Option<&mut Self::Value>) {
        Some(self.give_value_mut())
    }

    fn maybe_replace_value(&mut self, other: Self::Value) -> (previous: Option<Self::Value>) {
        let mut other = other;
        let dest = self.give_value_mut();
        std::mem::swap(dest, &mut other);
        Some(other)
    }
}

/// A context that may hold a `T`.
pub trait MaybeHas<T>: Sized {
    /// The `T` that this context holds, if it holds one.
    open spec fn maybe_part(&self) -> Option<T> {
        arbitrary()
    }

    /// This context with `value` in place of the `T` that it holds. It means
    /// something only where the context holds a `T`.
    open spec fn with_maybe_part(self, value: T) -> Self {
        arbitrary()
    }

    /// The `T` that this context holds, if it holds one.
    fn maybe_give(&self) -> (held: Option<&T>)
        ensures
            held is Some <==> self.maybe_part() is Some,
            held matches Some(value) ==> *value == self.maybe_part()->0,
    ;

    /// The `T` that this context holds, if it holds one, to be changed in
    /// place. Nothing else of the context changes.
    fn maybe_give_mut(&mut self) -> (held: Option<&mut T>)
        ensures
            held is Some <==> old(self).maybe_part() is Some,
            held is None ==> *final(self) == *old(self),
            held matches Some(value) ==> *value == old(self).maybe_part()->0 && *final(self)
                == old(self).with_maybe_part(*final(value)) && final(self).maybe_part() == Some(
                *final(value),
            ),
    ;

    /// Puts `other` in place of the `T` that this context holds and returns the
    /// one that was there. A context that holds no `T` is left as it is.
    fn maybe_replace(&mut self, other: T) -> (previous: Option<T>)
        ensures
            previous == old(self).maybe_part(),
            previous is Some ==> *final(self) == old(self).with_maybe_part(other)
                && final(self).maybe_part() == Some(other),
            previous is None ==> *final(self) == *old(self),
    ;
}

impl<T, S: MaybeHasValue<T, Value = T>> MaybeHas<T> for S {
    open spec fn maybe_part(&self) -> Option<T> {
        self.maybe_value_part()
    }

    open spec fn with_maybe_part(self, value: T) -> Self {
        self.with_maybe_value_part(value)
    }

    fn maybe_give(&self) -> (held: Option<&T>) {
        self.maybe_give_value()
    }

    fn maybe_give_mut(&mut self) -> (held: Option<&mut T>) {
        self.maybe_give_value_mut()
    }

    fn maybe_replace(&mut self, other: T) -> (previous: Option<T>) {
        self.maybe_replace_value(other)
    }
}

} // verus!
