//! Fields that are present only where a condition on the context holds.

use vstd::prelude::*;
use vstd::std_specs::convert::FromSpec;
use vstd::std_specs::convert::FromSpecImpl;
use std::marker::PhantomData;
use crate::analysis::AnalyzeWith;
use crate::analysis::TypeAnalyzer;
use crate::generics::slots::slot_value;
use crate::generics::slots::Slots;
use crate::generics::Has;
use crate::size::TypeSize;
use crate::traversal::MakeType;
use crate::traversal::MakeWith;
use crate::traversal::Maker;
use crate::traversal::VisitType;
use crate::traversal::VisitWith;
use crate::traversal::Visitor;

verus! {

/// Why a conditional field was refused.
#[derive(Debug, Clone, PartialEq, Eq)]
pub enum ConditionalError {
    /// The field holds a value where the condition is false, or none where it
    /// is true.
    ConditionalMismatch { is_some: bool, check: bool },
    /// The slot that the condition reads was never written.
    SlotIsEmpty { slot: usize },
}

/// A condition on a context of type `D`.
pub trait Condition<D> {
    /// Whether the condition has the same truth value for every instance under
    /// a given context.
    const FIXED: bool;

    /// Whether the condition holds of `data`, or why that cannot be told.
    open spec fn check_spec(data: &D) -> Result<bool, ConditionalError> {
        arbitrary()
    }

    /// Whether the condition holds of `data`, or why that cannot be told.
    fn check(data: &D) -> (holds: Result<bool, ConditionalError>)
        ensures
            holds == Self::check_spec(data),
    ;
}

/// The classification of a field that depends on a condition: `Fixed` where the
/// condition is fixed, else `Dynamic`.
pub fn fixed(is: bool) -> (size: TypeSize)
    ensures
        size == (if is {
            TypeSize::Fixed
        } else {
            TypeSize::Dynamic
        }),
{
    if is {
        TypeSize::Fixed
    } else {
        TypeSize::Dynamic
    }
}

/// A field that is present exactly where the condition `C` holds.
#[derive(Debug)]
pub struct Conditional<C, T>(pub Option<T>, pub PhantomData<C>);

impl<C, T: Clone> Clone for Conditional<C, T> {
    fn clone(&self) -> (copy: Self)
        ensures
            copy.0 is Some <==> self.0 is Some,
            self.0 matches Some(value) ==> cloned(value, copy.0->0),
    {
        match &self.0 {
            Some(value) => Conditional(Some(value.clone()), PhantomData),
            None => Conditional(None, PhantomData),
        }
    }
}

impl<C, T> Default for Conditional<C, T> {
    fn default() -> (field: Self)
        ensures
            field == Conditional::<C, T>(None, PhantomData),
    {
        Conditional(None, PhantomData)
    }
}

impl<C, T> From<Option<T>> for Conditional<C, T> {
    fn from(value: Option<T>) -> (field: Self) {
        Conditional(value, PhantomData)
    }
}

impl<C, T> FromSpecImpl<Option<T>> for Conditional<C, T> {
    open spec fn obeys_from_spec() -> bool {
        true
    }

    open spec fn from_spec(value: Option<T>) -> Self {
        Conditional(value, PhantomData)
    }
}

impl<D: TypeAnalyzer, C: Condition<D>, T: AnalyzeWith<D>> AnalyzeWith<D> for Conditional<C, T> {
    open spec fn analyzable() -> bool {
        T::analyzable() && (C::FIXED ==> !(T::size_class() is Dynamic))
    }

    open spec fn size_class() -> TypeSize {
        if C::FIXED {
            TypeSize::Fixed
        } else {
            TypeSize::Dynamic
        }
    }

    open spec fn fixed_size_spec(analyzer: &D) -> nat {
        if C::check_spec(analyzer) == Ok::<bool, ConditionalError>(true) {
            T::fixed_size_spec(analyzer)
        } else {
            0
        }
    }

    open spec fn dynamic_size_spec(&self, analyzer: &D) -> nat {
        match self.0 {
            Some(inner) => inner.dynamic_size_spec(analyzer),
            None => 0,
        }
    }

    open spec fn conforms(&self, analyzer: &D) -> bool {
        &&& self.0 is Some <==> C::check_spec(analyzer) == Ok::<bool, ConditionalError>(true)
        &&& self.0 matches Some(inner) ==> inner.conforms(analyzer)
    }

    fn const_size() -> (size: TypeSize) {
        fixed(C::FIXED)
    }

    fn fixed_size(analyzer: &D) -> (size: usize) {
        match C::check(analyzer) {
            Ok(true) => T::fixed_size(analyzer),
            _ => 0,
        }
    }

    fn dynamic_size(&self, analyzer: &D) -> (size: usize) {
        match &self.0 {
            Some(inner) => inner.dynamic_size(analyzer),
            None => 0,
        }
    }
}

impl<M, C: Condition<M>, T> MakeWith<M> for Conditional<C, T> where
    M: MakeType<T> + Maker,
    <M as Maker>::Error: From<ConditionalError>,
 {
    open spec fn makeable() -> bool {
        &&& M::can_make()
        &&& <<M as Maker>::Error as FromSpec<ConditionalError>>::obeys_from_spec()
    }

    open spec fn make_with_spec(
        before: M,
        after: M,
        outcome: Result<Self, <M as Maker>::Error>,
    ) -> bool {
        match C::check_spec(&before) {
            Err(error) => after == before && outcome == Err::<Self, <M as Maker>::Error>(
                <<M as Maker>::Error as FromSpec<ConditionalError>>::from_spec(error),
            ),
            Ok(false) => after == before && outcome == Ok::<Self, <M as Maker>::Error>(
                Conditional(None, PhantomData),
            ),
            Ok(true) => match outcome {
                Ok(field) => field.0 matches Some(inner) && M::make_spec(before, after, Ok(inner)),
                Err(error) => M::make_spec(before, after, Err(error)),
            },
        }
    }

    fn make_with(maker: &mut M) -> (outcome: Result<Self, <M as Maker>::Error>) {
        let present = match C::check(maker) {
            Ok(present) => present,
            Err(error) => {
                return Err(<M as Maker>::Error::from(error));
            },
        };
        let inner = if present {
            match maker.make_type() {
                Ok(inner) => Some(inner),
                Err(error) => {
                    return Err(error);
                },
            }
        } else {
            None
        };
        Ok(Conditional(inner, PhantomData))
    }
}

impl<V, C: Condition<V>, T> VisitWith<V> for Conditional<C, T> where
    V: VisitType<T> + Visitor,
    <V as Visitor>::Error: From<ConditionalError>,
 {
    open spec fn visitable() -> bool {
        &&& V::can_visit()
        &&& <<V as Visitor>::Error as FromSpec<ConditionalError>>::obeys_from_spec()
    }

    open spec fn visit_with_spec(
        self,
        before: V,
        after: V,
        outcome: Result<(), <V as Visitor>::Error>,
    ) -> bool {
        match (self.0, C::check_spec(&before)) {
            (_, Err(error)) => after == before && outcome == Err::<(), <V as Visitor>::Error>(
                <<V as Visitor>::Error as FromSpec<ConditionalError>>::from_spec(error),
            ),
            (Some(inner), Ok(true)) => V::visit_spec(before, inner, after, outcome),
            (None, Ok(false)) => after == before && outcome is Ok,
            (held, Ok(check)) => after == before && outcome == Err::<(), <V as Visitor>::Error>(
                <<V as Visitor>::Error as FromSpec<ConditionalError>>::from_spec(
                    ConditionalError::ConditionalMismatch { is_some: held is Some, check },
                ),
            ),
        }
    }

    fn visit_with(&self, visitor: &mut V) -> (outcome: Result<(), <V as Visitor>::Error>) {
        let check = match C::check(visitor) {
            Ok(check) => check,
            Err(error) => {
                return Err(<V as Visitor>::Error::from(error));
            },
        };
        match (&self.0, check) {
            (Some(inner), true) => visitor.visit(inner),
            (None, false) => Ok(()),
            (held, check) => Err(
                <V as Visitor>::Error::from(
                    ConditionalError::ConditionalMismatch { is_some: held.is_some(), check },
                ),
            ),
        }
    }
}

/// The condition that slot `SLOT` holds a value with a bit of `VAL` set.
#[derive(Debug)]
pub struct Flag<const VAL: u32, const SLOT: usize>;

impl<D: Has<Slots>, const VAL: u32, const SLOT: usize> Condition<D> for Flag<VAL, SLOT> {
    const FIXED: bool = false;

    open spec fn check_spec(data: &D) -> Result<bool, ConditionalError> {
        match slot_value(data.part()@, SLOT) {
            Some(stored) => Ok((stored & VAL) != 0),
            None => Err(ConditionalError::SlotIsEmpty { slot: SLOT }),
        }
    }

    fn check(data: &D) -> (holds: Result<bool, ConditionalError>) {
        let slots = data.give();
        match slots.load(SLOT) {
            Some(stored) => Ok((stored & VAL) != 0),
            None => Err(ConditionalError::SlotIsEmpty { slot: SLOT }),
        }
    }
}

/// The condition that `C` does not hold.
#[derive(Debug)]
pub struct Not<C>(PhantomData<C>);

impl<D, C: Condition<D>> Condition<D> for Not<C> {
    const FIXED: bool = C::FIXED;

    open spec fn check_spec(data: &D) -> Result<bool, ConditionalError> {
        match C::check_spec(data) {
            Ok(holds) => Ok(!holds),
            Err(error) => Err(error),
        }
    }

    fn check(data: &D) -> (holds: Result<bool, ConditionalError>) {
        match C::check(data) {
            Ok(holds) => Ok(!holds),
            Err(error) => Err(error),
        }
    }
}

/// The condition that slot `SLOT` holds exactly `VAL`.
#[derive(Debug)]
pub struct Equal<const VAL: u32, const SLOT: usize>;

impl<D: Has<Slots>, const VAL: u32, const SLOT: usize> Condition<D> for Equal<VAL, SLOT> {
    const FIXED: bool = false;

    open spec fn check_spec(data: &D) -> Result<bool, ConditionalError> {
        match slot_value(data.part()@, SLOT) {
            Some(stored) => Ok(stored == VAL),
            None => Err(ConditionalError::SlotIsEmpty { slot: SLOT }),
        }
    }

    fn check(data: &D) -> (holds: Result<bool, ConditionalError>) {
        let slots = data.give();
        match slots.load(SLOT) {
            Some(stored) => Ok(stored == VAL),
            None => Err(ConditionalError::SlotIsEmpty { slot: SLOT }),
        }
    }
}

/// The condition that slot `SLOT` holds a value other than `VAL`.
pub type NotEqual<const VAL: u32, const SLOT: usize> = Not<Equal<VAL, SLOT>>;

} // verus!
