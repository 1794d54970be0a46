//! A wrapper that marks a field or a condition for inspection while a format
//! is being worked out. It changes nothing of what is encoded or decoded.

use vstd::prelude::*;
use vstd::std_specs::convert::FromSpecImpl;
use vstd::std_specs::convert::IntoSpec;
use crate::analysis::AnalyzeWith;
use crate::analysis::TypeAnalyzer;
use crate::generics::condition::Condition;
use crate::generics::condition::ConditionalError;
use crate::size::TypeSize;
use crate::traversal::MakeType;
use crate::traversal::MakeWith;
use crate::traversal::Maker;

verus! {

/// A field or condition under inspection.
#[derive(Debug)]
pub struct Dbg<T>(pub T);

impl<T: Into<u32>> From<Dbg<T>> for u32 {
    fn from(dbg: Dbg<T>) -> (value: Self) {
        dbg.0.into()
    }
}

impl<T: Into<u32>> FromSpecImpl<Dbg<T>> for u32 {
    open spec fn obeys_from_spec() -> bool {
        <T as IntoSpec<u32>>::obeys_into_spec()
    }

    open spec fn from_spec(dbg: Dbg<T>) -> Self {
        dbg.0.into_spec()
    }
}

impl<D, T: Condition<D>> Condition<D> for Dbg<T> {
    const FIXED: bool = T::FIXED;

    open spec fn check_spec(data: &D) -> Result<bool, ConditionalError> {
        T::check_spec(data)
    }

    fn check(data: &D) -> (holds: Result<bool, ConditionalError>) {
        T::check(data)
    }
}

impl<A: TypeAnalyzer, T: AnalyzeWith<A>> AnalyzeWith<A> for Dbg<T> {
    open spec fn analyzable() -> bool {
        T::analyzable()
    }

    open spec fn size_class() -> TypeSize {
        T::size_class()
    }

    open spec fn fixed_size_spec(analyzer: &A) -> nat {
        T::fixed_size_spec(analyzer)
    }

    open spec fn dynamic_size_spec(&self, analyzer: &A) -> nat {
        self.0.dynamic_size_spec(analyzer)
    }

    open spec fn conforms(&self, analyzer: &A) -> bool {
        self.0.conforms(analyzer)
    }

    fn const_size() -> (size: TypeSize) {
        T::const_size()
    }

    fn fixed_size(analyzer: &A) -> (size: usize) {
        T::fixed_size(analyzer)
    }

    fn dynamic_size(&self, analyzer: &A) -> (size: usize) {
        self.0.dynamic_size(analyzer)
    }
}

impl<M: Maker + TypeAnalyzer + MakeType<T>, T> MakeWith<M> for Dbg<T> {
    open spec fn makeable() -> bool {
        M::can_make()
    }

    open spec fn make_with_spec(
        before: M,
        after: M,
        outcome: Result<Self, <M as Maker>::Error>,
    ) -> bool {
        match outcome {
            Ok(made) => M::make_spec(before, after, Ok(made.0)),
            Err(error) => M::make_spec(before, after, Err(error)),
        }
    }

    fn make_with(maker: &mut M) -> (outcome: Result<Self, <M as Maker>::Error>) {
        match maker.make_type() {
            Ok(inner) => Ok(Dbg(inner)),
            Err(error) => Err(error),
        }
    }
}

} // verus!
