//! The size analysis: how many bytes the encoding of a type takes, asked of the
//! type (`AnalyzeWith`) or of the context (`AnalyzeType`).

use vstd::prelude::*;
use std::marker::PhantomData;
use crate::size::saturate;
use crate::size::TypeSize;

verus! {

/// A context that sizes can be asked of.
pub trait TypeAnalyzer {

}

/// A context that can tell the encoded size of a `T`.
pub trait AnalyzeType<T>: TypeAnalyzer {
    /// Whether contexts of this type can size a `T` at all: whether the
    /// classifications of its parts are such as the composition can use, and
    /// its constant, if it has one, is a machine integer. This is a property of
    /// the two types, not of a value. An implementation that does not state it
    /// promises nothing.
    open spec fn type_analyzable() -> bool {
        false
    }

    /// The classification of `T` under contexts of this type.
    open spec fn type_size_class() -> TypeSize {
        arbitrary()
    }

    /// The size of every well-shaped `T` under this context. It means something
    /// only where the classification is not `Dynamic`.
    open spec fn type_fixed_size_spec(&self) -> nat {
        arbitrary()
    }

    /// The size of `target` under this context.
    open spec fn type_dynamic_size_spec(&self, target: &T) -> nat {
        arbitrary()
    }

    /// Whether `target` has the shape that its type promises under this context.
    open spec fn type_conforms(&self, target: &T) -> bool {
        true
    }

    /// The classification of `T`.
    fn type_const_size() -> (size: TypeSize)
        requires
            Self::type_analyzable(),
        ensures
            size == Self::type_size_class(),
    ;

    /// The size of every well-shaped `T` under this context, or the largest
    /// machine integer where the size is beyond it. A type classified `Dynamic`
    /// has no such size.
    fn type_fixed_size(&self) -> (size: usize)
        requires
            Self::type_analyzable(),
            !(Self::type_size_class() is Dynamic),
        ensures
            size == saturate(self.type_fixed_size_spec()),
            Self::type_size_class() matches TypeSize::Const(constant) ==> size == constant,
    ;

    /// The size of `target` under this context, or the largest machine integer
    /// where the size is beyond it.
    fn type_dynamic_size(&self, target: &T) -> (size: usize)
        requires
            Self::type_analyzable(),
        ensures
            size == saturate(self.type_dynamic_size_spec(target)),
            !(Self::type_size_class() is Dynamic) && self.type_conforms(target) ==> size
                == saturate(self.type_fixed_size_spec()),
    ;
}

/// A type that can tell its encoded size under an `A`.
pub trait AnalyzeWith<A: TypeAnalyzer>: Sized {
    /// Whether this type can be sized under contexts of type `A` at all: whether
    /// the classifications of its parts are such as the composition can use,
    /// and its constant, if it has one, is a machine integer. This is a property
    /// of the two types, not of a value. An implementation that does not state
    /// it promises nothing.
    open spec fn analyzable() -> bool {
        false
    }

    /// The classification of this type under contexts of type `A`.
    open spec fn size_class() -> TypeSize {
        arbitrary()
    }

    /// The size of every well-shaped instance under `analyzer`. It means
    /// something only where the classification is not `Dynamic`.
    open spec fn fixed_size_spec(analyzer: &A) -> nat {
        arbitrary()
    }

    /// The size of this instance under `analyzer`.
    open spec fn dynamic_size_spec(&self, analyzer: &A) -> nat {
        arbitrary()
    }

    /// Whether this instance has the shape that its type promises under
    /// `analyzer`: for a collection, the length that its strategy fixes.
    open spec fn conforms(&self, analyzer: &A) -> bool {
        true
    }

    /// The classification of this type.
    fn const_size() -> (size: TypeSize)
        requires
            Self::analyzable(),
        ensures
            size == Self::size_class(),
    ;

    /// The size of every well-shaped instance under `analyzer`, or the largest
    /// machine integer where the size is beyond it. A type classified `Dynamic`
    /// has no such size.
    fn fixed_size(analyzer: &A) -> (size: usize)
        requires
            Self::analyzable(),
            !(Self::size_class() is Dynamic),
        ensures
            size == saturate(Self::fixed_size_spec(analyzer)),
            Self::size_class() matches TypeSize::Const(constant) ==> size == constant,
    ;

    /// The size of this instance under `analyzer`, or the largest machine
    /// integer where the size is beyond it.
    fn dynamic_size(&self, analyzer: &A) -> (size: usize)
        requires
            Self::analyzable(),
        ensures
            size == saturate(self.dynamic_size_spec(analyzer)),
            !(Self::size_class() is Dynamic) && self.conforms(analyzer) ==> size == saturate(
                Self::fixed_size_spec(analyzer),
            ),
    ;
}

/// The demand that `S` is sized without looking at an instance.
pub struct AssertConstOrFixed<A: TypeAnalyzer, S: AnalyzeWith<A>>(PhantomData<A>, PhantomData<S>);

impl<A: TypeAnalyzer, S: AnalyzeWith<A>> AssertConstOrFixed<A, S> {
    /// Passes verification only where the classification of `S` is `Const` or
    /// `Fixed`; it does nothing when run.
    pub fn assert_const_or_fixed()
        requires
            S::analyzable(),
            !(S::size_class() is Dynamic),
    {
    }
}

} // verus!
