//! What a context offers beyond the traversal of single values: the copy of a
//! run of plain elements, and what it knows of the input.

use vstd::prelude::*;
use crate::traversal::Maker;
use crate::traversal::Visitor;

verus! {

/// What a run that was read holds, or the failure.
pub open spec fn blob_outcome<T, E>(outcome: Result<Vec<T>, E>) -> Result<Seq<T>, E> {
    match outcome {
        Ok(blob) => Ok(blob@),
        Err(error) => Err(error),
    }
}

/// A decoding context that can read a run of elements of type `T` at once.
pub trait MakeBlob<T>: Maker {
    /// Whether the conditions on the two types hold under which this context
    /// reads a run as [`Self::make_blob_spec`] says. An implementation that
    /// does not state them promises nothing.
    open spec fn can_make_blob() -> bool {
        false
    }

    /// Whether reading `len` elements from the context `before` may leave the
    /// context `after` and end in `outcome`, the elements read or the failure.
    open spec fn make_blob_spec(
        before: Self,
        len: usize,
        after: Self,
        outcome: Result<Seq<T>, <Self as Maker>::Error>,
    ) -> bool {
        true
    }

    /// Reads `len` elements. The number is given by the caller: the run itself
    /// carries no length.
    fn make_blob(&mut self, len: usize) -> (outcome: Result<Vec<T>, <Self as Maker>::Error>)
        requires
            Self::can_make_blob(),
        ensures
            Self::make_blob_spec(*old(self), len, *final(self), blob_outcome(outcome)),
            outcome matches Ok(blob) ==> blob@.len() == len,
    ;
}

/// An encoding context that can write a run of elements of type `T` at once.
pub trait VisitBlob<T>: Visitor {
    /// Whether the conditions on the two types hold under which this context
    /// writes a run as [`Self::visit_blob_spec`] says. An implementation that
    /// does not state them promises nothing.
    open spec fn can_visit_blob() -> bool {
        false
    }

    /// Whether writing `blob` to the context `before` may leave the context
    /// `after` and end in `outcome`.
    open spec fn visit_blob_spec(
        before: Self,
        blob: Seq<T>,
        after: Self,
        outcome: Result<(), <Self as Visitor>::Error>,
    ) -> bool {
        true
    }

    /// Writes the elements of `blob`, and nothing for their number.
    fn visit_blob(&mut self, blob: &[T]) -> (outcome: Result<(), <Self as Visitor>::Error>)
        requires
            Self::can_visit_blob(),
        ensures
            Self::visit_blob_spec(*old(self), blob@, *final(self), outcome),
    ;
}

/// A context that knows how much of its input is left.
pub trait BytesLeft {
    /// The number of bytes that are left.
    open spec fn bytes_left_spec(&self) -> usize {
        arbitrary()
    }

    /// The number of bytes that are left.
    fn bytes_left(&self) -> (left: usize)
        ensures
            left == self.bytes_left_spec(),
    ;
}

/// A marker type whose length contexts of type `A` know.
pub trait FixedLength<A> {
    /// The length under `analyzer`.
    open spec fn fixed_length_spec(analyzer: &A) -> usize {
        arbitrary()
    }

    /// The length under `analyzer`.
    fn fixed_length(analyzer: &A) -> (length: usize)
        ensures
            length == Self::fixed_length_spec(analyzer),
    ;
}

} // verus!
