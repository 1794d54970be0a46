//! A run of plain elements that is copied to and from the encoding at once,
//! behind the length that its strategy carries, and the text form of such a
//! run of bytes.

use vstd::prelude::*;
use vstd::slice::slice_subrange;
use vstd::std_specs::convert::FromSpec;
use vstd::std_specs::convert::TryFromSpec;
use vstd::string::StringSliceAdditionalSpecFns;
use vstd::utf8::valid_utf8;
use std::marker::PhantomData;
use crate::analysis::AnalyzeType;
use crate::analysis::AnalyzeWith;
use crate::analysis::AssertConstOrFixed;
use crate::analysis::TypeAnalyzer;
use crate::generics::collections::lemma_saturate_add;
use crate::generics::collections::lemma_saturate_mul;
use crate::generics::length::Length;
use crate::generics::length::LengthError;
use crate::size::saturate;
use crate::size::TypeSize;
use crate::traits::MakeBlob;
use crate::traits::VisitBlob;
use crate::traversal::MakeType;
use crate::traversal::MakeWith;
use crate::traversal::Maker;
use crate::traversal::VisitType;
use crate::traversal::VisitWith;
use crate::traversal::Visitor;

verus! {

/// A run of plain elements of type `T`, with the length strategy `LEN`.
pub struct BigArr<T, LEN>(pub Vec<T>, pub PhantomData<LEN>);

impl<T: Clone, LEN> Clone for BigArr<T, LEN> {
    fn clone(&self) -> (copy: Self)
        ensures
            copy.0@.len() == self.0@.len(),
            forall|i: int| 0 <= i < self.0@.len() ==> cloned(self.0@[i], #[trigger] copy.0@[i]),
    {
        BigArr(self.0.clone(), PhantomData)
    }
}

impl<T, LEN> Default for BigArr<T, LEN> {
    fn default() -> (run: Self)
        ensures
            run.0@ == Seq::<T>::empty(),
    {
        BigArr(Vec::new(), PhantomData)
    }
}

impl<T, LEN> BigArr<T, LEN> {
    /// The run of the elements of `vec`. Whether their number suits the
    /// strategy is found out when the run is encoded.
    pub fn new_unchecked(vec: Vec<T>) -> (made: Self)
        ensures
            made == BigArr::<T, LEN>(vec, PhantomData),
    {
        BigArr(vec, PhantomData)
    }
}

/// The classification of a header of class `header` followed by elements of
/// `bytes` bytes each, as many as `reps` says: a constant where the number is a
/// constant, else what the number is.
pub open spec fn blob_class(bytes: usize, reps: TypeSize, header: TypeSize) -> TypeSize {
    match reps {
        TypeSize::Const(count) => TypeSize::Const((header.const_part() + bytes * count) as usize),
        _ => reps,
    }
}

/// Whether the constant of [`blob_class`], if there is one, is a machine
/// integer.
pub open spec fn blob_class_fits(bytes: usize, reps: TypeSize, header: TypeSize) -> bool {
    reps is Const ==> header.const_part() + bytes * reps.const_part() <= usize::MAX
}

/// Classifies a run from the size of an element and the classes of the number
/// of elements and of the header. The header has to be a constant.
pub fn size_and_len(bytes: usize, reps: TypeSize, header: TypeSize) -> (size: TypeSize)
    requires
        header is Const,
        blob_class_fits(bytes, reps, header),
    ensures
        size == blob_class(bytes, reps, header),
{
    let header = header.expect_const();
    match reps {
        TypeSize::Const(count) => {
            assert(bytes * count <= usize::MAX) by (nonlinear_arith)
                requires
                    header + bytes * count <= usize::MAX,
            ;
            TypeSize::Const(header + bytes * count)
        },
        _ => reps,
    }
}

impl<D: TypeAnalyzer + AnalyzeType<LEN> + AnalyzeType<Length<LEN>>, T, LEN> AnalyzeWith<
    D,
> for BigArr<T, LEN> {
    open spec fn analyzable() -> bool {
        &&& <D as AnalyzeType<LEN>>::type_analyzable()
        &&& <D as AnalyzeType<Length<LEN>>>::type_analyzable()
        &&& <D as AnalyzeType<LEN>>::type_size_class() is Const
        &&& vstd::layout::size_of::<T>() <= usize::MAX
        &&& blob_class_fits(
            vstd::layout::size_of::<T>() as usize,
            <D as AnalyzeType<Length<LEN>>>::type_size_class(),
            <D as AnalyzeType<LEN>>::type_size_class(),
        )
    }

    open spec fn size_class() -> TypeSize {
        blob_class(
            vstd::layout::size_of::<T>() as usize,
            <D as AnalyzeType<Length<LEN>>>::type_size_class(),
            <D as AnalyzeType<LEN>>::type_size_class(),
        )
    }

    open spec fn fixed_size_spec(analyzer: &D) -> nat {
        <D as AnalyzeType<LEN>>::type_size_class().const_part() + <D as AnalyzeType<
            Length<LEN>,
        >>::type_fixed_size_spec(analyzer) * vstd::layout::size_of::<T>()
    }

    open spec fn dynamic_size_spec(&self, analyzer: &D) -> nat {
        <D as AnalyzeType<LEN>>::type_size_class().const_part() + self.0@.len()
            * vstd::layout::size_of::<T>()
    }

    open spec fn conforms(&self, analyzer: &D) -> bool {
        !(<D as AnalyzeType<Length<LEN>>>::type_size_class() is Dynamic) ==> self.0@.len() == <D as AnalyzeType<
            Length<LEN>,
        >>::type_fixed_size_spec(analyzer)
    }

    fn const_size() -> (size: TypeSize) {
        size_and_len(
            core::mem::size_of::<T>(),
            <D as AnalyzeType<Length<LEN>>>::type_const_size(),
            <D as AnalyzeType<LEN>>::type_const_size(),
        )
    }

    fn fixed_size(analyzer: &D) -> (size: usize) {
        let reps = <D as AnalyzeType<Length<LEN>>>::type_fixed_size(analyzer);
        let header = <D as AnalyzeType<LEN>>::type_const_size().expect_const();
        proof {
            let count = <D as AnalyzeType<Length<LEN>>>::type_fixed_size_spec(analyzer);
            lemma_saturate_mul(count, vstd::layout::size_of::<T>());
            lemma_saturate_add(header as nat, count * vstd::layout::size_of::<T>());
            let bytes = vstd::layout::size_of::<T>() as usize;
            assert(reps * bytes == bytes * reps) by (nonlinear_arith);
        }
        match reps.checked_mul(core::mem::size_of::<T>()) {
            Some(body) => header.saturating_add(body),
            None => usize::MAX,
        }
    }

    fn dynamic_size(&self, analyzer: &D) -> (size: usize) {
        let reps = self.0.len();
        let header = <D as AnalyzeType<LEN>>::type_const_size().expect_const();
        proof {
            lemma_saturate_mul(reps as nat, vstd::layout::size_of::<T>());
            lemma_saturate_add(header as nat, reps as nat * vstd::layout::size_of::<T>());
        }
        match reps.checked_mul(core::mem::size_of::<T>()) {
            Some(body) => header.saturating_add(body),
            None => usize::MAX,
        }
    }
}

/// What a decoded run holds, or the failure.
pub open spec fn run_outcome<T, LEN, E>(outcome: Result<BigArr<T, LEN>, E>) -> Result<Seq<T>, E> {
    match outcome {
        Ok(made) => Ok(made.0@),
        Err(error) => Err(error),
    }
}

impl<M, T, LEN> MakeWith<M> for BigArr<T, LEN> where
    M: MakeType<LEN> + AnalyzeType<Length<LEN>> + MakeBlob<T>,
 {
    open spec fn makeable() -> bool {
        &&& <M as MakeType<LEN>>::can_make()
        &&& <M as AnalyzeType<Length<LEN>>>::type_analyzable()
        &&& <M as MakeBlob<T>>::can_make_blob()
    }

    open spec fn make_with_spec(
        before: M,
        after: M,
        outcome: Result<Self, <M as Maker>::Error>,
    ) -> bool {
        exists|mid: M, len: Result<LEN, <M as Maker>::Error>| #[trigger]
            <M as MakeType<LEN>>::make_spec(before, mid, len) && match len {
                Err(error) => after == mid && outcome == Err::<Self, <M as Maker>::Error>(error),
                Ok(len) => {
                    let count = saturate(mid.type_dynamic_size_spec(&Length(len)));
                    &&& <M as MakeBlob<T>>::make_blob_spec(mid, count, after, run_outcome(outcome))
                    &&& outcome matches Ok(made) ==> made.0@.len() == count
                },
            }
    }

    fn make_with(maker: &mut M) -> (outcome: Result<Self, <M as Maker>::Error>) {
        let len: LEN = match <M as MakeType<LEN>>::make_type(maker) {
            Ok(len) => len,
            Err(error) => {
                return Err(error);
            },
        };
        let len = maker.type_dynamic_size(&Length(len));
        match maker.make_blob(len) {
            Ok(vec) => Ok(BigArr(vec, PhantomData)),
            Err(error) => Err(error),
        }
    }
}

impl<V, T, LEN> VisitWith<V> for BigArr<T, LEN> where
    V: VisitType<LEN> + VisitBlob<T>,
    LEN: TryFrom<usize>,
    <V as Visitor>::Error: From<<LEN as TryFrom<usize>>::Error>,
 {
    open spec fn visitable() -> bool {
        &&& <V as VisitType<LEN>>::can_visit()
        &&& <V as VisitBlob<T>>::can_visit_blob()
        &&& <LEN as TryFromSpec<usize>>::obeys_try_from_spec()
        &&& <<V as Visitor>::Error as FromSpec<
            <LEN as TryFrom<usize>>::Error,
        >>::obeys_from_spec()
    }

    open spec fn visit_with_spec(
        self,
        before: V,
        after: V,
        outcome: Result<(), <V as Visitor>::Error>,
    ) -> bool {
        match <LEN as TryFromSpec<usize>>::try_from_spec(self.0@.len() as usize) {
            Err(error) => after == before && outcome == Err::<(), <V as Visitor>::Error>(
                <<V as Visitor>::Error as FromSpec<<LEN as TryFrom<usize>>::Error>>::from_spec(
                    error,
                ),
            ),
            Ok(len) => exists|mid: V, headed: Result<(), <V as Visitor>::Error>| #[trigger]
                <V as VisitType<LEN>>::visit_spec(before, len, mid, headed) && if headed is Err {
                    after == mid && outcome == headed
                } else {
                    <V as VisitBlob<T>>::visit_blob_spec(mid, self.0@, after, outcome)
                },
        }
    }

    fn visit_with(&self, visitor: &mut V) -> (outcome: Result<(), <V as Visitor>::Error>) {
        let len: LEN = match LEN::try_from(self.0.len()) {
            Ok(len) => len,
            Err(error) => {
                return Err(<V as Visitor>::Error::from(error));
            },
        };
        let headed = <V as VisitType<LEN>>::visit(visitor, &len);
        if headed.is_err() {
            return headed;
        }
        visitor.visit_blob(self.0.as_slice())
    }
}

/// How many elements of each end of a long run are shown.
pub const HALF_MAX: usize = 16;

/// The two ends of a run that is too long to be shown whole: its first and its
/// last 16 elements, where it has more than 32.
pub fn head_and_tail<T>(arr: &[T]) -> (ends: Option<(&[T], &[T])>)
    ensures
        ends is Some <==> arr@.len() > 2 * HALF_MAX,
        ends matches Some((head, tail)) ==> head@ == arr@.subrange(0, HALF_MAX as int) && tail@
            == arr@.subrange(arr@.len() - HALF_MAX, arr@.len() as int),
{
    let len = arr.len();
    if len > HALF_MAX * 2 {
        let head = slice_subrange(arr, 0, HALF_MAX);
        let tail = slice_subrange(arr, len - HALF_MAX, len);
        Some((head, tail))
    } else {
        None
    }
}

/// A run of bytes that holds text, padded with zero bytes.
pub struct BigStr<LEN>(pub BigArr<u8, LEN>);

impl<LEN> Clone for BigStr<LEN> {
    fn clone(&self) -> (copy: Self)
        ensures
            copy.0.0@ == self.0.0@,
    {
        let copy = BigStr(self.0.clone());
        assert(copy.0.0@ =~= self.0.0@);
        copy
    }
}

/// A run of bytes, read as text where it is text.
#[derive(Debug)]
pub enum MaybeStr<'a> {
    /// The bytes before the cut are UTF-8 and read `string`.
    Utf8 { string: &'a str, tail_zeros: usize },
    /// The bytes before the cut are not UTF-8; `bytes` is the whole run.
    Bytes { bytes: &'a [u8], tail_zeros: usize },
}

/// Whether `val` is zero.
pub fn is_zero(val: &usize) -> (zero: bool)
    ensures
        zero == (*val == 0),
{
    *val == 0
}

/// Where a run is cut into text and tail: at its last byte that is not zero,
/// or at 0 where every byte is zero.
pub open spec fn text_cut(bytes: Seq<u8>) -> int
    decreases bytes.len(),
{
    if bytes.len() == 0 {
        0
    } else if bytes.last() != 0 {
        bytes.len() - 1
    } else {
        text_cut(bytes.drop_last())
    }
}

/// The cut lies within the run, at a byte that is not zero if there is one, and
/// only zero bytes follow that byte.
pub proof fn lemma_text_cut(bytes: Seq<u8>)
    ensures
        0 <= text_cut(bytes) <= bytes.len(),
        text_cut(bytes) < bytes.len() || bytes.len() == 0,
        forall|i: int| text_cut(bytes) < i < bytes.len() ==> bytes[i] == 0,
        (exists|i: int| 0 <= i < bytes.len() && bytes[i] != 0) ==> bytes[text_cut(bytes)] != 0,
        (forall|i: int| 0 <= i < bytes.len() ==> bytes[i] == 0) ==> text_cut(bytes) == 0,
    decreases bytes.len(),
{
    if bytes.len() != 0 && bytes.last() == 0 {
        let shorter = bytes.drop_last();
        lemma_text_cut(shorter);
        assert forall|i: int| text_cut(bytes) < i < bytes.len() implies bytes[i] == 0 by {
            if i < shorter.len() {
                assert(shorter[i] == bytes[i]);
            }
        }
        if exists|i: int| 0 <= i < bytes.len() && bytes[i] != 0 {
            let i = choose|i: int| 0 <= i < bytes.len() && bytes[i] != 0;
            assert(shorter[i] == bytes[i]);
        }
        if forall|i: int| 0 <= i < bytes.len() ==> bytes[i] == 0 {
            assert forall|i: int| 0 <= i < shorter.len() implies shorter[i] == 0 by {
                assert(shorter[i] == bytes[i]);
            }
        }
    }
}

/// The text that `bytes` hold, if they are UTF-8.
///
/// Trusted: this is `std::str::from_utf8`, of which the standard library says
/// that it succeeds exactly on UTF-8 and gives the same bytes back as a `str`.
#[verifier::external_body]
fn utf8_text(bytes: &[u8]) -> (text: Option<&str>)
    ensures
        text is Some <==> valid_utf8(bytes@),
        text matches Some(string) ==> string.spec_bytes() == bytes@,
{
    std::str::from_utf8(bytes).ok()
}

impl<LEN> BigStr<LEN> {
    /// The text of the bytes of `vec`. Whether their number suits the strategy
    /// is found out when the text is encoded.
    pub fn new_unchecked(vec: Vec<u8>) -> (made: Self)
        ensures
            made == BigStr::<LEN>(BigArr(vec, PhantomData)),
    {
        BigStr(BigArr::new_unchecked(vec))
    }

    /// The run read as text: the bytes before the cut as a string where they are
    /// UTF-8, else the whole run as bytes; and the number of bytes from the cut
    /// on.
    pub fn as_maybe_str(&self) -> (read: MaybeStr<'_>)
        ensures
            match read {
                MaybeStr::Utf8 { string, tail_zeros } => {
                    &&& valid_utf8(self.0.0@.subrange(0, text_cut(self.0.0@)))
                    &&& string.spec_bytes() == self.0.0@.subrange(0, text_cut(self.0.0@))
                    &&& tail_zeros == self.0.0@.len() - text_cut(self.0.0@)
                },
                MaybeStr::Bytes { bytes, tail_zeros } => {
                    &&& !valid_utf8(self.0.0@.subrange(0, text_cut(self.0.0@)))
                    &&& bytes@ == self.0.0@
                    &&& tail_zeros == self.0.0@.len() - text_cut(self.0.0@)
                },
            },
    {
        let slice = self.0.0.as_slice();
        let mut last_non_zero: usize = slice.len();
        assert(slice@.take(slice@.len() as int) =~= slice@);
        while last_non_zero > 0 && slice[last_non_zero - 1] == 0
            invariant
                last_non_zero <= slice@.len(),
                text_cut(slice@) == text_cut(slice@.take(last_non_zero as int)),
            decreases last_non_zero,
        {
            proof {
                let here = slice@.take(last_non_zero as int);
                assert(here.drop_last() =~= slice@.take(last_non_zero - 1));
            }
            last_non_zero -= 1;
        }
        if last_non_zero > 0 {
            proof {
                let here = slice@.take(last_non_zero as int);
                assert(here.last() == slice@[last_non_zero - 1]);
            }
            last_non_zero -= 1;
        }
        let tail_zeros = slice.len() - last_non_zero;
        match utf8_text(slice_subrange(slice, 0, last_non_zero)) {
            Some(string) => MaybeStr::Utf8 { string, tail_zeros },
            None => MaybeStr::Bytes { bytes: slice, tail_zeros },
        }
    }

    /// The text that holds `bytes` followed by `tail_zeros` zero bytes.
    pub fn from_padded(bytes: &[u8], tail_zeros: usize) -> (made: Self)
        requires
            bytes@.len() + tail_zeros <= usize::MAX,
        ensures
            made.0.0@ == bytes@ + Seq::new(tail_zeros as nat, |i: int| 0u8),
    {
        let mut vec: Vec<u8> = Vec::with_capacity(bytes.len() + tail_zeros);
        vec.extend_from_slice(bytes);
        if tail_zeros > 0 {
            let ghost given = vec@;
            vec.resize(vec.len() + tail_zeros, 0);
            assert(vec@ =~= given + Seq::new(tail_zeros as nat, |i: int| 0u8)) by {
                assert(vec@.subrange(0, given.len() as int) == given);
            }
        } else {
            assert(vec@ =~= bytes@ + Seq::new(tail_zeros as nat, |i: int| 0u8));
        }
        BigStr(BigArr::new_unchecked(vec))
    }

    /// The text of the bytes of `vec`, which has to have exactly the length that
    /// the strategy fixes under `analyzer`.
    pub fn new_fixed<A: TypeAnalyzer>(vec: Vec<u8>, analyzer: &A) -> (made: Result<
        Self,
        LengthError,
    >) where Length<LEN>: AnalyzeWith<A>
        requires
            <Length<LEN> as AnalyzeWith<A>>::analyzable(),
            !(<Length<LEN> as AnalyzeWith<A>>::size_class() is Dynamic),
        ensures
            made == (if vec@.len() == saturate(
                <Length<LEN> as AnalyzeWith<A>>::fixed_size_spec(analyzer),
            ) {
                Ok::<Self, LengthError>(BigStr(BigArr(vec, PhantomData)))
            } else {
                Err::<Self, LengthError>(
                    LengthError::Verify {
                        from: vec@.len() as usize,
                        verified: saturate(
                            <Length<LEN> as AnalyzeWith<A>>::fixed_size_spec(analyzer),
                        ),
                    },
                )
            }),
    {
        AssertConstOrFixed::<A, Length<LEN>>::assert_const_or_fixed();
        let verified = <Length<LEN> as AnalyzeWith<A>>::fixed_size(analyzer);
        let from = vec.len();
        if verified != from {
            Err(LengthError::Verify { from, verified })
        } else {
            Ok(BigStr(BigArr::new_unchecked(vec)))
        }
    }

    /// The text of the bytes of `vec`, filled up with `fill` to the length that
    /// the strategy fixes under `analyzer`. A `vec` that is longer is refused.
    pub fn new_fixed_fill<A: TypeAnalyzer>(vec: Vec<u8>, analyzer: &A, fill: u8) -> (made: Result<
        Self,
        LengthError,
    >) where Length<LEN>: AnalyzeWith<A>
        requires
            <Length<LEN> as AnalyzeWith<A>>::analyzable(),
            !(<Length<LEN> as AnalyzeWith<A>>::size_class() is Dynamic),
        ensures
            match made {
                Ok(text) => {
                    &&& vec@.len() <= saturate(
                        <Length<LEN> as AnalyzeWith<A>>::fixed_size_spec(analyzer),
                    )
                    &&& text.0.0@ == vec@ + Seq::new(
                        (saturate(<Length<LEN> as AnalyzeWith<A>>::fixed_size_spec(analyzer))
                            - vec@.len()) as nat,
                        |i: int| fill,
                    )
                },
                Err(error) => {
                    &&& vec@.len() > saturate(
                        <Length<LEN> as AnalyzeWith<A>>::fixed_size_spec(analyzer),
                    )
                    &&& error == LengthError::Verify {
                        from: vec@.len() as usize,
                        verified: saturate(
                            <Length<LEN> as AnalyzeWith<A>>::fixed_size_spec(analyzer),
                        ),
                    }
                },
            },
    {
        let mut vec = vec;
        AssertConstOrFixed::<A, Length<LEN>>::assert_const_or_fixed();
        let verified = <Length<LEN> as AnalyzeWith<A>>::fixed_size(analyzer);
        let from = vec.len();
        if verified < from {
            return Err(LengthError::Verify { from, verified });
        }
        let ghost given = vec@;
        vec.resize(verified, fill);
        assert(vec@ =~= given + Seq::new((verified - from) as nat, |i: int| fill)) by {
            assert(vec@.subrange(0, from as int) == given);
        }
        Ok(BigStr(BigArr::new_unchecked(vec)))
    }
}

impl<LEN, D: TypeAnalyzer + AnalyzeType<BigArr<u8, LEN>>> AnalyzeWith<D> for BigStr<LEN> {
    open spec fn analyzable() -> bool {
        D::type_analyzable()
    }

    open spec fn size_class() -> TypeSize {
        D::type_size_class()
    }

    open spec fn fixed_size_spec(analyzer: &D) -> nat {
        analyzer.type_fixed_size_spec()
    }

    open spec fn dynamic_size_spec(&self, analyzer: &D) -> nat {
        analyzer.type_dynamic_size_spec(&self.0)
    }

    open spec fn conforms(&self, analyzer: &D) -> bool {
        analyzer.type_conforms(&self.0)
    }

    fn const_size() -> (size: TypeSize) {
        D::type_const_size()
    }

    fn fixed_size(analyzer: &D) -> (size: usize) {
        analyzer.type_fixed_size()
    }

    fn dynamic_size(&self, analyzer: &D) -> (size: usize) {
        analyzer.type_dynamic_size(&self.0)
    }
}

impl<M, LEN> MakeWith<M> for BigStr<LEN> where M: MakeType<BigArr<u8, LEN>> {
    open spec fn makeable() -> bool {
        M::can_make()
    }

    open spec fn make_with_spec(
        before: M,
        after: M,
        outcome: Result<Self, <M as Maker>::Error>,
    ) -> bool {
        match outcome {
            Ok(made) => M::make_spec(before, after, Ok(made.0)),
            Err(error) => M::make_spec(before, after, Err(error)),
        }
    }

    fn make_with(maker: &mut M) -> (outcome: Result<Self, <M as Maker>::Error>) {
        match maker.make_type() {
            Ok(run) => Ok(BigStr(run)),
            Err(error) => Err(error),
        }
    }
}

impl<V, LEN> VisitWith<V> for BigStr<LEN> where V: VisitType<BigArr<u8, LEN>> {
    open spec fn visitable() -> bool {
        V::can_visit()
    }

    open spec fn visit_with_spec(
        self,
        before: V,
        after: V,
        outcome: Result<(), <V as Visitor>::Error>,
    ) -> bool {
        V::visit_spec(before, self.0, after, outcome)
    }

    fn visit_with(&self, visitor: &mut V) -> (outcome: Result<(), <V as Visitor>::Error>) {
        visitor.visit(&self.0)
    }
}

} // verus!
