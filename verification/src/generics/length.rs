//! Length strategies: how the number of elements of a collection is carried.
//!
//! A strategy type is decoded before the elements and encoded before them.
//! `Length<L>` asks the size analysis a second question of the same strategy:
//! not how many bytes the strategy itself takes, but how many elements it
//! announces.

use vstd::prelude::*;
use vstd::std_specs::convert::FromSpec;
use vstd::std_specs::convert::FromSpecImpl;
use vstd::std_specs::convert::IntoSpec;
use vstd::std_specs::convert::TryFromSpec;
use vstd::std_specs::convert::TryFromSpecImpl;
use std::marker::PhantomData;
use crate::analysis::AnalyzeType;
use crate::analysis::AnalyzeWith;
use crate::analysis::TypeAnalyzer;
use crate::generics::slots::Slots;
use crate::generics::slots::slot_value;
use crate::generics::Has;
use crate::size::saturate;
use crate::size::TypeSize;
use crate::traits::BytesLeft;
use crate::traversal::MakeType;
use crate::traversal::MakeWith;
use crate::traversal::Maker;
use crate::traversal::VisitType;
use crate::traversal::VisitWith;
use crate::traversal::Visitor;

verus! {

/// A length strategy, asked for the number of elements that it announces.
#[derive(Debug)]
pub struct Length<T>(pub T);

impl<T: Default> Default for Length<T> {
    fn default() -> (length: Self)
        ensures
            call_ensures(T::default, (), length.0),
    {
        Length(T::default())
    }
}

/// Why a length was refused.
#[derive(Debug, Clone, PartialEq, Eq)]
pub enum LengthError {
    /// A collection of `from` elements was given where exactly `const_size` are
    /// required.
    ConstNotEqual { const_size: usize, from: usize },
    /// The length field is too narrow for `size`.
    MakeCantFit { size: usize },
    /// The length policy turns `from` into `verified`, so `from` cannot be read
    /// back.
    Verify { from: usize, verified: usize },
    /// The slot that carries the length was never written.
    SlotIsEmpty { slot: usize },
    /// The slot that carries the length holds `stored`, the collection has
    /// `from` elements.
    SlotNotEqual { slot: usize, stored: usize, from: usize },
    /// The context expects `expected` elements, the collection has `actual`.
    FixedLength { expected: usize, actual: Option<usize> },
}

/// A policy applied to a length before it is trusted.
pub trait Verify<T> {
    /// What the policy makes of `val`: `val` itself, unless the policy says
    /// otherwise.
    open spec fn verify_spec(val: T) -> T {
        val
    }

    /// What the policy makes of `val`.
    fn verify(val: T) -> (verified: T)
        ensures
            verified == Self::verify_spec(val),
    ;
}

/// The policy that trusts every length.
impl<T> Verify<T> for () {
    open spec fn verify_spec(val: T) -> T {
        val
    }

    fn verify(val: T) -> (verified: T) {
        val
    }
}

/// The policy that cuts a length down to `MAX`.
#[derive(Debug)]
pub struct MaxClamp<const MAX: usize>;

impl<const MAX: usize> Verify<usize> for MaxClamp<MAX> {
    open spec fn verify_spec(val: usize) -> usize {
        if val <= MAX {
            val
        } else {
            MAX
        }
    }

    fn verify(val: usize) -> (verified: usize) {
        if val <= MAX {
            val
        } else {
            MAX
        }
    }
}

/// The policy that reads a length above `MAX` as 0.
#[derive(Debug)]
pub struct MaxSkip<const MAX: usize>;

impl<const MAX: usize> Verify<usize> for MaxSkip<MAX> {
    open spec fn verify_spec(val: usize) -> usize {
        if val > MAX {
            0
        } else {
            val
        }
    }

    fn verify(val: usize) -> (verified: usize) {
        if val > MAX {
            0
        } else {
            val
        }
    }
}

/// The length that `from` stands for under the policy `V`: `from` itself where
/// the policy leaves it as it is, else the refusal that names both.
pub open spec fn verified_length<V: Verify<usize>>(from: usize) -> Result<usize, LengthError> {
    if V::verify_spec(from) == from {
        Ok(from)
    } else {
        Err(LengthError::Verify { from, verified: V::verify_spec(from) })
    }
}

// -------------------------------------------------------------------------
// The constant strategy

/// The strategy of a collection that always has `LEN` elements. Nothing is
/// encoded for it.
#[derive(Debug)]
pub struct LenConst<const LEN: usize>;

impl<const LEN: usize> Default for LenConst<LEN> {
    fn default() -> (len: Self)
        ensures
            len == LenConst::<LEN>,
    {
        LenConst
    }
}

impl<D: TypeAnalyzer, const LEN: usize> AnalyzeWith<D> for Length<LenConst<LEN>> {
    open spec fn analyzable() -> bool {
        true
    }

    open spec fn size_class() -> TypeSize {
        TypeSize::Const(LEN)
    }

    open spec fn fixed_size_spec(analyzer: &D) -> nat {
        LEN as nat
    }

    open spec fn dynamic_size_spec(&self, analyzer: &D) -> nat {
        LEN as nat
    }

    open spec fn conforms(&self, analyzer: &D) -> bool {
        true
    }

    fn const_size() -> (size: TypeSize) {
        TypeSize::Const(LEN)
    }

    fn fixed_size(analyzer: &D) -> (size: usize) {
        LEN
    }

    fn dynamic_size(&self, analyzer: &D) -> (size: usize) {
        LEN
    }
}

impl<D: TypeAnalyzer, const LEN: usize> AnalyzeWith<D> for LenConst<LEN> {
    open spec fn analyzable() -> bool {
        true
    }

    open spec fn size_class() -> TypeSize {
        TypeSize::Const(0)
    }

    open spec fn fixed_size_spec(analyzer: &D) -> nat {
        0
    }

    open spec fn dynamic_size_spec(&self, analyzer: &D) -> nat {
        0
    }

    open spec fn conforms(&self, analyzer: &D) -> bool {
        true
    }

    fn const_size() -> (size: TypeSize) {
        TypeSize::Const(0)
    }

    fn fixed_size(analyzer: &D) -> (size: usize) {
        0
    }

    fn dynamic_size(&self, analyzer: &D) -> (size: usize) {
        0
    }
}

impl<const LEN: usize> TryFrom<usize> for LenConst<LEN> {
    type Error = LengthError;

    fn try_from(from: usize) -> (len: Result<Self, LengthError>) {
        if from == LEN {
            Ok(LenConst)
        } else {
            Err(LengthError::ConstNotEqual { const_size: LEN, from })
        }
    }
}

impl<const LEN: usize> TryFromSpecImpl<usize> for LenConst<LEN> {
    open spec fn obeys_try_from_spec() -> bool {
        true
    }

    open spec fn try_from_spec(from: usize) -> Result<Self, LengthError> {
        if from == LEN {
            Ok(LenConst)
        } else {
            Err(LengthError::ConstNotEqual { const_size: LEN, from })
        }
    }
}

impl<M: Maker, const LEN: usize> MakeWith<M> for LenConst<LEN> {
    open spec fn makeable() -> bool {
        true
    }

    /// Nothing is consumed, and the length is made: the number of elements is
    /// known without the encoding.
    open spec fn make_with_spec(before: M, after: M, outcome: Result<Self, M::Error>) -> bool {
        after == before && outcome == Ok::<Self, M::Error>(LenConst)
    }

    fn make_with(maker: &mut M) -> (outcome: Result<Self, M::Error>) {
        Ok(LenConst)
    }
}

impl<V: Visitor, const LEN: usize> VisitWith<V> for LenConst<LEN> {
    open spec fn visitable() -> bool {
        true
    }

    open spec fn visit_with_spec(self, before: V, after: V, outcome: Result<(), V::Error>) -> bool {
        after == before && outcome is Ok
    }

    fn visit_with(&self, visitor: &mut V) -> (outcome: Result<(), V::Error>) {
        Ok(())
    }
}

// -------------------------------------------------------------------------
// The prefixed strategy

/// The strategy of a collection whose number of elements is encoded before it,
/// as an integer of type `L`, under the policy `V`.
#[derive(Debug)]
pub struct LenMake<L, V = ()>(
    pub(crate) usize,
    pub(crate) PhantomData<L>,
    pub(crate) PhantomData<V>,
);

impl<L, V> LenMake<L, V> {
    /// The number of elements that this length announces.
    pub closed spec fn count(self) -> usize {
        self.0
    }

    /// The length that announces `count` elements.
    pub closed spec fn of(count: usize) -> Self {
        LenMake(count, PhantomData, PhantomData)
    }

    /// A length is determined by the number that it announces.
    pub proof fn lemma_of_count(count: usize)
        ensures
            Self::of(count).count() == count,
    {
    }

    /// A length is determined by the number that it announces.
    pub proof fn lemma_count_of(self)
        ensures
            Self::of(self.count()) == self,
    {
    }

    pub(crate) fn new(len: usize) -> (made: Self)
        ensures
            made == Self::of(len),
    {
        LenMake(len, PhantomData, PhantomData)
    }
}

impl<L, V> Default for LenMake<L, V> {
    fn default() -> (len: Self)
        ensures
            len == Self::of(0),
    {
        LenMake(0, PhantomData, PhantomData)
    }
}

impl<L, V> Clone for LenMake<L, V> {
    fn clone(&self) -> (copy: Self)
        ensures
            copy == *self,
    {
        LenMake(self.0, PhantomData, PhantomData)
    }
}

impl<LEN, D: TypeAnalyzer, V> AnalyzeWith<D> for LenMake<LEN, V> {
    open spec fn analyzable() -> bool {
        vstd::layout::size_of::<LEN>() <= usize::MAX
    }

    open spec fn size_class() -> TypeSize {
        TypeSize::Const(vstd::layout::size_of::<LEN>() as usize)
    }

    open spec fn fixed_size_spec(analyzer: &D) -> nat {
        vstd::layout::size_of::<LEN>()
    }

    open spec fn dynamic_size_spec(&self, analyzer: &D) -> nat {
        vstd::layout::size_of::<LEN>()
    }

    open spec fn conforms(&self, analyzer: &D) -> bool {
        true
    }

    fn const_size() -> (size: TypeSize) {
        TypeSize::Const(core::mem::size_of::<LEN>())
    }

    fn fixed_size(analyzer: &D) -> (size: usize) {
        core::mem::size_of::<LEN>()
    }

    fn dynamic_size(&self, analyzer: &D) -> (size: usize) {
        core::mem::size_of::<LEN>()
    }
}

impl<LEN, D: TypeAnalyzer, V> AnalyzeWith<D> for Length<LenMake<LEN, V>> {
    open spec fn analyzable() -> bool {
        true
    }

    open spec fn size_class() -> TypeSize {
        TypeSize::Dynamic
    }

    open spec fn fixed_size_spec(analyzer: &D) -> nat {
        0
    }

    open spec fn dynamic_size_spec(&self, analyzer: &D) -> nat {
        self.0.count() as nat
    }

    open spec fn conforms(&self, analyzer: &D) -> bool {
        true
    }

    fn const_size() -> (size: TypeSize) {
        TypeSize::Dynamic
    }

    /// A number of elements that is read from the encoding is never known
    /// ahead: the classification is `Dynamic`, so that the precondition of this
    /// method admits no call.
    fn fixed_size(analyzer: &D) -> (size: usize) {
        0
    }

    fn dynamic_size(&self, analyzer: &D) -> (size: usize) {
        self.0.0
    }
}

impl<M, LEN: Into<u32>, V: Verify<usize>> MakeWith<M> for LenMake<LEN, V> where
    M: Maker + MakeType<LEN>,
 {
    open spec fn makeable() -> bool {
        M::can_make() && <LEN as IntoSpec<u32>>::obeys_into_spec()
    }

    open spec fn make_with_spec(before: M, after: M, outcome: Result<Self, M::Error>) -> bool {
        match outcome {
            Ok(len) => exists|raw: LEN| #[trigger]
                M::make_spec(before, after, Ok(raw)) && len == Self::of(
                    V::verify_spec(raw.into_spec() as usize),
                ),
            Err(error) => M::make_spec(before, after, Err(error)),
        }
    }

    fn make_with(maker: &mut M) -> (outcome: Result<Self, M::Error>) {
        let len: LEN = match maker.make_type() {
            Ok(len) => len,
            Err(error) => {
                return Err(error);
            },
        };
        let len: u32 = len.into();
        let len = V::verify(len as usize);
        Ok(LenMake::new(len))
    }
}

impl<T, LEN: TryFrom<usize>, V> VisitWith<T> for LenMake<LEN, V> where
    T: Visitor + VisitType<LEN>,
    T::Error: From<LengthError>,
 {
    open spec fn visitable() -> bool {
        &&& T::can_visit()
        &&& <LEN as TryFromSpec<usize>>::obeys_try_from_spec()
        &&& <T::Error as FromSpec<LengthError>>::obeys_from_spec()
    }

    open spec fn visit_with_spec(self, before: T, after: T, outcome: Result<(), T::Error>) -> bool {
        match <LEN as TryFromSpec<usize>>::try_from_spec(self.count()) {
            Ok(len) => T::visit_spec(before, len, after, outcome),
            Err(_) => after == before && outcome == Err::<(), T::Error>(
                <T::Error as FromSpec<LengthError>>::from_spec(
                    LengthError::MakeCantFit { size: self.count() },
                ),
            ),
        }
    }

    fn visit_with(&self, visitor: &mut T) -> (outcome: Result<(), T::Error>) {
        match LEN::try_from(self.0) {
            Ok(len) => visitor.visit(&len),
            Err(_) => Err(T::Error::from(LengthError::MakeCantFit { size: self.0 })),
        }
    }
}

impl<LEN: TryFrom<usize>, V: Verify<usize>> TryFrom<usize> for LenMake<LEN, V> {
    type Error = LengthError;

    fn try_from(from: usize) -> (len: Result<Self, LengthError>) {
        let verified = V::verify(from);
        if from != verified {
            return Err(LengthError::Verify { from, verified });
        }
        Ok(Self::new(verified))
    }
}

impl<LEN: TryFrom<usize>, V: Verify<usize>> TryFromSpecImpl<usize> for LenMake<LEN, V> {
    open spec fn obeys_try_from_spec() -> bool {
        true
    }

    open spec fn try_from_spec(from: usize) -> Result<Self, LengthError> {
        match verified_length::<V>(from) {
            Ok(count) => Ok(Self::of(count)),
            Err(error) => Err(error),
        }
    }
}

// -------------------------------------------------------------------------
// The slot strategy

/// The strategy of a collection whose number of elements was written to slot
/// `SLOT` by a field before it. Nothing is encoded for it.
#[derive(Debug)]
pub struct LenSlot<V, const SLOT: usize>(pub(crate) usize, pub(crate) PhantomData<V>);

impl<V, const SLOT: usize> LenSlot<V, SLOT> {
    /// The number of elements that this length announces.
    pub closed spec fn count(self) -> usize {
        self.0
    }

    /// The length that announces `count` elements.
    pub closed spec fn of(count: usize) -> Self {
        LenSlot(count, PhantomData)
    }

    /// A length is determined by the number that it announces.
    pub proof fn lemma_of_count(count: usize)
        ensures
            Self::of(count).count() == count,
    {
    }

    /// A length is determined by the number that it announces.
    pub proof fn lemma_count_of(self)
        ensures
            Self::of(self.count()) == self,
    {
    }

    pub(crate) fn new(len: usize) -> (made: Self)
        ensures
            made == Self::of(len),
    {
        LenSlot(len, PhantomData)
    }
}

impl<V, const SLOT: usize> Default for LenSlot<V, SLOT> {
    fn default() -> (len: Self)
        ensures
            len == Self::of(0),
    {
        LenSlot(0, PhantomData)
    }
}

impl<D: TypeAnalyzer, V, const SLOT: usize> AnalyzeWith<D> for Length<LenSlot<V, SLOT>> {
    open spec fn analyzable() -> bool {
        true
    }

    open spec fn size_class() -> TypeSize {
        TypeSize::Dynamic
    }

    open spec fn fixed_size_spec(analyzer: &D) -> nat {
        0
    }

    open spec fn dynamic_size_spec(&self, analyzer: &D) -> nat {
        self.0.count() as nat
    }

    open spec fn conforms(&self, analyzer: &D) -> bool {
        true
    }

    fn const_size() -> (size: TypeSize) {
        TypeSize::Dynamic
    }

    /// A number of elements that is read from a slot is never known ahead: the
    /// classification is `Dynamic`, so that the precondition of this method
    /// admits no call.
    fn fixed_size(analyzer: &D) -> (size: usize) {
        0
    }

    fn dynamic_size(&self, analyzer: &D) -> (size: usize) {
        self.0.0
    }
}

impl<D: TypeAnalyzer, V, const SLOT: usize> AnalyzeWith<D> for LenSlot<V, SLOT> {
    open spec fn analyzable() -> bool {
        true
    }

    open spec fn size_class() -> TypeSize {
        TypeSize::Const(0)
    }

    open spec fn fixed_size_spec(analyzer: &D) -> nat {
        0
    }

    open spec fn dynamic_size_spec(&self, analyzer: &D) -> nat {
        0
    }

    open spec fn conforms(&self, analyzer: &D) -> bool {
        true
    }

    fn const_size() -> (size: TypeSize) {
        TypeSize::Const(0)
    }

    fn fixed_size(analyzer: &D) -> (size: usize) {
        0
    }

    fn dynamic_size(&self, analyzer: &D) -> (size: usize) {
        0
    }
}

impl<M, V: Verify<usize>, const SLOT: usize> MakeWith<M> for LenSlot<V, SLOT> where
    M: Maker + Has<Slots>,
    M::Error: From<LengthError>,
 {
    open spec fn makeable() -> bool {
        <M::Error as FromSpec<LengthError>>::obeys_from_spec()
    }

    open spec fn make_with_spec(before: M, after: M, outcome: Result<Self, M::Error>) -> bool {
        &&& after == before
        &&& outcome == match slot_value(before.part()@, SLOT) {
            Some(stored) => Ok(Self::of(V::verify_spec(stored as usize))),
            None => Err(
                <M::Error as FromSpec<LengthError>>::from_spec(
                    LengthError::SlotIsEmpty { slot: SLOT },
                ),
            ),
        }
    }

    fn make_with(maker: &mut M) -> (outcome: Result<Self, M::Error>) {
        let slots: &Slots = maker.give();
        match slots.load(SLOT) {
            Some(stored) => {
                let len = V::verify(stored as usize);
                Ok(LenSlot::new(len))
            },
            None => Err(M::Error::from(LengthError::SlotIsEmpty { slot: SLOT })),
        }
    }
}

impl<T, V, const SLOT: usize> VisitWith<T> for LenSlot<V, SLOT> where
    T: Visitor + Has<Slots>,
    T::Error: From<LengthError>,
 {
    open spec fn visitable() -> bool {
        <T::Error as FromSpec<LengthError>>::obeys_from_spec()
    }

    open spec fn visit_with_spec(self, before: T, after: T, outcome: Result<(), T::Error>) -> bool {
        &&& after == before
        &&& match slot_value(before.part()@, SLOT) {
            Some(stored) => if stored as usize == self.count() {
                outcome is Ok
            } else {
                outcome == Err::<(), T::Error>(
                    <T::Error as FromSpec<LengthError>>::from_spec(
                        LengthError::SlotNotEqual {
                            slot: SLOT,
                            stored: stored as usize,
                            from: self.count(),
                        },
                    ),
                )
            },
            None => outcome == Err::<(), T::Error>(
                <T::Error as FromSpec<LengthError>>::from_spec(
                    LengthError::SlotIsEmpty { slot: SLOT },
                ),
            ),
        }
    }

    fn visit_with(&self, visitor: &mut T) -> (outcome: Result<(), T::Error>) {
        let slots: &Slots = visitor.give();
        match slots.load(SLOT) {
            Some(stored) => {
                let len = stored as usize;
                if len != self.0 {
                    Err(
                        T::Error::from(
                            LengthError::SlotNotEqual { slot: SLOT, stored: len, from: self.0 },
                        ),
                    )
                } else {
                    Ok(())
                }
            },
            None => Err(T::Error::from(LengthError::SlotIsEmpty { slot: SLOT })),
        }
    }
}

impl<V: Verify<usize>, const SLOT: usize> TryFrom<usize> for LenSlot<V, SLOT> {
    type Error = LengthError;

    fn try_from(from: usize) -> (len: Result<Self, LengthError>) {
        let verified = V::verify(from);
        if from != verified {
            return Err(LengthError::Verify { from, verified });
        }
        Ok(Self::new(verified))
    }
}

impl<V: Verify<usize>, const SLOT: usize> TryFromSpecImpl<usize> for LenSlot<V, SLOT> {
    open spec fn obeys_try_from_spec() -> bool {
        true
    }

    open spec fn try_from_spec(from: usize) -> Result<Self, LengthError> {
        match verified_length::<V>(from) {
            Ok(count) => Ok(Self::of(count)),
            Err(error) => Err(error),
        }
    }
}

// -------------------------------------------------------------------------
// The strategy of a length that the context fixes

/// The strategy of a collection whose number of elements the context knows: it
/// is what the context gives as the fixed size of the marker type `LEN`, such as
/// the number of bytes that are left. Nothing is encoded for it.
#[derive(Debug)]
pub struct FixedLen<LEN> {
    actual: Option<usize>,
    fixed: PhantomData<LEN>,
}

impl<LEN> Clone for FixedLen<LEN> {
    fn clone(&self) -> (copy: Self)
        ensures
            copy == *self,
    {
        FixedLen { actual: self.actual, fixed: PhantomData }
    }
}

impl<LEN> FixedLen<LEN> {
    /// The number of elements of the collection that this length was taken
    /// from, if it was taken from one.
    pub closed spec fn actual(self) -> Option<usize> {
        self.actual
    }

    /// The length with the given number of elements, if any.
    pub closed spec fn of(actual: Option<usize>) -> Self {
        FixedLen { actual, fixed: PhantomData }
    }

    /// A length is determined by the number that it holds.
    pub proof fn lemma_of_actual(actual: Option<usize>)
        ensures
            Self::of(actual).actual() == actual,
    {
    }

    /// A length is determined by the number that it holds.
    pub proof fn lemma_actual_of(self)
        ensures
            Self::of(self.actual()) == self,
    {
    }

    /// The length as decoding finds it: the context holds the number.
    pub(crate) fn fixed() -> (len: Self)
        ensures
            len == Self::of(None),
    {
        FixedLen { actual: None, fixed: PhantomData }
    }

    /// The length of a collection of `actual` elements.
    pub(crate) fn from_actual_size(actual: usize) -> (len: Self)
        ensures
            len == Self::of(Some(actual)),
    {
        FixedLen { actual: Some(actual), fixed: PhantomData }
    }
}

impl<LEN> From<usize> for FixedLen<LEN> {
    fn from(value: usize) -> (len: Self) {
        Self::from_actual_size(value)
    }
}

impl<LEN> FromSpecImpl<usize> for FixedLen<LEN> {
    open spec fn obeys_from_spec() -> bool {
        true
    }

    open spec fn from_spec(value: usize) -> Self {
        Self::of(Some(value))
    }
}

impl<LEN, D: TypeAnalyzer + AnalyzeType<LEN>> AnalyzeWith<D> for Length<FixedLen<LEN>> {
    open spec fn analyzable() -> bool {
        D::type_analyzable() && !(D::type_size_class() is Dynamic)
    }

    open spec fn size_class() -> TypeSize {
        TypeSize::Fixed
    }

    open spec fn fixed_size_spec(analyzer: &D) -> nat {
        analyzer.type_fixed_size_spec()
    }

    open spec fn dynamic_size_spec(&self, analyzer: &D) -> nat {
        analyzer.type_fixed_size_spec()
    }

    open spec fn conforms(&self, analyzer: &D) -> bool {
        true
    }

    fn const_size() -> (size: TypeSize) {
        TypeSize::Fixed
    }

    fn fixed_size(analyzer: &D) -> (size: usize) {
        analyzer.type_fixed_size()
    }

    fn dynamic_size(&self, analyzer: &D) -> (size: usize) {
        analyzer.type_fixed_size()
    }
}

impl<LEN, D: TypeAnalyzer> AnalyzeWith<D> for FixedLen<LEN> {
    open spec fn analyzable() -> bool {
        true
    }

    open spec fn size_class() -> TypeSize {
        TypeSize::Const(0)
    }

    open spec fn fixed_size_spec(analyzer: &D) -> nat {
        0
    }

    open spec fn dynamic_size_spec(&self, analyzer: &D) -> nat {
        0
    }

    open spec fn conforms(&self, analyzer: &D) -> bool {
        true
    }

    fn const_size() -> (size: TypeSize) {
        TypeSize::Const(0)
    }

    fn fixed_size(analyzer: &D) -> (size: usize) {
        0
    }

    fn dynamic_size(&self, analyzer: &D) -> (size: usize) {
        0
    }
}

impl<M: Maker, LEN> MakeWith<M> for FixedLen<LEN> {
    open spec fn makeable() -> bool {
        true
    }

    open spec fn make_with_spec(before: M, after: M, outcome: Result<Self, M::Error>) -> bool {
        after == before && outcome == Ok::<Self, M::Error>(Self::of(None))
    }

    fn make_with(maker: &mut M) -> (outcome: Result<Self, M::Error>) {
        Ok(Self::fixed())
    }
}

impl<V, LEN> VisitWith<V> for FixedLen<LEN> where
    V: Visitor + AnalyzeType<LEN>,
    V::Error: From<LengthError>,
 {
    open spec fn visitable() -> bool {
        &&& V::type_analyzable()
        &&& !(V::type_size_class() is Dynamic)
        &&& <V::Error as FromSpec<LengthError>>::obeys_from_spec()
    }

    open spec fn visit_with_spec(self, before: V, after: V, outcome: Result<(), V::Error>) -> bool {
        let expected = saturate(before.type_fixed_size_spec());
        &&& after == before
        &&& if self.actual() == Some(expected) {
            outcome is Ok
        } else {
            outcome == Err::<(), V::Error>(
                <V::Error as FromSpec<LengthError>>::from_spec(
                    LengthError::FixedLength { expected, actual: self.actual() },
                ),
            )
        }
    }

    fn visit_with(&self, visitor: &mut V) -> (outcome: Result<(), V::Error>) {
        let expected = visitor.type_fixed_size();
        let same = match self.actual {
            Some(actual) => actual == expected,
            None => false,
        };
        if !same {
            Err(V::Error::from(LengthError::FixedLength { expected, actual: self.actual }))
        } else {
            Ok(())
        }
    }
}

// -------------------------------------------------------------------------
// The remainder strategy

/// The marker of the length that is all that is left of the input.
#[derive(Debug)]
pub struct Rest;

/// The strategy of a collection that takes all that is left of the input:
/// nothing is encoded for its length, and the context that knows how many
/// bytes are left gives it.
pub type LenRest = FixedLen<Rest>;

impl<A: TypeAnalyzer + BytesLeft> AnalyzeWith<A> for Rest {
    open spec fn analyzable() -> bool {
        true
    }

    open spec fn size_class() -> TypeSize {
        TypeSize::Fixed
    }

    open spec fn fixed_size_spec(analyzer: &A) -> nat {
        analyzer.bytes_left_spec() as nat
    }

    open spec fn dynamic_size_spec(&self, analyzer: &A) -> nat {
        analyzer.bytes_left_spec() as nat
    }

    open spec fn conforms(&self, analyzer: &A) -> bool {
        true
    }

    fn const_size() -> (size: TypeSize) {
        TypeSize::Fixed
    }

    fn fixed_size(analyzer: &A) -> (size: usize) {
        analyzer.bytes_left()
    }

    fn dynamic_size(&self, analyzer: &A) -> (size: usize) {
        analyzer.bytes_left()
    }
}

} // verus!
