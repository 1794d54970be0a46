//! What holds of the formats built from this library: that decoding gives back
//! what was encoded, and that the size analysis tells the length of the
//! encoding.
//!
//! A context is the collaborator's, so each statement is made of contexts that
//! behave: the conditions on the contexts and on the parts of a format are spec
//! functions here, and each law is proved of a building block from the
//! conditions on its parts. A context that leaves a block to the block itself
//! then has for the block what it has for the parts, so the laws pass from the
//! values at the bottom of a format to the whole of it.

use vstd::prelude::*;
use vstd::std_specs::convert::FromSpec;
use vstd::std_specs::convert::IntoSpec;
use vstd::std_specs::convert::TryFromSpec;
use crate::analysis::AnalyzeType;
use crate::analysis::AnalyzeWith;
use crate::analysis::TypeAnalyzer;
use crate::generics::blob::run_outcome;
use crate::generics::blob::BigArr;
use crate::generics::blob::BigStr;
use crate::generics::collections::items_outcome;
use crate::generics::collections::lemma_total_size_uniform;
use crate::generics::collections::made_run;
use crate::generics::collections::run_of;
use crate::generics::collections::total_size;
use crate::generics::collections::visited_run;
use crate::generics::collections::visits;
use crate::generics::collections::RepeatExt;
use crate::generics::condition::Condition;
use crate::generics::condition::Conditional;
use crate::generics::condition::ConditionalError;
use crate::generics::condition::Equal;
use crate::generics::condition::Flag;
use crate::generics::condition::Not;
use crate::generics::length::verified_length;
use crate::generics::record::lemma_total_of_two;
use crate::generics::length::FixedLen;
use crate::generics::length::LenConst;
use crate::generics::length::LenMake;
use crate::generics::length::LenSlot;
use crate::generics::length::Length;
use crate::generics::length::LengthError;
use crate::generics::length::MaxClamp;
use crate::generics::length::MaxSkip;
use crate::generics::length::Rest;
use crate::traits::BytesLeft;
use crate::generics::length::Verify;
use crate::generics::slots::slot_value;
use crate::generics::slots::SLOT_COUNT;
use crate::generics::slots::slot_store;
use crate::generics::slots::Load;
use crate::generics::slots::SlotLoadError;
use crate::generics::slots::SlotStoreError;
use crate::generics::slots::Slots;
use crate::generics::slots::Store;
use crate::generics::Has;
use crate::size::saturate;
use crate::traits::MakeBlob;
use crate::traits::VisitBlob;
use crate::key::RepresentKey;
use crate::traversal::make_keyed_spec;
use crate::traversal::visit_keyed_spec;
use crate::traversal::MakeType;
use crate::traversal::MakeWith;
use crate::traversal::Maker;
use crate::traversal::VisitType;
use crate::traversal::VisitWith;
use crate::traversal::Visitor;

verus! {

// -------------------------------------------------------------------------
// Length policies

/// Cutting a length down to `MAX` a second time changes nothing.
pub proof fn lemma_clamp_idempotent<const MAX: usize>(val: usize)
    ensures
        <MaxClamp<MAX> as Verify<usize>>::verify_spec(
            <MaxClamp<MAX> as Verify<usize>>::verify_spec(val),
        ) == <MaxClamp<MAX> as Verify<usize>>::verify_spec(val),
        <MaxClamp<MAX> as Verify<usize>>::verify_spec(val) <= MAX,
{
}

/// Reading a length above `MAX` as 0 a second time changes nothing.
pub proof fn lemma_skip_idempotent<const MAX: usize>(val: usize)
    ensures
        <MaxSkip<MAX> as Verify<usize>>::verify_spec(
            <MaxSkip<MAX> as Verify<usize>>::verify_spec(val),
        ) == <MaxSkip<MAX> as Verify<usize>>::verify_spec(val),
        <MaxSkip<MAX> as Verify<usize>>::verify_spec(val) <= MAX,
{
}

/// A length is taken for a collection exactly where the policy leaves it as it
/// is; this is what makes the length that is encoded the length that is read
/// back.
pub proof fn lemma_verified_length<V: Verify<usize>>(from: usize)
    ensures
        verified_length::<V>(from) is Ok <==> V::verify_spec(from) == from,
        verified_length::<V>(from) matches Ok(count) ==> count == from && V::verify_spec(count)
            == count,
        verified_length::<V>(from) matches Err(error) ==> error == (LengthError::Verify {
            from,
            verified: V::verify_spec(from),
        }),
{
}

// -------------------------------------------------------------------------
// Boundary cases of the length strategies

/// A collection is taken by the constant strategy exactly where it has `LEN`
/// elements; any other number is refused, and the refusal names both numbers.
pub proof fn lemma_const_length<const LEN: usize>(from: usize)
    ensures
        <LenConst<LEN> as TryFromSpec<usize>>::try_from_spec(from) is Ok <==> from == LEN,
        from != LEN ==> <LenConst<LEN> as TryFromSpec<usize>>::try_from_spec(from) == Err::<
            LenConst<LEN>,
            LengthError,
        >(LengthError::ConstNotEqual { const_size: LEN, from }),
{
}

/// Encoding a prefixed length fails, and leaves the context as it was, where
/// the number of elements is more than the length field can hold.
pub proof fn lemma_prefix_overflow<T, LEN: TryFrom<usize>, V>(
    len: LenMake<LEN, V>,
    before: T,
    after: T,
    outcome: Result<(), T::Error>,
) where T: Visitor + VisitType<LEN>, T::Error: From<LengthError>
    requires
        <LEN as TryFromSpec<usize>>::try_from_spec(len.count()) is Err,
        len.visit_with_spec(before, after, outcome),
    ensures
        after == before,
        outcome == Err::<(), T::Error>(
            <T::Error as FromSpec<LengthError>>::from_spec(
                LengthError::MakeCantFit { size: len.count() },
            ),
        ),
{
}

/// A length field of one byte holds no number above 255.
pub proof fn lemma_prefix_overflow_u8<T, V>(
    len: LenMake<u8, V>,
    before: T,
    after: T,
    outcome: Result<(), T::Error>,
) where T: Visitor + VisitType<u8>, T::Error: From<LengthError>
    requires
        len.count() > u8::MAX,
        len.visit_with_spec(before, after, outcome),
    ensures
        after == before,
        outcome == Err::<(), T::Error>(
            <T::Error as FromSpec<LengthError>>::from_spec(
                LengthError::MakeCantFit { size: len.count() },
            ),
        ),
{
}

/// A length field of two bytes holds no number above 65535.
pub proof fn lemma_prefix_overflow_u16<T, V>(
    len: LenMake<u16, V>,
    before: T,
    after: T,
    outcome: Result<(), T::Error>,
) where T: Visitor + VisitType<u16>, T::Error: From<LengthError>
    requires
        len.count() > u16::MAX,
        len.visit_with_spec(before, after, outcome),
    ensures
        after == before,
        outcome == Err::<(), T::Error>(
            <T::Error as FromSpec<LengthError>>::from_spec(
                LengthError::MakeCantFit { size: len.count() },
            ),
        ),
{
}

/// Whether a `V` encodes every `T` as the `T` encodes itself.
pub open spec fn visits_by_itself<V: VisitType<T>, T: VisitWith<V>>() -> bool {
    forall|before: V, target: T, after: V, outcome: Result<(), <V as Visitor>::Error>|
        #![trigger <V as VisitType<T>>::visit_spec(before, target, after, outcome)]
        <V as VisitType<T>>::visit_spec(before, target, after, outcome)
            ==> target.visit_with_spec(before, after, outcome)
}

/// Whether an `M` decodes every `T` as `T` decodes itself.
pub open spec fn makes_by_itself<M: MakeType<T>, T: MakeWith<M>>() -> bool {
    forall|before: M, after: M, outcome: Result<T, <M as Maker>::Error>|
        #![trigger <M as MakeType<T>>::make_spec(before, after, outcome)]
        <M as MakeType<T>>::make_spec(before, after, outcome) ==> T::make_with_spec(
            before,
            after,
            outcome,
        )
}

/// Encoding a collection with a prefixed length fails where it has more
/// elements than the length field can hold: the error names the number of
/// elements, the context is left as it was, and so no element is encoded.
pub proof fn lemma_repeat_prefix_overflow<V, T, LEN: TryFrom<usize>, P: Verify<usize>>(
    value: RepeatExt<T, LenMake<LEN, P>>,
    before: V,
    after: V,
    outcome: Result<(), <V as Visitor>::Error>,
) where
    V: VisitType<LenMake<LEN, P>> + VisitType<T> + VisitType<LEN> + Visitor,
    <V as Visitor>::Error: From<LengthError>,

    requires
        visits_by_itself::<V, LenMake<LEN, P>>(),
        verified_length::<P>(value.0@.len() as usize) is Ok,
        <LEN as TryFromSpec<usize>>::try_from_spec(value.0@.len() as usize) is Err,
        <RepeatExt<T, LenMake<LEN, P>> as VisitWith<V>>::visit_with_spec(
            value,
            before,
            after,
            outcome,
        ),
    ensures
        after == before,
        outcome == Err::<(), <V as Visitor>::Error>(
            <<V as Visitor>::Error as FromSpec<LengthError>>::from_spec(
                LengthError::MakeCantFit { size: value.0@.len() as usize },
            ),
        ),
{
    let count = value.0@.len() as usize;
    let len = LenMake::<LEN, P>::of(count);
    LenMake::<LEN, P>::lemma_of_count(count);
    let (mid, headed) = choose|mid: V, headed: Result<(), <V as Visitor>::Error>| #[trigger]
        <V as VisitType<LenMake<LEN, P>>>::visit_spec(before, len, mid, headed) && if headed is Err {
            after == mid && outcome == headed
        } else {
            visited_run(mid, value.0@, after, outcome)
        };
    assert(len.visit_with_spec(before, mid, headed));
}

/// Writing a run with a prefixed length fails where it has more elements than
/// the length field can hold: the error names the number of elements, the
/// context is left as it was, and so no element is written.
pub proof fn lemma_big_arr_prefix_overflow<V, T, LEN: TryFrom<usize>, P: Verify<usize>>(
    value: BigArr<T, LenMake<LEN, P>>,
    before: V,
    after: V,
    outcome: Result<(), <V as Visitor>::Error>,
) where
    V: VisitType<LenMake<LEN, P>> + VisitBlob<T> + VisitType<LEN> + Visitor,
    <V as Visitor>::Error: From<LengthError>,

    requires
        visits_by_itself::<V, LenMake<LEN, P>>(),
        verified_length::<P>(value.0@.len() as usize) is Ok,
        <LEN as TryFromSpec<usize>>::try_from_spec(value.0@.len() as usize) is Err,
        <BigArr<T, LenMake<LEN, P>> as VisitWith<V>>::visit_with_spec(
            value,
            before,
            after,
            outcome,
        ),
    ensures
        after == before,
        outcome == Err::<(), <V as Visitor>::Error>(
            <<V as Visitor>::Error as FromSpec<LengthError>>::from_spec(
                LengthError::MakeCantFit { size: value.0@.len() as usize },
            ),
        ),
{
    let count = value.0@.len() as usize;
    let len = LenMake::<LEN, P>::of(count);
    LenMake::<LEN, P>::lemma_of_count(count);
    let (mid, headed) = choose|mid: V, headed: Result<(), <V as Visitor>::Error>| #[trigger]
        <V as VisitType<LenMake<LEN, P>>>::visit_spec(before, len, mid, headed) && if headed is Err {
            after == mid && outcome == headed
        } else {
            <V as VisitBlob<T>>::visit_blob_spec(mid, value.0@, after, outcome)
        };
    assert(len.visit_with_spec(before, mid, headed));
}

// -------------------------------------------------------------------------
// Conditional fields

/// Encoding a conditional field that holds a value fails where the condition is
/// false, and leaves the context as it was.
pub proof fn lemma_present_but_false<V, C: Condition<V>, T>(
    field: Conditional<C, T>,
    before: V,
    after: V,
    outcome: Result<(), <V as Visitor>::Error>,
) where V: VisitType<T> + Visitor, <V as Visitor>::Error: From<ConditionalError>
    requires
        field.0 is Some,
        C::check_spec(&before) == Ok::<bool, ConditionalError>(false),
        field.visit_with_spec(before, after, outcome),
    ensures
        after == before,
        outcome == Err::<(), <V as Visitor>::Error>(
            <<V as Visitor>::Error as FromSpec<ConditionalError>>::from_spec(
                ConditionalError::ConditionalMismatch { is_some: true, check: false },
            ),
        ),
{
}

/// Encoding a conditional field that holds no value fails where the condition
/// is true, and leaves the context as it was.
pub proof fn lemma_absent_but_true<V, C: Condition<V>, T>(
    field: Conditional<C, T>,
    before: V,
    after: V,
    outcome: Result<(), <V as Visitor>::Error>,
) where V: VisitType<T> + Visitor, <V as Visitor>::Error: From<ConditionalError>
    requires
        field.0 is None,
        C::check_spec(&before) == Ok::<bool, ConditionalError>(true),
        field.visit_with_spec(before, after, outcome),
    ensures
        after == before,
        outcome == Err::<(), <V as Visitor>::Error>(
            <<V as Visitor>::Error as FromSpec<ConditionalError>>::from_spec(
                ConditionalError::ConditionalMismatch { is_some: false, check: true },
            ),
        ),
{
}

/// Encoding a conditional field succeeds only where the condition can be told
/// and the field holds a value exactly if the condition is true.
pub proof fn lemma_conditional_agrees<V, C: Condition<V>, T>(
    field: Conditional<C, T>,
    before: V,
    after: V,
    outcome: Result<(), <V as Visitor>::Error>,
) where V: VisitType<T> + Visitor, <V as Visitor>::Error: From<ConditionalError>
    requires
        field.visit_with_spec(before, after, outcome),
        outcome is Ok,
    ensures
        C::check_spec(&before) == Ok::<bool, ConditionalError>(field.0 is Some),
{
}

// -------------------------------------------------------------------------
// Reading a slot that was never written

/// A field whose value is read from a slot that was never written is not
/// decoded: the failure says that the slot is empty.
pub proof fn lemma_load_unwritten<M, T, const SLOT: usize>(
    before: M,
    after: M,
    outcome: Result<Load<T, SLOT>, <M as Maker>::Error>,
) where
    M: Maker + Has<Slots>,
    T: TryFrom<u32>,
    <M as Maker>::Error: From<SlotLoadError<<T as TryFrom<u32>>::Error>>,

    requires
        slot_value(before.part()@, SLOT) is None,
        <Load<T, SLOT> as MakeWith<M>>::make_with_spec(before, after, outcome),
    ensures
        after == before,
        outcome == Err::<Load<T, SLOT>, <M as Maker>::Error>(
            <<M as Maker>::Error as FromSpec<
                SlotLoadError<<T as TryFrom<u32>>::Error>,
            >>::from_spec(SlotLoadError::EmptySlot),
        ),
{
}

/// A length that is carried by a slot that was never written is not decoded:
/// the failure names the slot.
pub proof fn lemma_slot_length_unwritten<M, V: Verify<usize>, const SLOT: usize>(
    before: M,
    after: M,
    outcome: Result<LenSlot<V, SLOT>, M::Error>,
) where M: Maker + Has<Slots>, M::Error: From<LengthError>
    requires
        slot_value(before.part()@, SLOT) is None,
        <LenSlot<V, SLOT> as MakeWith<M>>::make_with_spec(before, after, outcome),
    ensures
        after == before,
        outcome == Err::<LenSlot<V, SLOT>, M::Error>(
            <M::Error as FromSpec<LengthError>>::from_spec(
                LengthError::SlotIsEmpty { slot: SLOT },
            ),
        ),
{
}

/// A condition on a slot that was never written cannot be told.
pub proof fn lemma_condition_unwritten<D: Has<Slots>, const VAL: u32, const SLOT: usize>(data: &D)
    requires
        slot_value(data.part()@, SLOT) is None,
    ensures
        <Flag<VAL, SLOT> as Condition<D>>::check_spec(data) == Err::<bool, ConditionalError>(
            ConditionalError::SlotIsEmpty { slot: SLOT },
        ),
        <Equal<VAL, SLOT> as Condition<D>>::check_spec(data) == Err::<bool, ConditionalError>(
            ConditionalError::SlotIsEmpty { slot: SLOT },
        ),
{
}

/// A field that publishes its value leaves the register as a write of the value
/// leaves it: where the slot takes the value it holds the value afterwards,
/// where it refuses the value the failure names the value that it holds and
/// the register is as it was, and no other slot changes.
pub proof fn lemma_published<M, T, const SLOT: usize>(
    mid: M,
    inner: T,
    val: u32,
    after: M,
    outcome: Result<Store<T, SLOT>, <M as Maker>::Error>,
) where
    M: Maker + Has<Slots>,
    T: Into<u32> + Clone,
    <M as Maker>::Error: From<SlotStoreError>,

    requires
        SLOT < SLOT_COUNT,
        Store::<T, SLOT>::published(mid, inner, val, after, outcome),
    ensures
        after.part()@ == slot_store(mid.part()@, SLOT as int, val).0,
        outcome is Ok <==> slot_store(mid.part()@, SLOT as int, val).1 is Ok,
        outcome is Ok ==> slot_value(after.part()@, SLOT) == Some::<u32>(val),
        outcome is Err ==> after.part() == mid.part(),
        slot_value(mid.part()@, SLOT) is Some && slot_value(mid.part()@, SLOT)->0 != val
            ==> outcome == Err::<Store<T, SLOT>, <M as Maker>::Error>(
            <<M as Maker>::Error as FromSpec<SlotStoreError>>::from_spec(
                SlotStoreError::Conflict {
                    slot: SLOT,
                    stored: slot_value(mid.part()@, SLOT)->0,
                    value: val,
                },
            ),
        ),
        forall|other: usize|
            other != SLOT ==> slot_value(after.part()@, other) == slot_value(mid.part()@, other),
{
    mid.part().lemma_len();
    mid.part().lemma_stored(SLOT as int, val);
}

/// Whether a clone of a `T` publishes what the `T` itself turns into.
pub open spec fn clone_keeps_value<T: Into<u32> + Clone>() -> bool {
    forall|value: T, copy: T| #[trigger] cloned(value, copy) ==> copy.into_spec() == value.into_spec()
}

/// Where a clone publishes what its value turns into, that is all that a field
/// publishes.
pub proof fn lemma_publishes<T: Into<u32> + Clone, const SLOT: usize>(inner: T, val: u32)
    requires
        clone_keeps_value::<T>(),
        Store::<T, SLOT>::publishes(inner, val),
    ensures
        val == inner.into_spec(),
{
    let copy = choose|copy: T| cloned(inner, copy) && val == #[trigger] copy.into_spec();
    assert(cloned(inner, copy));
}

/// Encoding a field that publishes its value fails, and leaves the register as
/// it was, where the slot holds another value.
pub proof fn lemma_store_refused<V, T, const SLOT: usize>(
    field: Store<T, SLOT>,
    before: V,
    after: V,
    outcome: Result<(), <V as Visitor>::Error>,
    held: u32,
) where
    V: VisitType<T> + Visitor + Has<Slots>,
    T: Into<u32> + Clone,
    <V as Visitor>::Error: From<SlotStoreError>,

    requires
        SLOT < SLOT_COUNT,
        clone_keeps_value::<T>(),
        slot_value(before.part()@, SLOT) == Some(held),
        held != field.inner.into_spec(),
        <Store<T, SLOT> as VisitWith<V>>::visit_with_spec(field, before, after, outcome),
    ensures
        after.part() == before.part(),
        outcome == Err::<(), <V as Visitor>::Error>(
            <<V as Visitor>::Error as FromSpec<SlotStoreError>>::from_spec(
                SlotStoreError::Conflict {
                    slot: SLOT,
                    stored: held,
                    value: field.inner.into_spec(),
                },
            ),
        ),
{
    let val = choose|val: u32|
        Store::<T, SLOT>::publishes(field.inner, val) && #[trigger] field.encoded(
            val,
            before,
            after,
            outcome,
        );
    lemma_publishes::<T, SLOT>(field.inner, val);
    before.part().lemma_len();
    before.part().lemma_stored(SLOT as int, val);
}

// -------------------------------------------------------------------------
// The three answers of the size analysis agree

/// Whether the three answers that `T` gives under contexts of type `A` agree: a
/// constant is the size under every context, and where the classification is
/// not `Dynamic` the size under a context is the size of each well-shaped
/// instance.
pub open spec fn size_consistent<A: TypeAnalyzer, T: AnalyzeWith<A>>() -> bool {
    &&& forall|analyzer: &A|
        #![trigger T::fixed_size_spec(analyzer)]
        T::size_class() is Const ==> T::fixed_size_spec(analyzer) == T::size_class().const_part()
    &&& forall|value: T, analyzer: &A|
        #![trigger value.dynamic_size_spec(analyzer)]
        value.conforms(analyzer) && !(T::size_class() is Dynamic) ==> value.dynamic_size_spec(
            analyzer,
        ) == T::fixed_size_spec(analyzer)
}

/// Whether the three answers that contexts of type `D` give of `T` agree.
pub open spec fn type_size_consistent<D: AnalyzeType<T>, T>() -> bool {
    &&& forall|analyzer: &D|
        #![trigger analyzer.type_fixed_size_spec()]
        D::type_size_class() is Const ==> analyzer.type_fixed_size_spec()
            == D::type_size_class().const_part()
    &&& forall|value: T, analyzer: &D|
        #![trigger analyzer.type_dynamic_size_spec(&value)]
        analyzer.type_conforms(&value) && !(D::type_size_class() is Dynamic)
            ==> analyzer.type_dynamic_size_spec(&value) == analyzer.type_fixed_size_spec()
}

/// The constant strategy is sized consistently, as a header of no bytes and as
/// a number of elements.
pub proof fn lemma_len_const_consistent<D: TypeAnalyzer, const LEN: usize>()
    ensures
        size_consistent::<D, LenConst<LEN>>(),
        size_consistent::<D, Length<LenConst<LEN>>>(),
{
}

/// The prefixed strategy is sized consistently, as a header of the width of its
/// field and as a number of elements.
pub proof fn lemma_len_make_consistent<D: TypeAnalyzer, LEN, V>()
    requires
        <LenMake<LEN, V> as AnalyzeWith<D>>::analyzable(),
    ensures
        size_consistent::<D, LenMake<LEN, V>>(),
        size_consistent::<D, Length<LenMake<LEN, V>>>(),
{
}

/// The slot strategy is sized consistently, as a header of no bytes and as a
/// number of elements.
pub proof fn lemma_len_slot_consistent<D: TypeAnalyzer, V, const SLOT: usize>()
    ensures
        size_consistent::<D, LenSlot<V, SLOT>>(),
        size_consistent::<D, Length<LenSlot<V, SLOT>>>(),
{
}

/// The strategy of a length that the context fixes is sized consistently, as a
/// header of no bytes and as a number of elements.
pub proof fn lemma_fixed_len_consistent<D: TypeAnalyzer + AnalyzeType<LEN>, LEN>()
    ensures
        size_consistent::<D, FixedLen<LEN>>(),
        size_consistent::<D, Length<FixedLen<LEN>>>(),
{
}

/// The length of all that is left is sized consistently: it is whatever the
/// context says is left.
pub proof fn lemma_rest_consistent<D: TypeAnalyzer + BytesLeft>()
    ensures
        size_consistent::<D, Rest>(),
{
}

/// A field that publishes its value is sized consistently where the value is.
pub proof fn lemma_store_consistent<D: TypeAnalyzer, T: AnalyzeWith<D>, const SLOT: usize>()
    requires
        size_consistent::<D, T>(),
    ensures
        size_consistent::<D, Store<T, SLOT>>(),
{
    assert forall|analyzer: &D| <Store<T, SLOT> as AnalyzeWith<D>>::size_class() is Const implies #[trigger] <Store<T, SLOT> as AnalyzeWith<
        D,
    >>::fixed_size_spec(analyzer) == <Store<T, SLOT> as AnalyzeWith<D>>::size_class().const_part() by {
        assert(<Store<T, SLOT> as AnalyzeWith<D>>::fixed_size_spec(analyzer) == T::fixed_size_spec(
            analyzer,
        ));
    }
    assert forall|value: Store<T, SLOT>, analyzer: &D|
        value.conforms(analyzer) && !(<Store<T, SLOT> as AnalyzeWith<D>>::size_class() is Dynamic)
        implies #[trigger] value.dynamic_size_spec(analyzer) == <Store<T, SLOT> as AnalyzeWith<
        D,
    >>::fixed_size_spec(analyzer) by {
        assert(value.dynamic_size_spec(analyzer) == value.inner.dynamic_size_spec(analyzer));
    }
}

/// A conditional field is sized consistently where its value is: a field that
/// is present exactly where the condition holds has the size that the condition
/// fixes.
pub proof fn lemma_conditional_consistent<D: TypeAnalyzer, C: Condition<D>, T: AnalyzeWith<D>>()
    requires
        <Conditional<C, T> as AnalyzeWith<D>>::analyzable(),
        size_consistent::<D, T>(),
    ensures
        size_consistent::<D, Conditional<C, T>>(),
{
    assert forall|value: Conditional<C, T>, analyzer: &D|
        value.conforms(analyzer) && !(<Conditional<C, T> as AnalyzeWith<D>>::size_class() is Dynamic)
        implies #[trigger] value.dynamic_size_spec(analyzer) == <Conditional<C, T> as AnalyzeWith<
        D,
    >>::fixed_size_spec(analyzer) by {
        if let Some(inner) = value.0 {
            assert(inner.dynamic_size_spec(analyzer) == T::fixed_size_spec(analyzer));
        }
    }
}

/// A collection is sized consistently where its elements and the number that
/// its strategy announces are: a constant number of constant elements takes the
/// constant, and a collection of the length that its strategy fixes takes the
/// size that the context fixes.
pub proof fn lemma_repeat_consistent<D: TypeAnalyzer, T: AnalyzeWith<D>, LEN: AnalyzeWith<D>>() where
    Length<LEN>: AnalyzeWith<D>,

    requires
        <RepeatExt<T, LEN> as AnalyzeWith<D>>::analyzable(),
        size_consistent::<D, T>(),
        size_consistent::<D, Length<LEN>>(),
    ensures
        size_consistent::<D, RepeatExt<T, LEN>>(),
{
    assert forall|analyzer: &D| <RepeatExt<T, LEN> as AnalyzeWith<D>>::size_class() is Const implies #[trigger] <RepeatExt<T, LEN> as AnalyzeWith<
        D,
    >>::fixed_size_spec(analyzer) == <RepeatExt<T, LEN> as AnalyzeWith<D>>::size_class().const_part() by {
        let bytes = T::fixed_size_spec(analyzer);
        let count = <Length<LEN> as AnalyzeWith<D>>::fixed_size_spec(analyzer);
        assert(bytes * count == count * bytes) by (nonlinear_arith);
    }
    assert forall|value: RepeatExt<T, LEN>, analyzer: &D|
        value.conforms(analyzer) && !(<RepeatExt<T, LEN> as AnalyzeWith<D>>::size_class() is Dynamic)
        implies #[trigger] value.dynamic_size_spec(analyzer) == <RepeatExt<T, LEN> as AnalyzeWith<
        D,
    >>::fixed_size_spec(analyzer) by {
        let each = T::fixed_size_spec(analyzer);
        assert forall|i: int| 0 <= i < value.0@.len() implies (#[trigger] value.0@[i]).dynamic_size_spec(
            analyzer,
        ) == each by {
            assert(value.0@[i].conforms(analyzer));
        }
        lemma_total_size_uniform(value.0@, analyzer, each);
    }
}

/// A run is sized consistently where the number that its strategy announces is.
pub proof fn lemma_big_arr_consistent<D, T, LEN>() where
    D: TypeAnalyzer + AnalyzeType<LEN> + AnalyzeType<Length<LEN>>,

    requires
        <BigArr<T, LEN> as AnalyzeWith<D>>::analyzable(),
        type_size_consistent::<D, Length<LEN>>(),
    ensures
        size_consistent::<D, BigArr<T, LEN>>(),
{
    assert forall|analyzer: &D| <BigArr<T, LEN> as AnalyzeWith<D>>::size_class() is Const implies #[trigger] <BigArr<T, LEN> as AnalyzeWith<
        D,
    >>::fixed_size_spec(analyzer) == <BigArr<T, LEN> as AnalyzeWith<D>>::size_class().const_part() by {
        let bytes = vstd::layout::size_of::<T>();
        let count = <D as AnalyzeType<Length<LEN>>>::type_fixed_size_spec(analyzer);
        assert(bytes * count == count * bytes) by (nonlinear_arith);
    }
    assert forall|value: BigArr<T, LEN>, analyzer: &D|
        value.conforms(analyzer) && !(<BigArr<T, LEN> as AnalyzeWith<D>>::size_class() is Dynamic)
        implies #[trigger] value.dynamic_size_spec(analyzer) == <BigArr<T, LEN> as AnalyzeWith<
        D,
    >>::fixed_size_spec(analyzer) by {
    }
}

/// A text is sized consistently where the context sizes its run consistently.
pub proof fn lemma_big_str_consistent<D, LEN>() where
    D: TypeAnalyzer + AnalyzeType<BigArr<u8, LEN>>,

    requires
        type_size_consistent::<D, BigArr<u8, LEN>>(),
    ensures
        size_consistent::<D, BigStr<LEN>>(),
{
    assert forall|analyzer: &D| <BigStr<LEN> as AnalyzeWith<D>>::size_class() is Const implies #[trigger] <BigStr<LEN> as AnalyzeWith<
        D,
    >>::fixed_size_spec(analyzer) == <BigStr<LEN> as AnalyzeWith<D>>::size_class().const_part() by {
        assert(<BigStr<LEN> as AnalyzeWith<D>>::fixed_size_spec(analyzer)
            == analyzer.type_fixed_size_spec());
    }
    assert forall|value: BigStr<LEN>, analyzer: &D|
        value.conforms(analyzer) && !(<BigStr<LEN> as AnalyzeWith<D>>::size_class() is Dynamic)
        implies #[trigger] value.dynamic_size_spec(analyzer) == <BigStr<LEN> as AnalyzeWith<
        D,
    >>::fixed_size_spec(analyzer) by {
        assert(value.dynamic_size_spec(analyzer) == analyzer.type_dynamic_size_spec(&value.0));
    }
}

/// Whether the size that contexts of type `D` give of a `T` is the same under
/// every such context.
pub open spec fn type_size_context_free<D: AnalyzeType<T>, T>() -> bool {
    forall|value: T, one: &D, other: &D|
        #![trigger one.type_dynamic_size_spec(&value), other.type_dynamic_size_spec(&value)]
        one.type_dynamic_size_spec(&value) == other.type_dynamic_size_spec(&value)
}

/// A record is sized consistently where its fields are: the classes of the
/// fields compose by the rule for sums, and the sizes add up.
pub proof fn lemma_pair_consistent<D, A, B>() where
    D: TypeAnalyzer + AnalyzeType<A> + AnalyzeType<B>,

    requires
        <(A, B) as AnalyzeWith<D>>::analyzable(),
        type_size_consistent::<D, A>(),
        type_size_consistent::<D, B>(),
    ensures
        size_consistent::<D, (A, B)>(),
{
    lemma_total_of_two(
        <D as AnalyzeType<A>>::type_size_class(),
        <D as AnalyzeType<B>>::type_size_class(),
    );
    assert forall|analyzer: &D| <(A, B) as AnalyzeWith<D>>::size_class() is Const implies #[trigger] <(
        A,
        B,
    ) as AnalyzeWith<D>>::fixed_size_spec(analyzer) == <(A, B) as AnalyzeWith<
        D,
    >>::size_class().const_part() by {
        assert(<D as AnalyzeType<A>>::type_fixed_size_spec(analyzer) == <D as AnalyzeType<
            A,
        >>::type_size_class().const_part());
        assert(<D as AnalyzeType<B>>::type_fixed_size_spec(analyzer) == <D as AnalyzeType<
            B,
        >>::type_size_class().const_part());
    }
    assert forall|value: (A, B), analyzer: &D|
        value.conforms(analyzer) && !(<(A, B) as AnalyzeWith<D>>::size_class() is Dynamic)
        implies #[trigger] value.dynamic_size_spec(analyzer) == <(A, B) as AnalyzeWith<
        D,
    >>::fixed_size_spec(analyzer) by {
        assert(analyzer.type_dynamic_size_spec(&value.0) == <D as AnalyzeType<
            A,
        >>::type_fixed_size_spec(analyzer));
        assert(analyzer.type_dynamic_size_spec(&value.1) == <D as AnalyzeType<
            B,
        >>::type_fixed_size_spec(analyzer));
    }
}

// -------------------------------------------------------------------------
// What a context emits

/// Whether the context `after` has emitted all that `before` had, in the same
/// order, and possibly more.
pub open spec fn extends<V: Visitor>(before: V, after: V) -> bool {
    before.emitted().is_prefix_of(after.emitted())
}

/// The bytes that take the context `before` to the context `after`.
pub open spec fn appended<V: Visitor>(before: V, after: V) -> Seq<u8> {
    after.emitted().skip(before.emitted().len() as int)
}

/// What is emitted in two steps is what the first step emits followed by what
/// the second emits.
pub proof fn lemma_appended_twice<V: Visitor>(first: V, second: V, third: V)
    requires
        extends(first, second),
        extends(second, third),
    ensures
        extends(first, third),
        appended(first, third) == appended(first, second) + appended(second, third),
{
    assert(first.emitted() =~= third.emitted().subrange(0, first.emitted().len() as int));
    assert(appended(first, third) =~= appended(first, second) + appended(second, third));
}

/// Nothing is emitted between a context and itself.
pub proof fn lemma_appended_none<V: Visitor>(context: V)
    ensures
        extends(context, context),
        appended(context, context) == Seq::<u8>::empty(),
{
    assert(context.emitted() =~= context.emitted().subrange(0, context.emitted().len() as int));
    assert(appended(context, context) =~= Seq::<u8>::empty());
}

/// Whether the slot register of an encoding context is apart from what it has
/// emitted: a context with another register has emitted the same.
pub open spec fn visitor_slots_apart<V: Visitor + Has<Slots>>() -> bool {
    forall|visitor: V, slots: Slots|
        #![trigger visitor.with_part(slots)]
        visitor.with_part(slots).emitted() == visitor.emitted()
}

/// Whether the slot register of a decoding context is apart from what it has
/// yet to consume: a context with another register has the same bytes pending.
pub open spec fn maker_slots_apart<M: Maker + Has<Slots>>() -> bool {
    forall|maker: M, slots: Slots|
        #![trigger maker.with_part(slots)]
        maker.with_part(slots).pending() == maker.pending()
}

/// Whether every successful encoding of a `T` by a `V` only adds to what the
/// context has emitted, and adds as many bytes as `size` says of the context
/// and the value.
pub open spec fn emits<V: VisitType<T>, T>(size: spec_fn(V, T) -> nat) -> bool {
    forall|before: V, value: T, after: V, outcome: Result<(), <V as Visitor>::Error>|
        #![trigger V::visit_spec(before, value, after, outcome)]
        V::visit_spec(before, value, after, outcome) && outcome is Ok ==> extends(before, after)
            && appended(before, after).len() == size(before, value)
}

/// Whether every successful writing of a run of `T` by a `V` only adds to what
/// the context has emitted, and adds the size of a `T` for each element.
pub open spec fn emits_blob<V: VisitBlob<T>, T>() -> bool {
    forall|before: V, blob: Seq<T>, after: V, outcome: Result<(), <V as Visitor>::Error>|
        #![trigger V::visit_blob_spec(before, blob, after, outcome)]
        V::visit_blob_spec(before, blob, after, outcome) && outcome is Ok ==> extends(
            before,
            after,
        ) && appended(before, after).len() == blob.len() * vstd::layout::size_of::<T>()
}

/// Whether the size of a `T` is the same under every context of type `A`.
pub open spec fn size_context_free<A: TypeAnalyzer, T: AnalyzeWith<A>>() -> bool {
    forall|value: T, one: &A, other: &A|
        #![trigger value.dynamic_size_spec(one), value.dynamic_size_spec(other)]
        value.dynamic_size_spec(one) == value.dynamic_size_spec(other)
}

/// The constant strategy emits nothing: encoding it leaves the context as it
/// was, which is the size of 0 that the analysis gives it.
pub proof fn lemma_len_const_sized<V: Visitor + TypeAnalyzer, const N: usize>(
    len: LenConst<N>,
    before: V,
    after: V,
    outcome: Result<(), V::Error>,
)
    requires
        len.visit_with_spec(before, after, outcome),
    ensures
        after == before,
        len.dynamic_size_spec(&before) == 0,
{
}

/// The slot strategy emits nothing: encoding it leaves the context as it was,
/// which is the size of 0 that the analysis gives it.
pub proof fn lemma_len_slot_sized<V, P, const SLOT: usize>(
    len: LenSlot<P, SLOT>,
    before: V,
    after: V,
    outcome: Result<(), V::Error>,
) where V: Visitor + Has<Slots> + TypeAnalyzer, V::Error: From<LengthError>
    requires
        len.visit_with_spec(before, after, outcome),
    ensures
        after == before,
        len.dynamic_size_spec(&before) == 0,
{
}

/// The strategy of a length that the context fixes emits nothing: encoding it
/// leaves the context as it was, which is the size of 0 that the analysis
/// gives it.
pub proof fn lemma_fixed_len_sized<V, LEN>(
    len: FixedLen<LEN>,
    before: V,
    after: V,
    outcome: Result<(), V::Error>,
) where V: Visitor + AnalyzeType<LEN>, V::Error: From<LengthError>
    requires
        len.visit_with_spec(before, after, outcome),
    ensures
        after == before,
        len.dynamic_size_spec(&before) == 0,
{
}

/// A prefixed length emits as many bytes as the analysis says: the width of its
/// field, where the context emits that many for a value of the field's type.
pub proof fn lemma_len_make_sized<V, LEN: TryFrom<usize>, P>(
    len: LenMake<LEN, P>,
    before: V,
    after: V,
    outcome: Result<(), V::Error>,
) where V: Visitor + VisitType<LEN> + TypeAnalyzer, V::Error: From<LengthError>
    requires
        emits::<V, LEN>(|context: V, value: LEN| vstd::layout::size_of::<LEN>()),
        len.visit_with_spec(before, after, outcome),
        outcome is Ok,
    ensures
        extends(before, after),
        appended(before, after).len() == len.dynamic_size_spec(&before),
{
    let raw = <LEN as TryFromSpec<usize>>::try_from_spec(len.count())->Ok_0;
    assert(V::visit_spec(before, raw, after, outcome));
}

/// A field that publishes its value emits as many bytes as the analysis says,
/// where its value does and the size of the value is the same under every
/// context.
pub proof fn lemma_store_sized<V, T, const SLOT: usize>(
    field: Store<T, SLOT>,
    before: V,
    after: V,
    outcome: Result<(), <V as Visitor>::Error>,
) where
    V: VisitType<T> + Visitor + Has<Slots> + TypeAnalyzer,
    T: Into<u32> + Clone + AnalyzeWith<V>,
    <V as Visitor>::Error: From<SlotStoreError>,

    requires
        visitor_slots_apart::<V>(),
        emits::<V, T>(|context: V, value: T| value.dynamic_size_spec(&context)),
        size_context_free::<V, T>(),
        <Store<T, SLOT> as VisitWith<V>>::visit_with_spec(field, before, after, outcome),
        outcome is Ok,
    ensures
        extends(before, after),
        appended(before, after).len() == <Store<T, SLOT> as AnalyzeWith<V>>::dynamic_size_spec(
            &field,
            &before,
        ),
{
    let val = choose|val: u32|
        Store::<T, SLOT>::publishes(field.inner, val) && #[trigger] field.encoded(
            val,
            before,
            after,
            outcome,
        );
    let written = before.with_part(before.part().stored(SLOT as int, val));
    assert(V::visit_spec(written, field.inner, after, outcome));
    assert(written.emitted() == before.emitted());
    assert(field.inner.dynamic_size_spec(&written) == field.inner.dynamic_size_spec(&before));
    assert(appended(before, after) == appended(written, after));
}

/// A conditional field emits as many bytes as the analysis says, where its
/// value does: those of the value where it is present, and none where it is
/// absent.
pub proof fn lemma_conditional_sized<V, C, T>(
    field: Conditional<C, T>,
    before: V,
    after: V,
    outcome: Result<(), <V as Visitor>::Error>,
) where
    V: VisitType<T> + Visitor + TypeAnalyzer,
    C: Condition<V>,
    T: AnalyzeWith<V>,
    <V as Visitor>::Error: From<ConditionalError>,

    requires
        emits::<V, T>(|context: V, value: T| value.dynamic_size_spec(&context)),
        <Conditional<C, T> as VisitWith<V>>::visit_with_spec(field, before, after, outcome),
        outcome is Ok,
    ensures
        extends(before, after),
        appended(before, after).len() == <Conditional<C, T> as AnalyzeWith<V>>::dynamic_size_spec(
            &field,
            &before,
        ),
{
    match field.0 {
        Some(inner) => {
            assert(V::visit_spec(before, inner, after, outcome));
        },
        None => {
            lemma_appended_none(before);
        },
    }
}

/// Whether the scopes of an encoding context leave no trace: entering a scope
/// and leaving one give the context as it was.
pub open spec fn visitor_scopes_plain<V: Visitor>() -> bool {
    &&& forall|before: V, key: RepresentKey, inside: V| #[trigger]
        V::enters(before, key, inside) ==> inside == before
    &&& forall|inside: V, key: RepresentKey, after: V| #[trigger]
        V::leaves(inside, key, after) ==> after == inside
}

/// Whether the scopes of a decoding context leave no trace: entering a scope
/// and leaving one give the context as it was.
pub open spec fn maker_scopes_plain<M: Maker>() -> bool {
    &&& forall|before: M, key: RepresentKey, inside: M| #[trigger]
        M::enters(before, key, inside) ==> inside == before
    &&& forall|inside: M, key: RepresentKey, after: M| #[trigger]
        M::leaves(inside, key, after) ==> after == inside
}

/// Where scopes leave no trace, encoding within a scope is encoding.
pub proof fn lemma_keyed_visit<V: VisitType<T>, T>(
    before: V,
    key: RepresentKey,
    target: T,
    after: V,
    outcome: Result<(), <V as Visitor>::Error>,
)
    requires
        visitor_scopes_plain::<V>(),
        visit_keyed_spec(before, key, target, after, outcome),
    ensures
        V::visit_spec(before, target, after, outcome),
{
    let (inside, done) = choose|inside: V, done: V|
        (inside == before || V::enters(before, key, inside)) && #[trigger] V::visit_spec(
            inside,
            target,
            done,
            outcome,
        ) && (after == done || V::leaves(done, key, after));
    assert(inside == before);
    assert(after == done);
}

/// Where scopes leave no trace, decoding within a scope is decoding.
pub proof fn lemma_keyed_make<M: MakeType<T>, T>(
    before: M,
    key: RepresentKey,
    after: M,
    outcome: Result<T, <M as Maker>::Error>,
)
    requires
        maker_scopes_plain::<M>(),
        make_keyed_spec(before, key, after, outcome),
    ensures
        M::make_spec(before, after, outcome),
{
    let (inside, done) = choose|inside: M, done: M|
        (inside == before || M::enters(before, key, inside)) && #[trigger] M::make_spec(
            inside,
            done,
            outcome,
        ) && (after == done || M::leaves(done, key, after));
    assert(inside == before);
    assert(after == done);
}

/// Whether encoding the first `done` of `items` one after the other succeeds
/// and takes the context along `states`.
pub open spec fn plainly_visits<V: VisitType<T>, T>(states: Seq<V>, items: Seq<T>, done: int) -> bool {
    &&& 0 <= done <= items.len()
    &&& states.len() == done + 1
    &&& forall|i: int|
        #![trigger items[i]]
        0 <= i < done ==> V::visit_spec(states[i], items[i], states[i + 1], Ok(()))
}

/// Whether decoding one `T` after another takes the context along `states` and
/// yields `items`.
pub open spec fn plain_run_of<M: MakeType<T>, T>(states: Seq<M>, items: Seq<T>) -> bool {
    &&& states.len() == items.len() + 1
    &&& forall|i: int|
        #![trigger items[i]]
        0 <= i < items.len() ==> M::make_spec(states[i], states[i + 1], Ok(items[i]))
}

/// Where scopes leave no trace, a run of encodings within scopes is a run of
/// encodings.
pub proof fn lemma_visits_plainly<V: VisitType<T>, T>(states: Seq<V>, items: Seq<T>, done: int)
    requires
        visitor_scopes_plain::<V>(),
        visits(states, items, done),
    ensures
        plainly_visits(states, items, done),
{
    assert forall|i: int| 0 <= i < done implies V::visit_spec(
        states[i],
        #[trigger] items[i],
        states[i + 1],
        Ok(()),
    ) by {
        lemma_keyed_visit(
            states[i],
            RepresentKey::Usize(i as usize),
            items[i],
            states[i + 1],
            Ok::<(), <V as Visitor>::Error>(()),
        );
    }
}

/// Where scopes leave no trace, a run of decodings within scopes is a run of
/// decodings.
pub proof fn lemma_run_of_plainly<M: MakeType<T>, T>(states: Seq<M>, items: Seq<T>)
    requires
        maker_scopes_plain::<M>(),
        run_of(states, items),
    ensures
        plain_run_of(states, items),
{
    assert forall|i: int| 0 <= i < items.len() implies M::make_spec(
        states[i],
        states[i + 1],
        Ok(#[trigger] items[i]),
    ) by {
        lemma_keyed_make(
            states[i],
            RepresentKey::Usize(i as usize),
            states[i + 1],
            Ok::<T, <M as Maker>::Error>(items[i]),
        );
    }
}

/// Where each encoding of an item only adds to what the context has emitted,
/// each context along a run has emitted all that the contexts before it had.
pub proof fn lemma_visits_extend<V: VisitType<T>, T>(
    states: Seq<V>,
    items: Seq<T>,
    done: int,
    from: int,
    to: int,
)
    requires
        appends::<V, T>(),
        plainly_visits(states, items, done),
        0 <= from <= to <= done,
    ensures
        extends(states[from], states[to]),
    decreases to - from,
{
    if from == to {
        lemma_appended_none(states[from]);
    } else {
        lemma_visits_extend(states, items, done, from + 1, to);
        let item = items[from];
        assert(V::visit_spec(states[from], item, states[from + 1], Ok(())));
        lemma_appended_twice(states[from], states[from + 1], states[to]);
    }
}

/// Encoding items one after the other emits their sizes added up, where each
/// item emits its size and the size of an item is the same under every
/// context.
pub proof fn lemma_visits_sized<V, T>(states: Seq<V>, items: Seq<T>, done: int, analyzer: &V) where
    V: VisitType<T> + Visitor + TypeAnalyzer,
    T: AnalyzeWith<V>,

    requires
        emits::<V, T>(|context: V, value: T| value.dynamic_size_spec(&context)),
        size_context_free::<V, T>(),
        plainly_visits(states, items, done),
    ensures
        extends(states[0], states[done]),
        appended(states[0], states[done]).len() == total_size(items.take(done), analyzer),
    decreases done,
{
    if done == 0 {
        lemma_appended_none(states[0]);
        assert(items.take(0) =~= Seq::<T>::empty());
    } else {
        let shorter = states.take(done);
        assert(plainly_visits(shorter, items, done - 1)) by {
            assert forall|i: int| 0 <= i < done - 1 implies V::visit_spec(
                shorter[i],
                #[trigger] items[i],
                shorter[i + 1],
                Ok(()),
            ) by {
                assert(V::visit_spec(states[i], items[i], states[i + 1], Ok(())));
            }
        }
        lemma_visits_sized(shorter, items, done - 1, analyzer);
        let item = items[done - 1];
        assert(V::visit_spec(states[done - 1], item, states[done - 1 + 1], Ok(())));
        lemma_appended_twice(states[0], states[done - 1], states[done]);
        assert(item.dynamic_size_spec(&states[done - 1]) == item.dynamic_size_spec(analyzer));
        let now = items.take(done);
        assert(now.drop_last() =~= items.take(done - 1));
        assert(now.last() == item);
    }
}

/// A collection emits as many bytes as the analysis says, where its strategy
/// emits the constant that the analysis gives as its header, each element emits
/// its size, and the size of an element is the same under every context.
pub proof fn lemma_repeat_sized<V, T, LEN>(
    value: RepeatExt<T, LEN>,
    before: V,
    after: V,
    outcome: Result<(), <V as Visitor>::Error>,
) where
    LEN: TryFrom<usize, Error = LengthError> + AnalyzeWith<V>,
    V: VisitType<LEN> + VisitType<T> + Visitor + TypeAnalyzer,
    T: AnalyzeWith<V>,
    Length<LEN>: AnalyzeWith<V>,
    <V as Visitor>::Error: From<LengthError>,

    requires
        visitor_scopes_plain::<V>(),
        emits::<V, LEN>(|context: V, len: LEN| <LEN as AnalyzeWith<V>>::size_class().const_part()),
        emits::<V, T>(|context: V, item: T| item.dynamic_size_spec(&context)),
        size_context_free::<V, T>(),
        <RepeatExt<T, LEN> as VisitWith<V>>::visit_with_spec(value, before, after, outcome),
        outcome is Ok,
    ensures
        extends(before, after),
        appended(before, after).len() == <RepeatExt<T, LEN> as AnalyzeWith<V>>::dynamic_size_spec(
            &value,
            &before,
        ),
{
    let len = <LEN as TryFromSpec<usize>>::try_from_spec(value.0@.len() as usize)->Ok_0;
    let (mid, headed) = choose|mid: V, headed: Result<(), <V as Visitor>::Error>| #[trigger]
        <V as VisitType<LEN>>::visit_spec(before, len, mid, headed) && if headed is Err {
            after == mid && outcome == headed
        } else {
            visited_run(mid, value.0@, after, outcome)
        };
    assert(<V as VisitType<LEN>>::visit_spec(before, len, mid, headed));
    let (states, done) = choose|states: Seq<V>, done: int| #[trigger]
        visits(states, value.0@, done) && states[0] == mid && if outcome is Ok {
            done == value.0@.len() && states.last() == after
        } else {
            done < value.0@.len() && visit_keyed_spec(
                states.last(),
                RepresentKey::Usize(done as usize),
                value.0@[done],
                after,
                outcome,
            )
        };
    lemma_visits_plainly(states, value.0@, done);
    lemma_visits_sized(states, value.0@, done, &before);
    assert(value.0@.take(done) =~= value.0@);
    lemma_appended_twice(before, mid, after);
}

/// A run emits as many bytes as the analysis says, where its strategy emits the
/// constant that the analysis gives as its header and the context emits the
/// size of an element for each element of a run.
pub proof fn lemma_big_arr_sized<V, T, LEN>(
    value: BigArr<T, LEN>,
    before: V,
    after: V,
    outcome: Result<(), <V as Visitor>::Error>,
) where
    V: VisitType<LEN> + VisitBlob<T> + TypeAnalyzer + AnalyzeType<LEN> + AnalyzeType<Length<LEN>>,
    LEN: TryFrom<usize>,
    <V as Visitor>::Error: From<<LEN as TryFrom<usize>>::Error>,

    requires
        emits::<V, LEN>(
            |context: V, len: LEN| <V as AnalyzeType<LEN>>::type_size_class().const_part(),
        ),
        emits_blob::<V, T>(),
        <BigArr<T, LEN> as VisitWith<V>>::visit_with_spec(value, before, after, outcome),
        outcome is Ok,
    ensures
        extends(before, after),
        appended(before, after).len() == <BigArr<T, LEN> as AnalyzeWith<V>>::dynamic_size_spec(
            &value,
            &before,
        ),
{
    let len = <LEN as TryFromSpec<usize>>::try_from_spec(value.0@.len() as usize)->Ok_0;
    let (mid, headed) = choose|mid: V, headed: Result<(), <V as Visitor>::Error>| #[trigger]
        <V as VisitType<LEN>>::visit_spec(before, len, mid, headed) && if headed is Err {
            after == mid && outcome == headed
        } else {
            <V as VisitBlob<T>>::visit_blob_spec(mid, value.0@, after, outcome)
        };
    assert(<V as VisitType<LEN>>::visit_spec(before, len, mid, headed));
    assert(<V as VisitBlob<T>>::visit_blob_spec(mid, value.0@, after, outcome));
    lemma_appended_twice(before, mid, after);
}

/// A record emits as many bytes as the analysis says, where each field emits
/// its size and the size of the second field is the same under every context.
pub proof fn lemma_pair_sized<V, A, B>(
    value: (A, B),
    before: V,
    after: V,
    outcome: Result<(), <V as Visitor>::Error>,
) where
    V: Visitor + VisitType<A> + VisitType<B> + TypeAnalyzer + AnalyzeType<A> + AnalyzeType<B>,

    requires
        visitor_scopes_plain::<V>(),
        emits::<V, A>(|context: V, field: A| context.type_dynamic_size_spec(&field)),
        emits::<V, B>(|context: V, field: B| context.type_dynamic_size_spec(&field)),
        type_size_context_free::<V, B>(),
        <(A, B) as VisitWith<V>>::visit_with_spec(value, before, after, outcome),
        outcome is Ok,
    ensures
        extends(before, after),
        appended(before, after).len() == <(A, B) as AnalyzeWith<V>>::dynamic_size_spec(
            &value,
            &before,
        ),
{
    let (mid, first) = choose|mid: V, first: Result<(), <V as Visitor>::Error>| #[trigger]
        visit_keyed_spec(before, RepresentKey::Usize(0), value.0, mid, first) && if first is Err {
            after == mid && outcome == first
        } else {
            visit_keyed_spec(mid, RepresentKey::Usize(1), value.1, after, outcome)
        };
    lemma_keyed_visit(before, RepresentKey::Usize(0), value.0, mid, first);
    lemma_keyed_visit(mid, RepresentKey::Usize(1), value.1, after, outcome);
    assert(<V as VisitType<A>>::visit_spec(before, value.0, mid, first));
    assert(<V as VisitType<B>>::visit_spec(mid, value.1, after, outcome));
    lemma_appended_twice(before, mid, after);
    assert(mid.type_dynamic_size_spec(&value.1) == before.type_dynamic_size_spec(&value.1));
}

/// The size that the analysis gives ahead is the length of the encoding: where
/// a type is sized consistently and the encoding of a well-shaped value emits
/// the size of the value, it emits the constant of a type classified `Const`,
/// and the size under the context of a type classified `Fixed`.
pub proof fn lemma_sized_by_class<V, T>(value: T, before: V, after: V) where
    V: Visitor + TypeAnalyzer,
    T: AnalyzeWith<V>,

    requires
        size_consistent::<V, T>(),
        value.conforms(&before),
        appended(before, after).len() == value.dynamic_size_spec(&before),
    ensures
        T::size_class() is Const ==> appended(before, after).len() == T::size_class().const_part(),
        T::size_class() is Fixed ==> appended(before, after).len() == T::fixed_size_spec(&before),
{
    assert(!(T::size_class() is Dynamic) ==> value.dynamic_size_spec(&before)
        == T::fixed_size_spec(&before));
}

/// A collection of constant length is encoded only where it has that length:
/// what is encoded is well-shaped.
pub proof fn lemma_encoded_repeat_has_its_length<V, T, const N: usize>(
    value: RepeatExt<T, LenConst<N>>,
    before: V,
    after: V,
    outcome: Result<(), <V as Visitor>::Error>,
) where
    V: VisitType<LenConst<N>> + VisitType<T> + Visitor,
    <V as Visitor>::Error: From<LengthError>,

    requires
        <RepeatExt<T, LenConst<N>> as VisitWith<V>>::visit_with_spec(value, before, after, outcome),
        outcome is Ok,
    ensures
        value.0@.len() == N,
{
    assert(value.0.len() == value.0@.len());
}

/// A run of constant length is encoded only where it has that length: what is
/// encoded is well-shaped.
pub proof fn lemma_encoded_run_has_its_length<V, T, const N: usize>(
    value: BigArr<T, LenConst<N>>,
    before: V,
    after: V,
    outcome: Result<(), <V as Visitor>::Error>,
) where
    V: VisitType<LenConst<N>> + VisitBlob<T>,
    <V as Visitor>::Error: From<LengthError>,

    requires
        <BigArr<T, LenConst<N>> as VisitWith<V>>::visit_with_spec(value, before, after, outcome),
        outcome is Ok,
    ensures
        value.0@.len() == N,
{
    assert(value.0.len() == value.0@.len());
}

/// A run that is decoded has the number of elements that its strategy
/// announces: a run of constant length has that length, where the context
/// takes the number of elements of the constant strategy for what it is.
pub proof fn lemma_decoded_run_has_its_length<M, T, const N: usize>(
    before: M,
    after: M,
    outcome: Result<BigArr<T, LenConst<N>>, <M as Maker>::Error>,
) where M: MakeType<LenConst<N>> + AnalyzeType<Length<LenConst<N>>> + MakeBlob<T>
    requires
        forall|context: M, len: LenConst<N>| #[trigger]
            context.type_dynamic_size_spec(&Length(len)) == N,
        <BigArr<T, LenConst<N>> as MakeWith<M>>::make_with_spec(before, after, outcome),
        outcome is Ok,
    ensures
        (outcome->Ok_0).0@.len() == N,
{
    let (mid, len) = choose|mid: M, len: Result<LenConst<N>, <M as Maker>::Error>| #[trigger]
        <M as MakeType<LenConst<N>>>::make_spec(before, mid, len) && match len {
            Err(error) => after == mid && outcome == Err::<
                BigArr<T, LenConst<N>>,
                <M as Maker>::Error,
            >(error),
            Ok(len) => {
                let count = saturate(mid.type_dynamic_size_spec(&Length(len)));
                &&& <M as MakeBlob<T>>::make_blob_spec(mid, count, after, run_outcome(outcome))
                &&& outcome matches Ok(made) ==> made.0@.len() == count
            },
        };
    assert(mid.type_dynamic_size_spec(&Length(len->Ok_0)) == N);
}

// -------------------------------------------------------------------------
// Decoding gives back what was encoded

/// Whether the decoding context `maker` has yet to consume the bytes that took
/// the encoding context `before` to `after`, with `rest` behind them.
pub open spec fn follows<V: Visitor, M: Maker>(before: V, after: V, maker: M, rest: Seq<u8>) -> bool {
    &&& extends(before, after)
    &&& maker.pending() == appended(before, after) + rest
}

/// Whether the decoding context `maker` stands where the encoding context
/// `before` stood: it has yet to consume the bytes that took `before` to
/// `after`, with `rest` behind them, and its slot register is that of `before`.
pub open spec fn replays<V: Visitor + Has<Slots>, M: Maker + Has<Slots>>(
    before: V,
    after: V,
    maker: M,
    rest: Seq<u8>,
) -> bool {
    &&& follows(before, after, maker, rest)
    &&& maker.part() == before.part()
}

/// Whether the decoding context `after` stands where the encoding context
/// `encoded` stands: only `rest` is left to consume, and the slot registers are
/// the same.
pub open spec fn caught_up<V: Visitor + Has<Slots>, M: Maker + Has<Slots>>(
    encoded: V,
    after: M,
    rest: Seq<u8>,
) -> bool {
    &&& after.pending() == rest
    &&& after.part() == encoded.part()
}

/// Whether every successful encoding of a `T` by a `V` only adds to what the
/// context has emitted.
pub open spec fn appends<V: VisitType<T>, T>() -> bool {
    forall|before: V, value: T, after: V, outcome: Result<(), <V as Visitor>::Error>|
        #![trigger V::visit_spec(before, value, after, outcome)]
        V::visit_spec(before, value, after, outcome) && outcome is Ok ==> extends(before, after)
}

/// Whether every successful writing of a run of `T` by a `V` only adds to what
/// the context has emitted.
pub open spec fn appends_blob<V: VisitBlob<T>, T>() -> bool {
    forall|before: V, blob: Seq<T>, after: V, outcome: Result<(), <V as Visitor>::Error>|
        #![trigger V::visit_blob_spec(before, blob, after, outcome)]
        V::visit_blob_spec(before, blob, after, outcome) && outcome is Ok ==> extends(
            before,
            after,
        )
}

/// Whether an `M` reads back each `T` that a `V` has encoded: whatever decoding
/// does from where the encoding began, it yields a value that is the `same` as
/// the one encoded, and ends where the encoding ended.
pub open spec fn reads_back<V, M, T>(same: spec_fn(T, T) -> bool) -> bool where
    V: VisitType<T> + Has<Slots>,
    M: MakeType<T> + Has<Slots>,
 {
    forall|
        visitor: V,
        value: T,
        encoded: V,
        done: Result<(), <V as Visitor>::Error>,
        maker: M,
        rest: Seq<u8>,
        after: M,
        outcome: Result<T, <M as Maker>::Error>,
    |
        #![trigger
            V::visit_spec(visitor, value, encoded, done),
            replays(visitor, encoded, maker, rest),
            M::make_spec(maker, after, outcome)
        ]
        V::visit_spec(visitor, value, encoded, done) && done is Ok && replays(
            visitor,
            encoded,
            maker,
            rest,
        ) && M::make_spec(maker, after, outcome) ==> {
            &&& outcome is Ok
            &&& same(outcome->Ok_0, value)
            &&& caught_up(encoded, after, rest)
        }
}

/// Whether an `M` reads back each `T` that a `V` has encoded, whatever the slot
/// registers of the two hold, and neither the encoding nor the decoding
/// changes a register.
pub open spec fn reads_back_apart<V, M, T>() -> bool where
    V: VisitType<T> + Has<Slots>,
    M: MakeType<T> + Has<Slots>,
 {
    forall|
        visitor: V,
        value: T,
        encoded: V,
        done: Result<(), <V as Visitor>::Error>,
        maker: M,
        rest: Seq<u8>,
        after: M,
        outcome: Result<T, <M as Maker>::Error>,
    |
        #![trigger
            V::visit_spec(visitor, value, encoded, done),
            follows(visitor, encoded, maker, rest),
            M::make_spec(maker, after, outcome)
        ]
        V::visit_spec(visitor, value, encoded, done) && done is Ok && follows(
            visitor,
            encoded,
            maker,
            rest,
        ) && M::make_spec(maker, after, outcome) ==> {
            &&& outcome == Ok::<T, <M as Maker>::Error>(value)
            &&& after.pending() == rest
            &&& after.part() == maker.part()
            &&& encoded.part() == visitor.part()
        }
}

/// Whether an `M` reads back each run of `T` that a `V` has written, asked for
/// as many elements as the run has.
pub open spec fn reads_back_blob<V, M, T>() -> bool where
    V: VisitBlob<T> + Has<Slots>,
    M: MakeBlob<T> + Has<Slots>,
 {
    forall|
        visitor: V,
        blob: Seq<T>,
        encoded: V,
        done: Result<(), <V as Visitor>::Error>,
        maker: M,
        rest: Seq<u8>,
        after: M,
        outcome: Result<Seq<T>, <M as Maker>::Error>,
    |
        #![trigger
            V::visit_blob_spec(visitor, blob, encoded, done),
            replays(visitor, encoded, maker, rest),
            M::make_blob_spec(maker, blob.len() as usize, after, outcome)
        ]
        V::visit_blob_spec(visitor, blob, encoded, done) && done is Ok && replays(
            visitor,
            encoded,
            maker,
            rest,
        ) && M::make_blob_spec(maker, blob.len() as usize, after, outcome) ==> {
            &&& outcome == Ok::<Seq<T>, <M as Maker>::Error>(blob)
            &&& caught_up(encoded, after, rest)
        }
}

/// Whether an `M` reads back the length that a `V` has encoded by the strategy
/// `LEN`: whatever decoding the strategy does from where its encoding began, it
/// yields a length that announces, as `announced` says, the number of elements
/// that was encoded, and ends where the encoding ended.
pub open spec fn length_reads_back<V, M, LEN>(announced: spec_fn(M, LEN) -> usize) -> bool where
    V: VisitType<LEN> + Has<Slots>,
    M: MakeType<LEN> + Has<Slots>,
    LEN: TryFrom<usize>,
 {
    forall|
        visitor: V,
        count: usize,
        encoded: V,
        done: Result<(), <V as Visitor>::Error>,
        maker: M,
        rest: Seq<u8>,
        after: M,
        outcome: Result<LEN, <M as Maker>::Error>,
    |
        #![trigger
            V::visit_spec(
                visitor,
                <LEN as TryFromSpec<usize>>::try_from_spec(count)->Ok_0,
                encoded,
                done,
            ),
            replays(visitor, encoded, maker, rest),
            M::make_spec(maker, after, outcome)
        ]
        <LEN as TryFromSpec<usize>>::try_from_spec(count) is Ok && V::visit_spec(
            visitor,
            <LEN as TryFromSpec<usize>>::try_from_spec(count)->Ok_0,
            encoded,
            done,
        ) && done is Ok && replays(visitor, encoded, maker, rest) && M::make_spec(
            maker,
            after,
            outcome,
        ) ==> {
            &&& outcome is Ok
            &&& announced(after, outcome->Ok_0) == count
            &&& caught_up(encoded, after, rest)
        }
}

/// Whether the condition `C` is told alike of an encoding and of a decoding
/// context that hold the same slot register.
pub open spec fn condition_agrees<V, M, C>() -> bool where
    V: Has<Slots>,
    M: Has<Slots>,
    C: Condition<V> + Condition<M>,
 {
    forall|visitor: V, maker: M|
        #![trigger
            <C as Condition<V>>::check_spec(&visitor),
            <C as Condition<M>>::check_spec(&maker)
        ]
        visitor.part() == maker.part() ==> <C as Condition<V>>::check_spec(&visitor) == <C as Condition<
            M,
        >>::check_spec(&maker)
}

/// A condition on a bit of a slot is told alike of contexts with the same slot
/// register.
pub proof fn lemma_flag_agrees<V: Has<Slots>, M: Has<Slots>, const VAL: u32, const SLOT: usize>()
    ensures
        condition_agrees::<V, M, Flag<VAL, SLOT>>(),
{
}

/// A condition on the value of a slot is told alike of contexts with the same
/// slot register.
pub proof fn lemma_equal_agrees<V: Has<Slots>, M: Has<Slots>, const VAL: u32, const SLOT: usize>()
    ensures
        condition_agrees::<V, M, Equal<VAL, SLOT>>(),
{
}

/// The negation of a condition is told alike where the condition is.
pub proof fn lemma_not_agrees<V: Has<Slots>, M: Has<Slots>, C: Condition<V> + Condition<M>>()
    requires
        condition_agrees::<V, M, C>(),
    ensures
        condition_agrees::<V, M, Not<C>>(),
{
    assert forall|visitor: V, maker: M| visitor.part() == maker.part() implies #[trigger] <Not<
        C,
    > as Condition<V>>::check_spec(&visitor) == #[trigger] <Not<C> as Condition<M>>::check_spec(
        &maker,
    ) by {
        assert(<C as Condition<V>>::check_spec(&visitor) == <C as Condition<M>>::check_spec(
            &maker,
        ));
    }
}

/// The constant strategy is read back: nothing is encoded and nothing decoded,
/// and the length that is decoded announces the number that was encoded.
pub proof fn lemma_len_const_reads_back<V, M, const LEN: usize>(
    visitor: V,
    count: usize,
    encoded: V,
    done: Result<(), V::Error>,
    maker: M,
    rest: Seq<u8>,
    after: M,
    outcome: Result<LenConst<LEN>, M::Error>,
) where V: Visitor + Has<Slots>, M: Maker + Has<Slots> + TypeAnalyzer
    requires
        <LenConst<LEN> as TryFromSpec<usize>>::try_from_spec(count) is Ok,
        <LenConst<LEN> as VisitWith<V>>::visit_with_spec(LenConst::<LEN>, visitor, encoded, done),
        replays(visitor, encoded, maker, rest),
        <LenConst<LEN> as MakeWith<M>>::make_with_spec(maker, after, outcome),
    ensures
        outcome is Ok,
        <Length<LenConst<LEN>> as AnalyzeWith<M>>::dynamic_size_spec(
            &Length(outcome->Ok_0),
            &after,
        ) == count,
        caught_up(encoded, after, rest),
{
    lemma_appended_none(visitor);
    assert(maker.pending() =~= rest);
}

/// The prefixed strategy is read back where the value of its length field is,
/// and the type of the field gives back each number that it takes: the length
/// that is decoded announces the number that was encoded.
pub proof fn lemma_len_make_reads_back<V, M, LEN, P>(
    visitor: V,
    count: usize,
    encoded: V,
    done: Result<(), <V as Visitor>::Error>,
    maker: M,
    rest: Seq<u8>,
    after: M,
    outcome: Result<LenMake<LEN, P>, <M as Maker>::Error>,
) where
    V: Visitor + VisitType<LEN> + Has<Slots>,
    <V as Visitor>::Error: From<LengthError>,
    M: Maker + MakeType<LEN> + Has<Slots> + TypeAnalyzer,
    LEN: TryFrom<usize> + Into<u32>,
    P: Verify<usize>,

    requires
        reads_back::<V, M, LEN>(|made: LEN, given: LEN| made == given),
        <LEN as TryFromSpec<usize>>::try_from_spec(count) matches Ok(raw) ==> raw.into_spec() as usize
            == count,
        <LenMake<LEN, P> as TryFromSpec<usize>>::try_from_spec(count) is Ok,
        <LenMake<LEN, P> as VisitWith<V>>::visit_with_spec(
            LenMake::<LEN, P>::of(count),
            visitor,
            encoded,
            done,
        ),
        done is Ok,
        replays(visitor, encoded, maker, rest),
        <LenMake<LEN, P> as MakeWith<M>>::make_with_spec(maker, after, outcome),
    ensures
        outcome is Ok,
        <Length<LenMake<LEN, P>> as AnalyzeWith<M>>::dynamic_size_spec(
            &Length(outcome->Ok_0),
            &after,
        ) == count,
        caught_up(encoded, after, rest),
{
    LenMake::<LEN, P>::lemma_of_count(count);
    let raw = <LEN as TryFromSpec<usize>>::try_from_spec(count)->Ok_0;
    assert(V::visit_spec(visitor, raw, encoded, done));
    match outcome {
        Ok(len) => {
            let back = choose|back: LEN| #[trigger]
                M::make_spec(maker, after, Ok(back)) && len == LenMake::<LEN, P>::of(
                    P::verify_spec(back.into_spec() as usize),
                );
            assert(M::make_spec(maker, after, Ok(back)));
            assert(back == raw);
            LenMake::<LEN, P>::lemma_of_count(P::verify_spec(count));
        },
        Err(error) => {
            assert(M::make_spec(maker, after, Err(error)));
        },
    }
}

/// The slot strategy is read back: nothing is encoded and nothing decoded, and
/// the length that is decoded from the slot announces the number that was
/// checked against the slot.
pub proof fn lemma_len_slot_reads_back<V, M, P, const SLOT: usize>(
    visitor: V,
    count: usize,
    encoded: V,
    done: Result<(), V::Error>,
    maker: M,
    rest: Seq<u8>,
    after: M,
    outcome: Result<LenSlot<P, SLOT>, M::Error>,
) where
    V: Visitor + Has<Slots>,
    V::Error: From<LengthError>,
    M: Maker + Has<Slots> + TypeAnalyzer,
    M::Error: From<LengthError>,
    P: Verify<usize>,

    requires
        <LenSlot<P, SLOT> as TryFromSpec<usize>>::try_from_spec(count) is Ok,
        <LenSlot<P, SLOT> as VisitWith<V>>::visit_with_spec(
            LenSlot::<P, SLOT>::of(count),
            visitor,
            encoded,
            done,
        ),
        done is Ok,
        replays(visitor, encoded, maker, rest),
        <LenSlot<P, SLOT> as MakeWith<M>>::make_with_spec(maker, after, outcome),
    ensures
        outcome is Ok,
        <Length<LenSlot<P, SLOT>> as AnalyzeWith<M>>::dynamic_size_spec(
            &Length(outcome->Ok_0),
            &after,
        ) == count,
        caught_up(encoded, after, rest),
{
    LenSlot::<P, SLOT>::lemma_of_count(count);
    LenSlot::<P, SLOT>::lemma_of_count(P::verify_spec(count));
    lemma_appended_none(visitor);
    assert(maker.pending() =~= rest);
}

/// The strategy of a length that the context fixes is read back where the two
/// contexts fix the same length: nothing is encoded and nothing decoded, and
/// the length that the decoding context fixes is the number that was checked
/// against the encoding context.
pub proof fn lemma_fixed_len_reads_back<V, M, LEN>(
    visitor: V,
    count: usize,
    encoded: V,
    done: Result<(), V::Error>,
    maker: M,
    rest: Seq<u8>,
    after: M,
    outcome: Result<FixedLen<LEN>, M::Error>,
) where
    V: Visitor + Has<Slots> + AnalyzeType<LEN>,
    V::Error: From<LengthError>,
    M: Maker + Has<Slots> + TypeAnalyzer + AnalyzeType<LEN>,

    requires
        saturate(visitor.type_fixed_size_spec()) == saturate(maker.type_fixed_size_spec()),
        maker.type_fixed_size_spec() <= usize::MAX,
        <FixedLen<LEN> as VisitWith<V>>::visit_with_spec(
            FixedLen::<LEN>::of(Some(count)),
            visitor,
            encoded,
            done,
        ),
        done is Ok,
        replays(visitor, encoded, maker, rest),
        <FixedLen<LEN> as MakeWith<M>>::make_with_spec(maker, after, outcome),
    ensures
        outcome is Ok,
        <Length<FixedLen<LEN>> as AnalyzeWith<M>>::dynamic_size_spec(
            &Length(outcome->Ok_0),
            &after,
        ) == count,
        caught_up(encoded, after, rest),
{
    FixedLen::<LEN>::lemma_of_actual(Some(count));
    lemma_appended_none(visitor);
    assert(maker.pending() =~= rest);
}

/// A field that publishes its value is read back where its value is, whatever
/// the slot registers hold: decoding yields the same field and leaves the value
/// in the slot, as encoding did.
pub proof fn lemma_store_reads_back<V, M, T, const SLOT: usize>(
    field: Store<T, SLOT>,
    visitor: V,
    encoded: V,
    done: Result<(), <V as Visitor>::Error>,
    maker: M,
    rest: Seq<u8>,
    after: M,
    outcome: Result<Store<T, SLOT>, <M as Maker>::Error>,
) where
    V: VisitType<T> + Visitor + Has<Slots>,
    <V as Visitor>::Error: From<SlotStoreError>,
    M: MakeType<T> + Maker + Has<Slots>,
    <M as Maker>::Error: From<SlotStoreError>,
    T: Into<u32> + Clone,

    requires
        clone_keeps_value::<T>(),
        visitor_slots_apart::<V>(),
        maker_slots_apart::<M>(),
        reads_back_apart::<V, M, T>(),
        <Store<T, SLOT> as VisitWith<V>>::visit_with_spec(field, visitor, encoded, done),
        done is Ok,
        replays(visitor, encoded, maker, rest),
        <Store<T, SLOT> as MakeWith<M>>::make_with_spec(maker, after, outcome),
    ensures
        outcome == Ok::<Store<T, SLOT>, <M as Maker>::Error>(field),
        caught_up(encoded, after, rest),
{
    let val = choose|val: u32|
        Store::<T, SLOT>::publishes(field.inner, val) && #[trigger] field.encoded(
            val,
            visitor,
            encoded,
            done,
        );
    lemma_publishes::<T, SLOT>(field.inner, val);
    let slots = visitor.part().stored(SLOT as int, val);
    let written = visitor.with_part(slots);
    assert(V::visit_spec(written, field.inner, encoded, done));
    assert(written.emitted() == visitor.emitted());
    assert(appended(written, encoded) == appended(visitor, encoded));
    assert(follows(written, encoded, maker, rest));
    let (mid, made) = choose|mid: M, made: Result<T, <M as Maker>::Error>| #[trigger]
        M::make_spec(maker, mid, made) && match made {
            Err(error) => after == mid && outcome == Err::<Store<T, SLOT>, <M as Maker>::Error>(
                error,
            ),
            Ok(inner) => exists|val: u32|
                Store::<T, SLOT>::publishes(inner, val) && #[trigger] Store::<
                    T,
                    SLOT,
                >::published(mid, inner, val, after, outcome),
        };
    assert(M::make_spec(maker, mid, made));
    assert(made == Ok::<T, <M as Maker>::Error>(field.inner));
    let again = choose|again: u32|
        Store::<T, SLOT>::publishes(field.inner, again) && #[trigger] Store::<
            T,
            SLOT,
        >::published(mid, field.inner, again, after, outcome);
    lemma_publishes::<T, SLOT>(field.inner, again);
    assert(mid.part() == visitor.part());
    assert(after == mid.with_part(slots));
}

/// A conditional field is read back where its value is, and the condition is
/// told alike of the two contexts: decoding yields a field that is present
/// exactly if the field encoded was, with the same value.
pub proof fn lemma_conditional_reads_back<V, M, C, T>(
    field: Conditional<C, T>,
    visitor: V,
    encoded: V,
    done: Result<(), <V as Visitor>::Error>,
    maker: M,
    rest: Seq<u8>,
    after: M,
    outcome: Result<Conditional<C, T>, <M as Maker>::Error>,
    same: spec_fn(T, T) -> bool,
) where
    V: VisitType<T> + Visitor + Has<Slots>,
    <V as Visitor>::Error: From<ConditionalError>,
    M: MakeType<T> + Maker + Has<Slots>,
    <M as Maker>::Error: From<ConditionalError>,
    C: Condition<V> + Condition<M>,

    requires
        condition_agrees::<V, M, C>(),
        reads_back::<V, M, T>(same),
        <Conditional<C, T> as VisitWith<V>>::visit_with_spec(field, visitor, encoded, done),
        done is Ok,
        replays(visitor, encoded, maker, rest),
        <Conditional<C, T> as MakeWith<M>>::make_with_spec(maker, after, outcome),
    ensures
        outcome is Ok,
        (outcome->Ok_0).0 is Some <==> field.0 is Some,
        field.0 is Some ==> same((outcome->Ok_0).0->0, field.0->0),
        caught_up(encoded, after, rest),
{
    assert(<C as Condition<V>>::check_spec(&visitor) == <C as Condition<M>>::check_spec(&maker));
    match field.0 {
        Some(inner) => {
            assert(V::visit_spec(visitor, inner, encoded, done));
            match outcome {
                Ok(made) => {
                    assert(M::make_spec(maker, after, Ok(made.0->0)));
                },
                Err(error) => {
                    assert(M::make_spec(maker, after, Err(error)));
                },
            }
        },
        None => {
            lemma_appended_none(visitor);
            assert(maker.pending() =~= rest);
        },
    }
}

/// A field whose value is read from a slot is read back only where the slot
/// holds its value: encoding the field writes nothing and checks nothing, so
/// the value has to be in the slot already for decoding to find it.
pub proof fn lemma_load_reads_back<V, M, T, const SLOT: usize>(
    field: Load<T, SLOT>,
    visitor: V,
    encoded: V,
    done: Result<(), <V as Visitor>::Error>,
    maker: M,
    rest: Seq<u8>,
    after: M,
    outcome: Result<Load<T, SLOT>, <M as Maker>::Error>,
) where
    V: VisitType<T> + Visitor + Has<Slots>,
    M: Maker + Has<Slots>,
    T: TryFrom<u32> + Into<u32> + Clone,
    <M as Maker>::Error: From<SlotLoadError<<T as TryFrom<u32>>::Error>>,

    requires
        slot_value(visitor.part()@, SLOT) matches Some(held) && <T as TryFromSpec<
            u32,
        >>::try_from_spec(held) == Ok::<T, <T as TryFrom<u32>>::Error>(field.0),
        <Load<T, SLOT> as VisitWith<V>>::visit_with_spec(field, visitor, encoded, done),
        replays(visitor, encoded, maker, rest),
        <Load<T, SLOT> as MakeWith<M>>::make_with_spec(maker, after, outcome),
    ensures
        done is Ok,
        outcome == Ok::<Load<T, SLOT>, <M as Maker>::Error>(field),
        caught_up(encoded, after, rest),
{
    lemma_appended_none(visitor);
    assert(maker.pending() =~= rest);
}

/// Decoding item by item keeps up with the encoding: after `k` items the
/// decoding context stands where the encoding context stood after `k` items,
/// and each item decoded is the same as the item encoded in its place.
pub proof fn lemma_run_keeps_up<V, M, T>(
    encoding: Seq<V>,
    items: Seq<T>,
    decoding: Seq<M>,
    made: Seq<T>,
    rest: Seq<u8>,
    same: spec_fn(T, T) -> bool,
    k: int,
) where V: VisitType<T> + Has<Slots>, M: MakeType<T> + Has<Slots>
    requires
        appends::<V, T>(),
        reads_back::<V, M, T>(same),
        plainly_visits(encoding, items, items.len() as int),
        plain_run_of(decoding, made),
        made.len() <= items.len(),
        0 <= k <= made.len(),
        replays(encoding[0], encoding.last(), decoding[0], rest),
    ensures
        replays(encoding[k], encoding.last(), decoding[k], rest),
        forall|i: int| 0 <= i < k ==> same(#[trigger] made[i], items[i]),
    decreases k,
{
    let count = items.len() as int;
    let end = encoding[count];
    if k > 0 {
        lemma_run_keeps_up(encoding, items, decoding, made, rest, same, k - 1);
        lemma_visits_extend(encoding, items, count, k - 1, k);
        lemma_visits_extend(encoding, items, count, k, count);
        let before = encoding[k - 1];
        let here = encoding[k];
        let item = items[k - 1];
        assert(V::visit_spec(encoding[k - 1], item, encoding[k - 1 + 1], Ok(())));
        let left = appended(here, end) + rest;
        lemma_appended_twice(before, here, end);
        assert(decoding[k - 1].pending() =~= appended(before, here) + left);
        assert(replays(before, here, decoding[k - 1], left));
        let decoded = made[k - 1];
        assert(M::make_spec(decoding[k - 1], decoding[k - 1 + 1], Ok(decoded)));
        assert(same(decoded, item));
        assert(caught_up(here, decoding[k], left));
    }
}

/// A collection is read back where the length that its strategy carries is, and
/// each element is: decoding yields a collection of as many elements, each the
/// same as the element encoded in its place, and ends where the encoding ended.
pub proof fn lemma_repeat_reads_back<V, M, T, LEN>(
    value: RepeatExt<T, LEN>,
    visitor: V,
    encoded: V,
    done: Result<(), <V as Visitor>::Error>,
    maker: M,
    rest: Seq<u8>,
    after: M,
    outcome: Result<RepeatExt<T, LEN>, <M as Maker>::Error>,
    same: spec_fn(T, T) -> bool,
) where
    LEN: TryFrom<usize, Error = LengthError>,
    V: VisitType<LEN> + VisitType<T> + Visitor + Has<Slots>,
    <V as Visitor>::Error: From<LengthError>,
    M: MakeType<LEN> + MakeType<T> + Maker + TypeAnalyzer + Has<Slots>,
    Length<LEN>: AnalyzeWith<M>,

    requires
        visitor_scopes_plain::<V>(),
        maker_scopes_plain::<M>(),
        length_reads_back::<V, M, LEN>(
            |context: M, len: LEN| saturate(Length(len).dynamic_size_spec(&context)),
        ),
        appends::<V, LEN>(),
        appends::<V, T>(),
        reads_back::<V, M, T>(same),
        <RepeatExt<T, LEN> as VisitWith<V>>::visit_with_spec(value, visitor, encoded, done),
        done is Ok,
        replays(visitor, encoded, maker, rest),
        <RepeatExt<T, LEN> as MakeWith<M>>::make_with_spec(maker, after, outcome),
    ensures
        outcome is Ok,
        (outcome->Ok_0).0@.len() == value.0@.len(),
        forall|i: int|
            0 <= i < value.0@.len() ==> same(#[trigger] (outcome->Ok_0).0@[i], value.0@[i]),
        caught_up(encoded, after, rest),
{
    assert(value.0.len() == value.0@.len());
    let items = value.0@;
    let count = items.len() as usize;
    let len = <LEN as TryFromSpec<usize>>::try_from_spec(count)->Ok_0;
    let (start, headed) = choose|start: V, headed: Result<(), <V as Visitor>::Error>| #[trigger]
        <V as VisitType<LEN>>::visit_spec(visitor, len, start, headed) && if headed is Err {
            encoded == start && done == headed
        } else {
            visited_run(start, items, encoded, done)
        };
    assert(<V as VisitType<LEN>>::visit_spec(visitor, len, start, headed));
    let (encoding, visited) = choose|encoding: Seq<V>, visited: int| #[trigger]
        visits(encoding, items, visited) && encoding[0] == start && if done is Ok {
            visited == items.len() && encoding.last() == encoded
        } else {
            visited < items.len() && visit_keyed_spec(
                encoding.last(),
                RepresentKey::Usize(visited as usize),
                items[visited],
                encoded,
                done,
            )
        };
    assert(visits(encoding, items, items.len() as int));
    lemma_visits_plainly(encoding, items, items.len() as int);
    lemma_visits_extend(encoding, items, items.len() as int, 0, items.len() as int);
    lemma_appended_twice(visitor, start, encoded);
    let tail = appended(start, encoded) + rest;
    assert(maker.pending() =~= appended(visitor, start) + tail);
    let (mid, decoded) = choose|mid: M, decoded: Result<LEN, <M as Maker>::Error>| #[trigger]
        <M as MakeType<LEN>>::make_spec(maker, mid, decoded) && match decoded {
            Err(error) => after == mid && outcome == Err::<
                RepeatExt<T, LEN>,
                <M as Maker>::Error,
            >(error),
            Ok(len) => made_run::<M, T>(
                mid,
                saturate(Length(len).dynamic_size_spec(&mid)),
                after,
                items_outcome(outcome),
            ),
        };
    assert(<V as VisitType<LEN>>::visit_spec(
        visitor,
        <LEN as TryFromSpec<usize>>::try_from_spec(count)->Ok_0,
        start,
        headed,
    ));
    assert(replays(visitor, start, maker, tail));
    assert(<M as MakeType<LEN>>::make_spec(maker, mid, decoded));
    assert(decoded is Ok);
    assert(caught_up(start, mid, tail));
    let announced = saturate(Length(decoded->Ok_0).dynamic_size_spec(&mid));
    assert(announced == count);
    let (decoding, made) = choose|decoding: Seq<M>, made: Seq<T>| #[trigger]
        run_of(decoding, made) && decoding[0] == mid && match items_outcome(outcome) {
            Ok(all) => all == made && made.len() == announced && decoding.last() == after,
            Err(error) => made.len() < announced && make_keyed_spec(
                decoding.last(),
                RepresentKey::Usize(made.len() as usize),
                after,
                Err::<T, <M as Maker>::Error>(error),
            ),
        };
    assert(run_of(decoding, made));
    lemma_run_of_plainly(decoding, made);
    assert(replays(encoding[0], encoding.last(), decoding[0], rest));
    let k = made.len() as int;
    lemma_run_keeps_up(encoding, items, decoding, made, rest, same, k);
    match outcome {
        Ok(whole) => {
        },
        Err(error) => {
            lemma_visits_extend(encoding, items, items.len() as int, k, k + 1);
            lemma_visits_extend(encoding, items, items.len() as int, k + 1, items.len() as int);
            let here = encoding[k];
            let next = encoding[k + 1];
            let item = items[k];
            assert(<V as VisitType<T>>::visit_spec(here, item, next, Ok(())));
            lemma_appended_twice(here, next, encoded);
            let left = appended(next, encoded) + rest;
            assert(decoding[k].pending() =~= appended(here, next) + left);
            assert(replays(here, next, decoding[k], left));
            lemma_keyed_make(
                decoding[k],
                RepresentKey::Usize(made.len() as usize),
                after,
                Err::<T, <M as Maker>::Error>(error),
            );
            assert(<M as MakeType<T>>::make_spec(decoding[k], after, Err(error)));
            assert(false);
        },
    }
}

/// A run is read back where the length that its strategy carries is, and the
/// contexts read back the runs that they write: decoding yields a run of the
/// same elements, and ends where the encoding ended.
pub proof fn lemma_big_arr_reads_back<V, M, T, LEN>(
    value: BigArr<T, LEN>,
    visitor: V,
    encoded: V,
    done: Result<(), <V as Visitor>::Error>,
    maker: M,
    rest: Seq<u8>,
    after: M,
    outcome: Result<BigArr<T, LEN>, <M as Maker>::Error>,
) where
    LEN: TryFrom<usize>,
    V: VisitType<LEN> + VisitBlob<T> + Has<Slots>,
    <V as Visitor>::Error: From<<LEN as TryFrom<usize>>::Error>,
    M: MakeType<LEN> + AnalyzeType<Length<LEN>> + MakeBlob<T> + Has<Slots>,

    requires
        length_reads_back::<V, M, LEN>(
            |context: M, len: LEN| saturate(context.type_dynamic_size_spec(&Length(len))),
        ),
        appends::<V, LEN>(),
        appends_blob::<V, T>(),
        reads_back_blob::<V, M, T>(),
        <BigArr<T, LEN> as VisitWith<V>>::visit_with_spec(value, visitor, encoded, done),
        done is Ok,
        replays(visitor, encoded, maker, rest),
        <BigArr<T, LEN> as MakeWith<M>>::make_with_spec(maker, after, outcome),
    ensures
        outcome is Ok,
        (outcome->Ok_0).0@ == value.0@,
        caught_up(encoded, after, rest),
{
    let count = value.0@.len() as usize;
    let len = <LEN as TryFromSpec<usize>>::try_from_spec(count)->Ok_0;
    let (start, headed) = choose|start: V, headed: Result<(), <V as Visitor>::Error>| #[trigger]
        <V as VisitType<LEN>>::visit_spec(visitor, len, start, headed) && if headed is Err {
            encoded == start && done == headed
        } else {
            <V as VisitBlob<T>>::visit_blob_spec(start, value.0@, encoded, done)
        };
    assert(<V as VisitType<LEN>>::visit_spec(visitor, len, start, headed));
    assert(<V as VisitBlob<T>>::visit_blob_spec(start, value.0@, encoded, done));
    lemma_appended_twice(visitor, start, encoded);
    let tail = appended(start, encoded) + rest;
    assert(maker.pending() =~= appended(visitor, start) + tail);
    let (mid, decoded) = choose|mid: M, decoded: Result<LEN, <M as Maker>::Error>| #[trigger]
        <M as MakeType<LEN>>::make_spec(maker, mid, decoded) && match decoded {
            Err(error) => after == mid && outcome == Err::<BigArr<T, LEN>, <M as Maker>::Error>(
                error,
            ),
            Ok(len) => <M as MakeBlob<T>>::make_blob_spec(
                mid,
                saturate(mid.type_dynamic_size_spec(&Length(len))),
                after,
                run_outcome(outcome),
            ),
        };
    assert(<V as VisitType<LEN>>::visit_spec(
        visitor,
        <LEN as TryFromSpec<usize>>::try_from_spec(count)->Ok_0,
        start,
        headed,
    ));
    assert(replays(visitor, start, maker, tail));
    assert(<M as MakeType<LEN>>::make_spec(maker, mid, decoded));
    assert(decoded is Ok);
    assert(caught_up(start, mid, tail));
    assert(saturate(mid.type_dynamic_size_spec(&Length(decoded->Ok_0))) == count);
    assert(replays(start, encoded, mid, rest));
    assert(<M as MakeBlob<T>>::make_blob_spec(
        mid,
        value.0@.len() as usize,
        after,
        run_outcome(outcome),
    ));
}

/// A text is read back where the contexts read back its run: decoding yields a
/// text of the same bytes, and ends where the encoding ended.
pub proof fn lemma_big_str_reads_back<V, M, LEN>(
    value: BigStr<LEN>,
    visitor: V,
    encoded: V,
    done: Result<(), <V as Visitor>::Error>,
    maker: M,
    rest: Seq<u8>,
    after: M,
    outcome: Result<BigStr<LEN>, <M as Maker>::Error>,
) where V: VisitType<BigArr<u8, LEN>> + Has<Slots>, M: MakeType<BigArr<u8, LEN>> + Has<Slots>
    requires
        reads_back::<V, M, BigArr<u8, LEN>>(
            |made: BigArr<u8, LEN>, given: BigArr<u8, LEN>| made.0@ == given.0@,
        ),
        <BigStr<LEN> as VisitWith<V>>::visit_with_spec(value, visitor, encoded, done),
        done is Ok,
        replays(visitor, encoded, maker, rest),
        <BigStr<LEN> as MakeWith<M>>::make_with_spec(maker, after, outcome),
    ensures
        outcome is Ok,
        (outcome->Ok_0).0.0@ == value.0.0@,
        caught_up(encoded, after, rest),
{
    assert(V::visit_spec(visitor, value.0, encoded, done));
    match outcome {
        Ok(made) => {
            assert(M::make_spec(maker, after, Ok(made.0)));
        },
        Err(error) => {
            assert(M::make_spec(maker, after, Err(error)));
        },
    }
}

/// A record is read back where its fields are: decoding yields a record whose
/// fields are the same as the fields encoded, in their order, and ends where
/// the encoding ended.
pub proof fn lemma_pair_reads_back<V, M, A, B>(
    value: (A, B),
    visitor: V,
    encoded: V,
    done: Result<(), <V as Visitor>::Error>,
    maker: M,
    rest: Seq<u8>,
    after: M,
    outcome: Result<(A, B), <M as Maker>::Error>,
    same_first: spec_fn(A, A) -> bool,
    same_second: spec_fn(B, B) -> bool,
) where
    V: Visitor + VisitType<A> + VisitType<B> + Has<Slots>,
    M: Maker + MakeType<A> + MakeType<B> + Has<Slots>,

    requires
        visitor_scopes_plain::<V>(),
        maker_scopes_plain::<M>(),
        appends::<V, A>(),
        appends::<V, B>(),
        reads_back::<V, M, A>(same_first),
        reads_back::<V, M, B>(same_second),
        <(A, B) as VisitWith<V>>::visit_with_spec(value, visitor, encoded, done),
        done is Ok,
        replays(visitor, encoded, maker, rest),
        <(A, B) as MakeWith<M>>::make_with_spec(maker, after, outcome),
    ensures
        outcome is Ok,
        same_first((outcome->Ok_0).0, value.0),
        same_second((outcome->Ok_0).1, value.1),
        caught_up(encoded, after, rest),
{
    let (half, first) = choose|half: V, first: Result<(), <V as Visitor>::Error>| #[trigger]
        visit_keyed_spec(visitor, RepresentKey::Usize(0), value.0, half, first) && if first is Err {
            encoded == half && done == first
        } else {
            visit_keyed_spec(half, RepresentKey::Usize(1), value.1, encoded, done)
        };
    lemma_keyed_visit(visitor, RepresentKey::Usize(0), value.0, half, first);
    lemma_keyed_visit(half, RepresentKey::Usize(1), value.1, encoded, done);
    assert(<V as VisitType<A>>::visit_spec(visitor, value.0, half, first));
    assert(<V as VisitType<B>>::visit_spec(half, value.1, encoded, done));
    lemma_appended_twice(visitor, half, encoded);
    let tail = appended(half, encoded) + rest;
    assert(maker.pending() =~= appended(visitor, half) + tail);
    let (mid, decoded) = choose|mid: M, decoded: Result<A, <M as Maker>::Error>| #[trigger]
        make_keyed_spec(maker, RepresentKey::Usize(0), mid, decoded) && match decoded {
            Err(error) => after == mid && outcome == Err::<(A, B), <M as Maker>::Error>(error),
            Ok(first) => match outcome {
                Ok(both) => both.0 == first && make_keyed_spec(
                    mid,
                    RepresentKey::Usize(1),
                    after,
                    Ok::<B, <M as Maker>::Error>(both.1),
                ),
                Err(error) => make_keyed_spec(
                    mid,
                    RepresentKey::Usize(1),
                    after,
                    Err::<B, <M as Maker>::Error>(error),
                ),
            },
        };
    lemma_keyed_make(maker, RepresentKey::Usize(0), mid, decoded);
    assert(replays(visitor, half, maker, tail));
    assert(<M as MakeType<A>>::make_spec(maker, mid, decoded));
    assert(decoded is Ok);
    assert(caught_up(half, mid, tail));
    assert(replays(half, encoded, mid, rest));
    match outcome {
        Ok(both) => {
            lemma_keyed_make(
                mid,
                RepresentKey::Usize(1),
                after,
                Ok::<B, <M as Maker>::Error>(both.1),
            );
            assert(<M as MakeType<B>>::make_spec(mid, after, Ok(both.1)));
        },
        Err(error) => {
            lemma_keyed_make(
                mid,
                RepresentKey::Usize(1),
                after,
                Err::<B, <M as Maker>::Error>(error),
            );
            assert(<M as MakeType<B>>::make_spec(mid, after, Err(error)));
        },
    }
}

// -------------------------------------------------------------------------
// Formats that nest
//
// A context that leaves a building block to the block itself has, for the
// block, what it has for the block's parts. So what holds of the parts of a
// format holds of the format, however deep it nests.

/// What it is for two records to be the same, field by field.
pub open spec fn both_same<A, B>(
    same_first: spec_fn(A, A) -> bool,
    same_second: spec_fn(B, B) -> bool,
) -> spec_fn((A, B), (A, B)) -> bool {
    |made: (A, B), given: (A, B)| same_first(made.0, given.0) && same_second(made.1, given.1)
}

/// What it is for two conditional fields to be the same: both hold a value, and
/// the values are the same, or neither does.
pub open spec fn same_if_present<C, T>(same: spec_fn(T, T) -> bool) -> spec_fn(
    Conditional<C, T>,
    Conditional<C, T>,
) -> bool {
    |made: Conditional<C, T>, given: Conditional<C, T>|
        (made.0 is Some <==> given.0 is Some) && (given.0 is Some ==> same(made.0->0, given.0->0))
}

/// What it is for two collections to be the same: they have as many elements,
/// and the elements are the same place by place.
pub open spec fn each_same<T, LEN>(same: spec_fn(T, T) -> bool) -> spec_fn(
    RepeatExt<T, LEN>,
    RepeatExt<T, LEN>,
) -> bool {
    |made: RepeatExt<T, LEN>, given: RepeatExt<T, LEN>|
        made.0@.len() == given.0@.len() && forall|i: int|
            0 <= i < given.0@.len() ==> same(#[trigger] made.0@[i], given.0@[i])
}

/// Encoding a record only adds to what the context has emitted, where encoding
/// each field does.
pub proof fn lemma_pairs_append<V, A, B>() where
    V: Visitor + VisitType<A> + VisitType<B> + VisitType<(A, B)>,

    requires
        visits_by_itself::<V, (A, B)>(),
        visitor_scopes_plain::<V>(),
        appends::<V, A>(),
        appends::<V, B>(),
    ensures
        appends::<V, (A, B)>(),
{
    assert forall|before: V, value: (A, B), after: V, outcome: Result<(), <V as Visitor>::Error>|
        #![trigger <V as VisitType<(A, B)>>::visit_spec(before, value, after, outcome)]
        <V as VisitType<(A, B)>>::visit_spec(before, value, after, outcome)
            && outcome is Ok implies extends(before, after) by {
        assert(value.visit_with_spec(before, after, outcome));
        let (half, first) = choose|half: V, first: Result<(), <V as Visitor>::Error>| #[trigger]
            visit_keyed_spec(before, RepresentKey::Usize(0), value.0, half, first) && if first is Err {
                after == half && outcome == first
            } else {
                visit_keyed_spec(half, RepresentKey::Usize(1), value.1, after, outcome)
            };
        lemma_keyed_visit(before, RepresentKey::Usize(0), value.0, half, first);
        lemma_keyed_visit(half, RepresentKey::Usize(1), value.1, after, outcome);
        assert(<V as VisitType<A>>::visit_spec(before, value.0, half, first));
        assert(<V as VisitType<B>>::visit_spec(half, value.1, after, outcome));
        lemma_appended_twice(before, half, after);
    }
}

/// Records are read back where their fields are.
pub proof fn lemma_pairs_read_back<V, M, A, B>(
    same_first: spec_fn(A, A) -> bool,
    same_second: spec_fn(B, B) -> bool,
) where
    V: Visitor + VisitType<A> + VisitType<B> + VisitType<(A, B)> + Has<Slots>,
    M: Maker + MakeType<A> + MakeType<B> + MakeType<(A, B)> + Has<Slots>,

    requires
        visits_by_itself::<V, (A, B)>(),
        makes_by_itself::<M, (A, B)>(),
        visitor_scopes_plain::<V>(),
        maker_scopes_plain::<M>(),
        appends::<V, A>(),
        appends::<V, B>(),
        reads_back::<V, M, A>(same_first),
        reads_back::<V, M, B>(same_second),
    ensures
        reads_back::<V, M, (A, B)>(both_same(same_first, same_second)),
{
    assert forall|
        visitor: V,
        value: (A, B),
        encoded: V,
        done: Result<(), <V as Visitor>::Error>,
        maker: M,
        rest: Seq<u8>,
        after: M,
        outcome: Result<(A, B), <M as Maker>::Error>,
    |
        #![trigger
            <V as VisitType<(A, B)>>::visit_spec(visitor, value, encoded, done),
            replays(visitor, encoded, maker, rest),
            <M as MakeType<(A, B)>>::make_spec(maker, after, outcome)
        ]
        <V as VisitType<(A, B)>>::visit_spec(visitor, value, encoded, done) && done is Ok
            && replays(visitor, encoded, maker, rest) && <M as MakeType<(A, B)>>::make_spec(
            maker,
            after,
            outcome,
        ) implies {
        &&& outcome is Ok
        &&& both_same(same_first, same_second)(outcome->Ok_0, value)
        &&& caught_up(encoded, after, rest)
    } by {
        assert(value.visit_with_spec(visitor, encoded, done));
        assert(<(A, B) as MakeWith<M>>::make_with_spec(maker, after, outcome));
        lemma_pair_reads_back(
            value,
            visitor,
            encoded,
            done,
            maker,
            rest,
            after,
            outcome,
            same_first,
            same_second,
        );
    }
}

/// Encoding a conditional field only adds to what the context has emitted,
/// where encoding its value does.
pub proof fn lemma_conditionals_append<V, C, T>() where
    V: VisitType<T> + VisitType<Conditional<C, T>> + Visitor,
    <V as Visitor>::Error: From<ConditionalError>,
    C: Condition<V>,

    requires
        visits_by_itself::<V, Conditional<C, T>>(),
        appends::<V, T>(),
    ensures
        appends::<V, Conditional<C, T>>(),
{
    assert forall|
        before: V,
        field: Conditional<C, T>,
        after: V,
        outcome: Result<(), <V as Visitor>::Error>,
    |
        #![trigger <V as VisitType<Conditional<C, T>>>::visit_spec(before, field, after, outcome)]
        <V as VisitType<Conditional<C, T>>>::visit_spec(before, field, after, outcome)
            && outcome is Ok implies extends(before, after) by {
        assert(<Conditional<C, T> as VisitWith<V>>::visit_with_spec(field, before, after, outcome));
        lemma_appended_none(before);
    }
}

/// Conditional fields are read back where their values are and the condition
/// is told alike of the two contexts.
pub proof fn lemma_conditionals_read_back<V, M, C, T>(same: spec_fn(T, T) -> bool) where
    V: VisitType<T> + VisitType<Conditional<C, T>> + Visitor + Has<Slots>,
    <V as Visitor>::Error: From<ConditionalError>,
    M: MakeType<T> + MakeType<Conditional<C, T>> + Maker + Has<Slots>,
    <M as Maker>::Error: From<ConditionalError>,
    C: Condition<V> + Condition<M>,

    requires
        visits_by_itself::<V, Conditional<C, T>>(),
        makes_by_itself::<M, Conditional<C, T>>(),
        condition_agrees::<V, M, C>(),
        reads_back::<V, M, T>(same),
    ensures
        reads_back::<V, M, Conditional<C, T>>(same_if_present(same)),
{
    assert forall|
        visitor: V,
        field: Conditional<C, T>,
        encoded: V,
        done: Result<(), <V as Visitor>::Error>,
        maker: M,
        rest: Seq<u8>,
        after: M,
        outcome: Result<Conditional<C, T>, <M as Maker>::Error>,
    |
        #![trigger
            <V as VisitType<Conditional<C, T>>>::visit_spec(visitor, field, encoded, done),
            replays(visitor, encoded, maker, rest),
            <M as MakeType<Conditional<C, T>>>::make_spec(maker, after, outcome)
        ]
        <V as VisitType<Conditional<C, T>>>::visit_spec(visitor, field, encoded, done)
            && done is Ok && replays(visitor, encoded, maker, rest) && <M as MakeType<
            Conditional<C, T>,
        >>::make_spec(maker, after, outcome) implies {
        &&& outcome is Ok
        &&& same_if_present::<C, T>(same)(outcome->Ok_0, field)
        &&& caught_up(encoded, after, rest)
    } by {
        assert(<Conditional<C, T> as VisitWith<V>>::visit_with_spec(field, visitor, encoded, done));
        assert(<Conditional<C, T> as MakeWith<M>>::make_with_spec(maker, after, outcome));
        lemma_conditional_reads_back(
            field,
            visitor,
            encoded,
            done,
            maker,
            rest,
            after,
            outcome,
            same,
        );
    }
}

/// Encoding a collection only adds to what the context has emitted, where
/// encoding its length and encoding each element do.
pub proof fn lemma_repeats_append<V, T, LEN>() where
    LEN: TryFrom<usize, Error = LengthError>,
    V: VisitType<LEN> + VisitType<T> + VisitType<RepeatExt<T, LEN>> + Visitor,
    <V as Visitor>::Error: From<LengthError>,

    requires
        visits_by_itself::<V, RepeatExt<T, LEN>>(),
        visitor_scopes_plain::<V>(),
        appends::<V, LEN>(),
        appends::<V, T>(),
    ensures
        appends::<V, RepeatExt<T, LEN>>(),
{
    assert forall|
        before: V,
        value: RepeatExt<T, LEN>,
        after: V,
        outcome: Result<(), <V as Visitor>::Error>,
    |
        #![trigger <V as VisitType<RepeatExt<T, LEN>>>::visit_spec(before, value, after, outcome)]
        <V as VisitType<RepeatExt<T, LEN>>>::visit_spec(before, value, after, outcome)
            && outcome is Ok implies extends(before, after) by {
        assert(<RepeatExt<T, LEN> as VisitWith<V>>::visit_with_spec(value, before, after, outcome));
        let len = <LEN as TryFromSpec<usize>>::try_from_spec(value.0@.len() as usize)->Ok_0;
        let (mid, headed) = choose|mid: V, headed: Result<(), <V as Visitor>::Error>| #[trigger]
            <V as VisitType<LEN>>::visit_spec(before, len, mid, headed) && if headed is Err {
                after == mid && outcome == headed
            } else {
                visited_run(mid, value.0@, after, outcome)
            };
        assert(<V as VisitType<LEN>>::visit_spec(before, len, mid, headed));
        let (states, done) = choose|states: Seq<V>, done: int| #[trigger]
            visits(states, value.0@, done) && states[0] == mid && if outcome is Ok {
                done == value.0@.len() && states.last() == after
            } else {
                done < value.0@.len() && visit_keyed_spec(
                    states.last(),
                    RepresentKey::Usize(done as usize),
                    value.0@[done],
                    after,
                    outcome,
                )
            };
        lemma_visits_plainly(states, value.0@, done);
        lemma_visits_extend(states, value.0@, done, 0, done);
        lemma_appended_twice(before, mid, after);
    }
}

/// Collections are read back where the length that their strategy carries is,
/// and each element is.
pub proof fn lemma_repeats_read_back<V, M, T, LEN>(same: spec_fn(T, T) -> bool) where
    LEN: TryFrom<usize, Error = LengthError>,
    V: VisitType<LEN> + VisitType<T> + VisitType<RepeatExt<T, LEN>> + Visitor + Has<Slots>,
    <V as Visitor>::Error: From<LengthError>,
    M: MakeType<LEN> + MakeType<T> + MakeType<RepeatExt<T, LEN>> + Maker + TypeAnalyzer + Has<
        Slots,
    >,
    Length<LEN>: AnalyzeWith<M>,

    requires
        visits_by_itself::<V, RepeatExt<T, LEN>>(),
        makes_by_itself::<M, RepeatExt<T, LEN>>(),
        visitor_scopes_plain::<V>(),
        maker_scopes_plain::<M>(),
        length_reads_back::<V, M, LEN>(
            |context: M, len: LEN| saturate(Length(len).dynamic_size_spec(&context)),
        ),
        appends::<V, LEN>(),
        appends::<V, T>(),
        reads_back::<V, M, T>(same),
    ensures
        reads_back::<V, M, RepeatExt<T, LEN>>(each_same(same)),
{
    assert forall|
        visitor: V,
        value: RepeatExt<T, LEN>,
        encoded: V,
        done: Result<(), <V as Visitor>::Error>,
        maker: M,
        rest: Seq<u8>,
        after: M,
        outcome: Result<RepeatExt<T, LEN>, <M as Maker>::Error>,
    |
        #![trigger
            <V as VisitType<RepeatExt<T, LEN>>>::visit_spec(visitor, value, encoded, done),
            replays(visitor, encoded, maker, rest),
            <M as MakeType<RepeatExt<T, LEN>>>::make_spec(maker, after, outcome)
        ]
        <V as VisitType<RepeatExt<T, LEN>>>::visit_spec(visitor, value, encoded, done)
            && done is Ok && replays(visitor, encoded, maker, rest) && <M as MakeType<
            RepeatExt<T, LEN>,
        >>::make_spec(maker, after, outcome) implies {
        &&& outcome is Ok
        &&& each_same::<T, LEN>(same)(outcome->Ok_0, value)
        &&& caught_up(encoded, after, rest)
    } by {
        assert(<RepeatExt<T, LEN> as VisitWith<V>>::visit_with_spec(value, visitor, encoded, done));
        assert(<RepeatExt<T, LEN> as MakeWith<M>>::make_with_spec(maker, after, outcome));
        lemma_repeat_reads_back(
            value,
            visitor,
            encoded,
            done,
            maker,
            rest,
            after,
            outcome,
            same,
        );
    }
}

/// Encoding a prefixed length only adds to what the context has emitted, where
/// encoding the integer of the prefix does.
pub proof fn lemma_len_makes_append<V, LEN, P>() where
    V: Visitor + VisitType<LEN> + VisitType<LenMake<LEN, P>>,
    <V as Visitor>::Error: From<LengthError>,
    LEN: TryFrom<usize>,

    requires
        visits_by_itself::<V, LenMake<LEN, P>>(),
        appends::<V, LEN>(),
    ensures
        appends::<V, LenMake<LEN, P>>(),
{
    assert forall|
        before: V,
        len: LenMake<LEN, P>,
        after: V,
        outcome: Result<(), <V as Visitor>::Error>,
    |
        #![trigger <V as VisitType<LenMake<LEN, P>>>::visit_spec(before, len, after, outcome)]
        <V as VisitType<LenMake<LEN, P>>>::visit_spec(before, len, after, outcome)
            && outcome is Ok implies extends(before, after) by {
        assert(<LenMake<LEN, P> as VisitWith<V>>::visit_with_spec(len, before, after, outcome));
    }
}

/// Prefixed lengths are read back where the integer of the prefix is, and the
/// integer that a number of elements is turned into turns back into that
/// number.
pub proof fn lemma_len_makes_read_back<V, M, LEN, P>() where
    V: Visitor + VisitType<LEN> + VisitType<LenMake<LEN, P>> + Has<Slots>,
    <V as Visitor>::Error: From<LengthError>,
    M: Maker + MakeType<LEN> + MakeType<LenMake<LEN, P>> + Has<Slots> + TypeAnalyzer,
    LEN: TryFrom<usize> + Into<u32>,
    P: Verify<usize>,

    requires
        visits_by_itself::<V, LenMake<LEN, P>>(),
        makes_by_itself::<M, LenMake<LEN, P>>(),
        reads_back::<V, M, LEN>(|made: LEN, given: LEN| made == given),
        forall|count: usize|
            (#[trigger] <LEN as TryFromSpec<usize>>::try_from_spec(count)) matches Ok(raw)
                ==> raw.into_spec() as usize == count,
    ensures
        length_reads_back::<V, M, LenMake<LEN, P>>(
            |context: M, len: LenMake<LEN, P>| saturate(Length(len).dynamic_size_spec(&context)),
        ),
{
    assert forall|
        visitor: V,
        count: usize,
        encoded: V,
        done: Result<(), <V as Visitor>::Error>,
        maker: M,
        rest: Seq<u8>,
        after: M,
        outcome: Result<LenMake<LEN, P>, <M as Maker>::Error>,
    |
        #![trigger
            <V as VisitType<LenMake<LEN, P>>>::visit_spec(
                visitor,
                <LenMake<LEN, P> as TryFromSpec<usize>>::try_from_spec(count)->Ok_0,
                encoded,
                done,
            ),
            replays(visitor, encoded, maker, rest),
            <M as MakeType<LenMake<LEN, P>>>::make_spec(maker, after, outcome)
        ]
        <LenMake<LEN, P> as TryFromSpec<usize>>::try_from_spec(count) is Ok && <V as VisitType<
            LenMake<LEN, P>,
        >>::visit_spec(
            visitor,
            <LenMake<LEN, P> as TryFromSpec<usize>>::try_from_spec(count)->Ok_0,
            encoded,
            done,
        ) && done is Ok && replays(visitor, encoded, maker, rest) && <M as MakeType<
            LenMake<LEN, P>,
        >>::make_spec(maker, after, outcome) implies {
        &&& outcome is Ok
        &&& saturate(Length(outcome->Ok_0).dynamic_size_spec(&after)) == count
        &&& caught_up(encoded, after, rest)
    } by {
        let len = <LenMake<LEN, P> as TryFromSpec<usize>>::try_from_spec(count)->Ok_0;
        assert(len == LenMake::<LEN, P>::of(count));
        assert(<LenMake<LEN, P> as VisitWith<V>>::visit_with_spec(len, visitor, encoded, done));
        assert(<LenMake<LEN, P> as MakeWith<M>>::make_with_spec(maker, after, outcome));
        lemma_len_make_reads_back::<V, M, LEN, P>(
            visitor,
            count,
            encoded,
            done,
            maker,
            rest,
            after,
            outcome,
        );
    }
}

/// Whether contexts of type `A` tell of every `T` the size that the `T` tells
/// of itself.
pub open spec fn sizes_by_itself<A: AnalyzeType<T>, T: AnalyzeWith<A>>() -> bool {
    forall|context: A, value: T|
        #![trigger context.type_dynamic_size_spec(&value)]
        context.type_dynamic_size_spec(&value) == value.dynamic_size_spec(&context)
}

/// Where a context tells of a `T` the size that the `T` tells of itself, to
/// emit the one is to emit the other.
pub proof fn lemma_emits_as_told<V, T>() where
    V: VisitType<T> + AnalyzeType<T>,
    T: AnalyzeWith<V>,

    requires
        sizes_by_itself::<V, T>(),
    ensures
        emits::<V, T>(|context: V, value: T| value.dynamic_size_spec(&context)) <==> emits::<V, T>(
            |context: V, value: T| context.type_dynamic_size_spec(&value),
        ),
{
    let own = |context: V, value: T| value.dynamic_size_spec(&context);
    let told = |context: V, value: T| context.type_dynamic_size_spec(&value);
    assert(own =~= told) by {
        assert forall|context: V, value: T| #[trigger]
            own(context, value) == told(context, value) by {
            assert(context.type_dynamic_size_spec(&value) == value.dynamic_size_spec(&context));
        }
    }
}

/// A record emits the size that it tells of itself, where each field emits the
/// size that the context tells of it.
pub proof fn lemma_pairs_emit<V, A, B>() where
    V: Visitor + VisitType<A> + VisitType<B> + VisitType<(A, B)> + TypeAnalyzer + AnalyzeType<
        A,
    > + AnalyzeType<B>,

    requires
        visits_by_itself::<V, (A, B)>(),
        visitor_scopes_plain::<V>(),
        emits::<V, A>(|context: V, field: A| context.type_dynamic_size_spec(&field)),
        emits::<V, B>(|context: V, field: B| context.type_dynamic_size_spec(&field)),
        type_size_context_free::<V, B>(),
    ensures
        emits::<V, (A, B)>(|context: V, value: (A, B)| value.dynamic_size_spec(&context)),
{
    assert forall|before: V, value: (A, B), after: V, outcome: Result<(), <V as Visitor>::Error>|
        #![trigger <V as VisitType<(A, B)>>::visit_spec(before, value, after, outcome)]
        <V as VisitType<(A, B)>>::visit_spec(before, value, after, outcome)
            && outcome is Ok implies extends(before, after) && appended(before, after).len()
        == <(A, B) as AnalyzeWith<V>>::dynamic_size_spec(&value, &before) by {
        assert(value.visit_with_spec(before, after, outcome));
        lemma_pair_sized(value, before, after, outcome);
    }
}

/// A conditional field emits the size that it tells of itself, where its value
/// does.
pub proof fn lemma_conditionals_emit<V, C, T>() where
    V: VisitType<T> + VisitType<Conditional<C, T>> + Visitor + TypeAnalyzer,
    C: Condition<V>,
    T: AnalyzeWith<V>,
    <V as Visitor>::Error: From<ConditionalError>,

    requires
        visits_by_itself::<V, Conditional<C, T>>(),
        emits::<V, T>(|context: V, value: T| value.dynamic_size_spec(&context)),
    ensures
        emits::<V, Conditional<C, T>>(
            |context: V, field: Conditional<C, T>| field.dynamic_size_spec(&context),
        ),
{
    assert forall|
        before: V,
        field: Conditional<C, T>,
        after: V,
        outcome: Result<(), <V as Visitor>::Error>,
    |
        #![trigger <V as VisitType<Conditional<C, T>>>::visit_spec(before, field, after, outcome)]
        <V as VisitType<Conditional<C, T>>>::visit_spec(before, field, after, outcome)
            && outcome is Ok implies extends(before, after) && appended(before, after).len()
        == <Conditional<C, T> as AnalyzeWith<V>>::dynamic_size_spec(&field, &before) by {
        assert(<Conditional<C, T> as VisitWith<V>>::visit_with_spec(field, before, after, outcome));
        lemma_conditional_sized(field, before, after, outcome);
    }
}

/// A prefixed length emits the constant that the analysis gives it, where the
/// integer of the prefix emits its size.
pub proof fn lemma_len_makes_emit<V, LEN: TryFrom<usize>, P>() where
    V: Visitor + VisitType<LEN> + VisitType<LenMake<LEN, P>> + TypeAnalyzer,
    <V as Visitor>::Error: From<LengthError>,

    requires
        visits_by_itself::<V, LenMake<LEN, P>>(),
        vstd::layout::size_of::<LEN>() <= usize::MAX,
        emits::<V, LEN>(|context: V, value: LEN| vstd::layout::size_of::<LEN>()),
    ensures
        emits::<V, LenMake<LEN, P>>(
            |context: V, len: LenMake<LEN, P>|
                <LenMake<LEN, P> as AnalyzeWith<V>>::size_class().const_part(),
        ),
{
    assert forall|
        before: V,
        len: LenMake<LEN, P>,
        after: V,
        outcome: Result<(), <V as Visitor>::Error>,
    |
        #![trigger <V as VisitType<LenMake<LEN, P>>>::visit_spec(before, len, after, outcome)]
        <V as VisitType<LenMake<LEN, P>>>::visit_spec(before, len, after, outcome)
            && outcome is Ok implies extends(before, after) && appended(before, after).len()
        == <LenMake<LEN, P> as AnalyzeWith<V>>::size_class().const_part() by {
        assert(<LenMake<LEN, P> as VisitWith<V>>::visit_with_spec(len, before, after, outcome));
        lemma_len_make_sized(len, before, after, outcome);
    }
}

/// A collection emits the size that it tells of itself, where its length emits
/// the constant that the analysis gives it and each element emits the size
/// that it tells of itself, the same under every context.
pub proof fn lemma_repeats_emit<V, T, LEN>() where
    LEN: TryFrom<usize, Error = LengthError> + AnalyzeWith<V>,
    V: VisitType<LEN> + VisitType<T> + VisitType<RepeatExt<T, LEN>> + Visitor + TypeAnalyzer,
    T: AnalyzeWith<V>,
    Length<LEN>: AnalyzeWith<V>,
    <V as Visitor>::Error: From<LengthError>,

    requires
        visits_by_itself::<V, RepeatExt<T, LEN>>(),
        visitor_scopes_plain::<V>(),
        emits::<V, LEN>(|context: V, len: LEN| <LEN as AnalyzeWith<V>>::size_class().const_part()),
        emits::<V, T>(|context: V, item: T| item.dynamic_size_spec(&context)),
        size_context_free::<V, T>(),
    ensures
        emits::<V, RepeatExt<T, LEN>>(
            |context: V, value: RepeatExt<T, LEN>| value.dynamic_size_spec(&context),
        ),
{
    assert forall|
        before: V,
        value: RepeatExt<T, LEN>,
        after: V,
        outcome: Result<(), <V as Visitor>::Error>,
    |
        #![trigger <V as VisitType<RepeatExt<T, LEN>>>::visit_spec(before, value, after, outcome)]
        <V as VisitType<RepeatExt<T, LEN>>>::visit_spec(before, value, after, outcome)
            && outcome is Ok implies extends(before, after) && appended(before, after).len()
        == <RepeatExt<T, LEN> as AnalyzeWith<V>>::dynamic_size_spec(&value, &before) by {
        assert(<RepeatExt<T, LEN> as VisitWith<V>>::visit_with_spec(value, before, after, outcome));
        lemma_repeat_sized(value, before, after, outcome);
    }
}

/// Fields that publish their value are read back, and leave the two slot
/// registers alike, where their values are read back apart from the registers.
pub proof fn lemma_stores_read_back<V, M, T, const SLOT: usize>() where
    V: VisitType<T> + VisitType<Store<T, SLOT>> + Visitor + Has<Slots>,
    <V as Visitor>::Error: From<SlotStoreError>,
    M: MakeType<T> + MakeType<Store<T, SLOT>> + Maker + Has<Slots>,
    <M as Maker>::Error: From<SlotStoreError>,
    T: Into<u32> + Clone,

    requires
        visits_by_itself::<V, Store<T, SLOT>>(),
        makes_by_itself::<M, Store<T, SLOT>>(),
        clone_keeps_value::<T>(),
        visitor_slots_apart::<V>(),
        maker_slots_apart::<M>(),
        reads_back_apart::<V, M, T>(),
    ensures
        reads_back::<V, M, Store<T, SLOT>>(
            |made: Store<T, SLOT>, given: Store<T, SLOT>| made == given,
        ),
{
    assert forall|
        visitor: V,
        field: Store<T, SLOT>,
        encoded: V,
        done: Result<(), <V as Visitor>::Error>,
        maker: M,
        rest: Seq<u8>,
        after: M,
        outcome: Result<Store<T, SLOT>, <M as Maker>::Error>,
    |
        #![trigger
            <V as VisitType<Store<T, SLOT>>>::visit_spec(visitor, field, encoded, done),
            replays(visitor, encoded, maker, rest),
            <M as MakeType<Store<T, SLOT>>>::make_spec(maker, after, outcome)
        ]
        <V as VisitType<Store<T, SLOT>>>::visit_spec(visitor, field, encoded, done) && done is Ok
            && replays(visitor, encoded, maker, rest) && <M as MakeType<
            Store<T, SLOT>,
        >>::make_spec(maker, after, outcome) implies {
        &&& outcome is Ok
        &&& outcome->Ok_0 == field
        &&& caught_up(encoded, after, rest)
    } by {
        assert(<Store<T, SLOT> as VisitWith<V>>::visit_with_spec(field, visitor, encoded, done));
        assert(<Store<T, SLOT> as MakeWith<M>>::make_with_spec(maker, after, outcome));
        lemma_store_reads_back(field, visitor, encoded, done, maker, rest, after, outcome);
    }
}

/// Runs are read back where the length that their strategy carries is, and the
/// context reads back what it writes as a run.
pub proof fn lemma_big_arrs_read_back<V, M, T, LEN>() where
    LEN: TryFrom<usize>,
    V: VisitType<LEN> + VisitType<BigArr<T, LEN>> + VisitBlob<T> + Has<Slots>,
    <V as Visitor>::Error: From<<LEN as TryFrom<usize>>::Error>,
    M: MakeType<LEN> + MakeType<BigArr<T, LEN>> + AnalyzeType<Length<LEN>> + MakeBlob<T> + Has<
        Slots,
    >,

    requires
        visits_by_itself::<V, BigArr<T, LEN>>(),
        makes_by_itself::<M, BigArr<T, LEN>>(),
        length_reads_back::<V, M, LEN>(
            |context: M, len: LEN| saturate(context.type_dynamic_size_spec(&Length(len))),
        ),
        appends::<V, LEN>(),
        appends_blob::<V, T>(),
        reads_back_blob::<V, M, T>(),
    ensures
        reads_back::<V, M, BigArr<T, LEN>>(
            |made: BigArr<T, LEN>, given: BigArr<T, LEN>| made.0@ == given.0@,
        ),
{
    assert forall|
        visitor: V,
        value: BigArr<T, LEN>,
        encoded: V,
        done: Result<(), <V as Visitor>::Error>,
        maker: M,
        rest: Seq<u8>,
        after: M,
        outcome: Result<BigArr<T, LEN>, <M as Maker>::Error>,
    |
        #![trigger
            <V as VisitType<BigArr<T, LEN>>>::visit_spec(visitor, value, encoded, done),
            replays(visitor, encoded, maker, rest),
            <M as MakeType<BigArr<T, LEN>>>::make_spec(maker, after, outcome)
        ]
        <V as VisitType<BigArr<T, LEN>>>::visit_spec(visitor, value, encoded, done) && done is Ok
            && replays(visitor, encoded, maker, rest) && <M as MakeType<
            BigArr<T, LEN>,
        >>::make_spec(maker, after, outcome) implies {
        &&& outcome is Ok
        &&& (outcome->Ok_0).0@ == value.0@
        &&& caught_up(encoded, after, rest)
    } by {
        assert(<BigArr<T, LEN> as VisitWith<V>>::visit_with_spec(value, visitor, encoded, done));
        assert(<BigArr<T, LEN> as MakeWith<M>>::make_with_spec(maker, after, outcome));
        lemma_big_arr_reads_back(value, visitor, encoded, done, maker, rest, after, outcome);
    }
}

/// Constant lengths are read back: nothing is encoded for them, and decoding
/// yields the constant.
pub proof fn lemma_len_consts_read_back<V, M, const LEN: usize>() where
    V: Visitor + VisitType<LenConst<LEN>> + Has<Slots>,
    M: Maker + MakeType<LenConst<LEN>> + Has<Slots> + TypeAnalyzer,

    requires
        visits_by_itself::<V, LenConst<LEN>>(),
        makes_by_itself::<M, LenConst<LEN>>(),
    ensures
        length_reads_back::<V, M, LenConst<LEN>>(
            |context: M, len: LenConst<LEN>| saturate(Length(len).dynamic_size_spec(&context)),
        ),
{
    assert forall|
        visitor: V,
        count: usize,
        encoded: V,
        done: Result<(), <V as Visitor>::Error>,
        maker: M,
        rest: Seq<u8>,
        after: M,
        outcome: Result<LenConst<LEN>, <M as Maker>::Error>,
    |
        #![trigger
            <V as VisitType<LenConst<LEN>>>::visit_spec(
                visitor,
                <LenConst<LEN> as TryFromSpec<usize>>::try_from_spec(count)->Ok_0,
                encoded,
                done,
            ),
            replays(visitor, encoded, maker, rest),
            <M as MakeType<LenConst<LEN>>>::make_spec(maker, after, outcome)
        ]
        <LenConst<LEN> as TryFromSpec<usize>>::try_from_spec(count) is Ok && <V as VisitType<
            LenConst<LEN>,
        >>::visit_spec(
            visitor,
            <LenConst<LEN> as TryFromSpec<usize>>::try_from_spec(count)->Ok_0,
            encoded,
            done,
        ) && done is Ok && replays(visitor, encoded, maker, rest) && <M as MakeType<
            LenConst<LEN>,
        >>::make_spec(maker, after, outcome) implies {
        &&& outcome is Ok
        &&& saturate(Length(outcome->Ok_0).dynamic_size_spec(&after)) == count
        &&& caught_up(encoded, after, rest)
    } by {
        let len = <LenConst<LEN> as TryFromSpec<usize>>::try_from_spec(count)->Ok_0;
        assert(<LenConst<LEN> as VisitWith<V>>::visit_with_spec(len, visitor, encoded, done));
        assert(<LenConst<LEN> as MakeWith<M>>::make_with_spec(maker, after, outcome));
        lemma_len_const_reads_back::<V, M, LEN>(
            visitor,
            count,
            encoded,
            done,
            maker,
            rest,
            after,
            outcome,
        );
    }
}

/// Lengths kept in a slot are read back where the two slot registers are
/// alike: nothing is encoded for them, and decoding loads what encoding stored.
pub proof fn lemma_len_slots_read_back<V, M, P, const SLOT: usize>() where
    V: Visitor + VisitType<LenSlot<P, SLOT>> + Has<Slots>,
    <V as Visitor>::Error: From<LengthError>,
    M: Maker + MakeType<LenSlot<P, SLOT>> + Has<Slots> + TypeAnalyzer,
    <M as Maker>::Error: From<LengthError>,
    P: Verify<usize>,

    requires
        visits_by_itself::<V, LenSlot<P, SLOT>>(),
        makes_by_itself::<M, LenSlot<P, SLOT>>(),
    ensures
        length_reads_back::<V, M, LenSlot<P, SLOT>>(
            |context: M, len: LenSlot<P, SLOT>| saturate(Length(len).dynamic_size_spec(&context)),
        ),
{
    assert forall|
        visitor: V,
        count: usize,
        encoded: V,
        done: Result<(), <V as Visitor>::Error>,
        maker: M,
        rest: Seq<u8>,
        after: M,
        outcome: Result<LenSlot<P, SLOT>, <M as Maker>::Error>,
    |
        #![trigger
            <V as VisitType<LenSlot<P, SLOT>>>::visit_spec(
                visitor,
                <LenSlot<P, SLOT> as TryFromSpec<usize>>::try_from_spec(count)->Ok_0,
                encoded,
                done,
            ),
            replays(visitor, encoded, maker, rest),
            <M as MakeType<LenSlot<P, SLOT>>>::make_spec(maker, after, outcome)
        ]
        <LenSlot<P, SLOT> as TryFromSpec<usize>>::try_from_spec(count) is Ok && <V as VisitType<
            LenSlot<P, SLOT>,
        >>::visit_spec(
            visitor,
            <LenSlot<P, SLOT> as TryFromSpec<usize>>::try_from_spec(count)->Ok_0,
            encoded,
            done,
        ) && done is Ok && replays(visitor, encoded, maker, rest) && <M as MakeType<
            LenSlot<P, SLOT>,
        >>::make_spec(maker, after, outcome) implies {
        &&& outcome is Ok
        &&& saturate(Length(outcome->Ok_0).dynamic_size_spec(&after)) == count
        &&& caught_up(encoded, after, rest)
    } by {
        let len = <LenSlot<P, SLOT> as TryFromSpec<usize>>::try_from_spec(count)->Ok_0;
        assert(len == LenSlot::<P, SLOT>::of(count));
        assert(<LenSlot<P, SLOT> as VisitWith<V>>::visit_with_spec(len, visitor, encoded, done));
        assert(<LenSlot<P, SLOT> as MakeWith<M>>::make_with_spec(maker, after, outcome));
        lemma_len_slot_reads_back::<V, M, P, SLOT>(
            visitor,
            count,
            encoded,
            done,
            maker,
            rest,
            after,
            outcome,
        );
    }
}

/// A collection of records behind a prefixed length is read back by contexts
/// that leave each block to the block itself and read back the three kinds of
/// value at the bottom: the two fields and the integer of the prefix.
pub proof fn lemma_repeated_pairs_read_back<V, M, A, B, LEN, P>(
    same_first: spec_fn(A, A) -> bool,
    same_second: spec_fn(B, B) -> bool,
) where
    V: Visitor + VisitType<A> + VisitType<B> + VisitType<(A, B)> + VisitType<LEN> + VisitType<
        LenMake<LEN, P>,
    > + VisitType<RepeatExt<(A, B), LenMake<LEN, P>>> + Has<Slots>,
    <V as Visitor>::Error: From<LengthError>,
    M: Maker + MakeType<A> + MakeType<B> + MakeType<(A, B)> + MakeType<LEN> + MakeType<
        LenMake<LEN, P>,
    > + MakeType<RepeatExt<(A, B), LenMake<LEN, P>>> + TypeAnalyzer + Has<Slots>,
    LEN: TryFrom<usize> + Into<u32>,
    P: Verify<usize>,

    requires
        visits_by_itself::<V, (A, B)>(),
        visits_by_itself::<V, LenMake<LEN, P>>(),
        visits_by_itself::<V, RepeatExt<(A, B), LenMake<LEN, P>>>(),
        makes_by_itself::<M, (A, B)>(),
        makes_by_itself::<M, LenMake<LEN, P>>(),
        makes_by_itself::<M, RepeatExt<(A, B), LenMake<LEN, P>>>(),
        visitor_scopes_plain::<V>(),
        maker_scopes_plain::<M>(),
        appends::<V, A>(),
        appends::<V, B>(),
        appends::<V, LEN>(),
        reads_back::<V, M, A>(same_first),
        reads_back::<V, M, B>(same_second),
        reads_back::<V, M, LEN>(|made: LEN, given: LEN| made == given),
        forall|count: usize|
            (#[trigger] <LEN as TryFromSpec<usize>>::try_from_spec(count)) matches Ok(raw)
                ==> raw.into_spec() as usize == count,
    ensures
        appends::<V, RepeatExt<(A, B), LenMake<LEN, P>>>(),
        reads_back::<V, M, RepeatExt<(A, B), LenMake<LEN, P>>>(
            each_same(both_same(same_first, same_second)),
        ),
{
    lemma_pairs_append::<V, A, B>();
    lemma_pairs_read_back::<V, M, A, B>(same_first, same_second);
    lemma_len_makes_append::<V, LEN, P>();
    lemma_len_makes_read_back::<V, M, LEN, P>();
    lemma_repeats_append::<V, (A, B), LenMake<LEN, P>>();
    lemma_repeats_read_back::<V, M, (A, B), LenMake<LEN, P>>(both_same(same_first, same_second));
}

} // verus!
