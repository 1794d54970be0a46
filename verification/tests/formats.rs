use std::convert::Infallible;
use std::convert::TryFrom;
use std::num::TryFromIntError;

use represent::analysis::{AnalyzeType, AnalyzeWith, AssertConstOrFixed, TypeAnalyzer};
use represent::generics::blob::{BigArr, BigStr, MaybeStr};
use represent::generics::collections::RepeatExt;
use represent::generics::condition::{
    Condition, Conditional, ConditionalError, Equal, Flag, Not, NotEqual,
};
use represent::generics::length::{
    FixedLen, LenConst, LenMake, LenRest, LenSlot, Length, LengthError, MaxClamp, MaxSkip, Rest,
};
use represent::generics::slots::{Load, SlotLoadError, SlotStoreError, Slots, Store};
use represent::generics::utility::Dbg;
use represent::generics::{Has, HasValue, MaybeHas};
use represent::traits::{BytesLeft, MakeBlob, VisitBlob};
use represent::typedefs::{
    BigArrMake, BigStaticArr, RepeatMake, RepeatSlot, StaticStr, TailBytes,
};
use represent::{
    MakeType, MakeWith, Maker, RepresentKey, TypeSize, VisitType, VisitWith, Visitor,
};

#[derive(Debug, PartialEq)]
enum Error {
    End,
    Length(LengthError),
    Conditional(ConditionalError),
    Store(SlotStoreError),
    EmptySlot,
    BadSlotValue,
}

impl From<LengthError> for Error {
    fn from(error: LengthError) -> Self {
        Error::Length(error)
    }
}

impl From<ConditionalError> for Error {
    fn from(error: ConditionalError) -> Self {
        Error::Conditional(error)
    }
}

impl From<SlotStoreError> for Error {
    fn from(error: SlotStoreError) -> Self {
        Error::Store(error)
    }
}

impl From<Infallible> for Error {
    fn from(error: Infallible) -> Self {
        match error {}
    }
}

impl From<SlotLoadError<TryFromIntError>> for Error {
    fn from(error: SlotLoadError<TryFromIntError>) -> Self {
        match error {
            SlotLoadError::EmptySlot => Error::EmptySlot,
            SlotLoadError::TryFrom(_) => Error::BadSlotValue,
        }
    }
}

impl From<SlotLoadError<Infallible>> for Error {
    fn from(error: SlotLoadError<Infallible>) -> Self {
        match error {
            SlotLoadError::EmptySlot => Error::EmptySlot,
            SlotLoadError::TryFrom(_) => Error::BadSlotValue,
        }
    }
}

/// A buffer that is written at its end and read from `pos` on.
#[derive(Debug, Default)]
struct Ctx {
    buf: Vec<u8>,
    pos: usize,
    slots: Slots,
}

impl Ctx {
    fn reading(bytes: &[u8]) -> Ctx {
        Ctx {
            buf: bytes.to_vec(),
            pos: 0,
            slots: Slots::default(),
        }
    }

    fn reread(self) -> Ctx {
        Ctx {
            buf: self.buf,
            pos: 0,
            slots: Slots::default(),
        }
    }

    fn take(&mut self, count: usize) -> Result<&[u8], Error> {
        if self.buf.len() - self.pos < count {
            return Err(Error::End);
        }
        let bytes = &self.buf[self.pos..self.pos + count];
        self.pos += count;
        Ok(bytes)
    }
}

impl Visitor for Ctx {
    type Error = Error;
}

impl Maker for Ctx {
    type Error = Error;
}

impl TypeAnalyzer for Ctx {}

impl BytesLeft for Ctx {
    fn bytes_left(&self) -> usize {
        self.buf.len() - self.pos
    }
}

impl HasValue<Slots> for Ctx {
    type Value = Slots;

    fn give_value(&self) -> &Slots {
        &self.slots
    }

    fn give_value_mut(&mut self) -> &mut Slots {
        &mut self.slots
    }
}

impl VisitType<u8> for Ctx {
    fn visit(&mut self, target: &u8) -> Result<(), Error> {
        self.buf.push(*target);
        Ok(())
    }
}

impl VisitType<u16> for Ctx {
    fn visit(&mut self, target: &u16) -> Result<(), Error> {
        self.buf.extend_from_slice(&target.to_le_bytes());
        Ok(())
    }
}

impl VisitType<u32> for Ctx {
    fn visit(&mut self, target: &u32) -> Result<(), Error> {
        self.buf.extend_from_slice(&target.to_le_bytes());
        Ok(())
    }
}

impl MakeType<u8> for Ctx {
    fn make_type(&mut self) -> Result<u8, Error> {
        let bytes = self.take(1)?;
        Ok(bytes[0])
    }
}

impl MakeType<u16> for Ctx {
    fn make_type(&mut self) -> Result<u16, Error> {
        let bytes = self.take(2)?;
        Ok(u16::from_le_bytes([bytes[0], bytes[1]]))
    }
}

impl MakeType<u32> for Ctx {
    fn make_type(&mut self) -> Result<u32, Error> {
        let bytes = self.take(4)?;
        Ok(u32::from_le_bytes([bytes[0], bytes[1], bytes[2], bytes[3]]))
    }
}

impl<T: VisitWith<Ctx>> VisitType<T> for Ctx {
    fn visit(&mut self, target: &T) -> Result<(), Error> {
        target.visit_with(self)
    }
}

impl<T: MakeWith<Ctx>> MakeType<T> for Ctx {
    fn make_type(&mut self) -> Result<T, Error> {
        T::make_with(self)
    }
}

impl<T: AnalyzeWith<Ctx>> AnalyzeType<T> for Ctx {
    fn type_const_size() -> TypeSize {
        T::const_size()
    }

    fn type_fixed_size(&self) -> usize {
        T::fixed_size(self)
    }

    fn type_dynamic_size(&self, target: &T) -> usize {
        target.dynamic_size(self)
    }
}

impl AnalyzeWith<Ctx> for u8 {
    fn const_size() -> TypeSize {
        TypeSize::Const(1)
    }

    fn fixed_size(_analyzer: &Ctx) -> usize {
        1
    }

    fn dynamic_size(&self, _analyzer: &Ctx) -> usize {
        1
    }
}

impl AnalyzeWith<Ctx> for u16 {
    fn const_size() -> TypeSize {
        TypeSize::Const(2)
    }

    fn fixed_size(_analyzer: &Ctx) -> usize {
        2
    }

    fn dynamic_size(&self, _analyzer: &Ctx) -> usize {
        2
    }
}

impl<T: bytemuck::Pod> VisitBlob<T> for Ctx {
    fn visit_blob(&mut self, blob: &[T]) -> Result<(), Error> {
        self.buf.extend_from_slice(bytemuck::cast_slice(blob));
        Ok(())
    }
}

impl<T: bytemuck::Pod> MakeBlob<T> for Ctx {
    fn make_blob(&mut self, len: usize) -> Result<Vec<T>, Error> {
        let bytes = self.take(len * std::mem::size_of::<T>())?;
        Ok(bytes
            .chunks_exact(std::mem::size_of::<T>())
            .map(bytemuck::pod_read_unaligned)
            .collect())
    }
}

fn encode<T: VisitWith<Ctx>>(value: &T) -> Result<Vec<u8>, Error> {
    let mut ctx = Ctx::default();
    value.visit_with(&mut ctx)?;
    Ok(ctx.buf)
}

// ---------------------------------------------------------------- lengths

#[test]
fn const_length_takes_only_its_own_number() {
    assert!(LenConst::<3>::try_from(3).is_ok());
    assert_eq!(
        LenConst::<3>::try_from(4).unwrap_err(),
        LengthError::ConstNotEqual {
            const_size: 3,
            from: 4
        }
    );
    assert_eq!(
        LenConst::<3>::try_from(0).unwrap_err(),
        LengthError::ConstNotEqual {
            const_size: 3,
            from: 0
        }
    );
}

#[test]
fn const_length_is_sized_as_no_header_and_fixed_count() {
    let ctx = Ctx::default();
    assert_eq!(
        <LenConst<5> as AnalyzeWith<Ctx>>::const_size(),
        TypeSize::Const(0)
    );
    assert_eq!(
        <Length<LenConst<5>> as AnalyzeWith<Ctx>>::const_size(),
        TypeSize::Const(5)
    );
    assert_eq!(<Length<LenConst<5>> as AnalyzeWith<Ctx>>::fixed_size(&ctx), 5);
    assert_eq!(Length(LenConst::<5>).dynamic_size(&ctx), 5);
    assert_eq!(encode(&LenConst::<5>), Ok(vec![]));
}

#[test]
fn prefixed_length_is_written_in_its_width() {
    let len = LenMake::<u16>::try_from(0x0102).unwrap();
    assert_eq!(encode(&len), Ok(vec![0x02, 0x01]));
    let len = LenMake::<u8>::try_from(255).unwrap();
    assert_eq!(encode(&len), Ok(vec![255]));
}

#[test]
fn prefixed_length_that_does_not_fit_is_refused() {
    let len = LenMake::<u8>::try_from(256).unwrap();
    assert_eq!(
        encode(&len),
        Err(Error::Length(LengthError::MakeCantFit { size: 256 }))
    );
    let len = LenMake::<u16>::try_from(65536).unwrap();
    assert_eq!(
        encode(&len),
        Err(Error::Length(LengthError::MakeCantFit { size: 65536 }))
    );
}

#[test]
fn prefixed_length_is_read_back() {
    let mut ctx = Ctx::reading(&[7, 9]);
    let len: LenMake<u8> = ctx.make().unwrap();
    assert_eq!(Length(len).dynamic_size(&ctx), 7);
    assert_eq!(ctx.pos, 1);
    let mut ctx = Ctx::reading(&[]);
    let len: Result<LenMake<u8>, Error> = ctx.make();
    assert_eq!(len.unwrap_err(), Error::End);
}

#[test]
fn prefixed_length_is_sized_by_its_field() {
    assert_eq!(
        <LenMake<u16> as AnalyzeWith<Ctx>>::const_size(),
        TypeSize::Const(2)
    );
    assert_eq!(
        <LenMake<u32> as AnalyzeWith<Ctx>>::const_size(),
        TypeSize::Const(4)
    );
    assert_eq!(
        <Length<LenMake<u16>> as AnalyzeWith<Ctx>>::const_size(),
        TypeSize::Dynamic
    );
}

#[test]
fn clamp_policy_cuts_decoded_lengths_down() {
    let mut ctx = Ctx::reading(&[200]);
    let len: LenMake<u8, MaxClamp<100>> = ctx.make().unwrap();
    assert_eq!(Length(len).dynamic_size(&ctx), 100);
    let mut ctx = Ctx::reading(&[99]);
    let len: LenMake<u8, MaxClamp<100>> = ctx.make().unwrap();
    assert_eq!(Length(len).dynamic_size(&ctx), 99);
}

#[test]
fn skip_policy_reads_large_lengths_as_zero() {
    let mut ctx = Ctx::reading(&[200]);
    let len: LenMake<u8, MaxSkip<100>> = ctx.make().unwrap();
    assert_eq!(Length(len).dynamic_size(&ctx), 0);
    let mut ctx = Ctx::reading(&[100]);
    let len: LenMake<u8, MaxSkip<100>> = ctx.make().unwrap();
    assert_eq!(Length(len).dynamic_size(&ctx), 100);
}

#[test]
fn policies_refuse_lengths_that_would_not_read_back() {
    assert_eq!(
        LenMake::<u8, MaxClamp<100>>::try_from(101).unwrap_err(),
        LengthError::Verify {
            from: 101,
            verified: 100
        }
    );
    assert!(LenMake::<u8, MaxClamp<100>>::try_from(100).is_ok());
    assert_eq!(
        LenMake::<u8, MaxSkip<100>>::try_from(101).unwrap_err(),
        LengthError::Verify {
            from: 101,
            verified: 0
        }
    );
    assert_eq!(
        LenSlot::<MaxClamp<4>, 2>::try_from(9).unwrap_err(),
        LengthError::Verify {
            from: 9,
            verified: 4
        }
    );
    assert!(LenSlot::<(), 2>::try_from(9).is_ok());
}

#[test]
fn slot_length_is_read_from_the_slot() {
    let mut ctx = Ctx::reading(&[1, 2, 3]);
    ctx.slots.store(4, 3).unwrap();
    let len: LenSlot<(), 4> = ctx.make().unwrap();
    assert_eq!(Length(len).dynamic_size(&ctx), 3);
    assert_eq!(ctx.pos, 0);
}

#[test]
fn slot_length_needs_the_slot_to_be_written() {
    let mut ctx = Ctx::reading(&[1, 2, 3]);
    let len: Result<LenSlot<(), 4>, Error> = ctx.make();
    assert_eq!(
        len.unwrap_err(),
        Error::Length(LengthError::SlotIsEmpty { slot: 4 })
    );
    let len = LenSlot::<(), 4>::try_from(3).unwrap();
    let mut ctx = Ctx::default();
    assert_eq!(
        len.visit_with(&mut ctx),
        Err(Error::Length(LengthError::SlotIsEmpty { slot: 4 }))
    );
    let far: Result<LenSlot<(), 16>, Error> = ctx.make();
    assert_eq!(
        far.unwrap_err(),
        Error::Length(LengthError::SlotIsEmpty { slot: 16 })
    );
}

#[test]
fn slot_length_has_to_agree_with_the_slot() {
    let len = LenSlot::<(), 4>::try_from(3).unwrap();
    let mut ctx = Ctx::default();
    ctx.slots.store(4, 5).unwrap();
    assert_eq!(
        len.visit_with(&mut ctx),
        Err(Error::Length(LengthError::SlotNotEqual {
            slot: 4,
            stored: 5,
            from: 3
        }))
    );
    let mut ctx = Ctx::default();
    ctx.slots.store(4, 3).unwrap();
    assert_eq!(len.visit_with(&mut ctx), Ok(()));
    assert!(ctx.buf.is_empty());
}

#[test]
fn context_length_has_to_agree_with_the_context() {
    let mut ctx = Ctx::reading(&[1, 2, 3]);
    let len = FixedLen::<Rest>::from(3);
    assert_eq!(len.visit_with(&mut ctx), Ok(()));
    let len = FixedLen::<Rest>::from(2);
    assert_eq!(
        len.visit_with(&mut ctx),
        Err(Error::Length(LengthError::FixedLength {
            expected: 3,
            actual: Some(2)
        }))
    );
    let decoded: FixedLen<Rest> = ctx.make().unwrap();
    assert_eq!(
        decoded.visit_with(&mut ctx),
        Err(Error::Length(LengthError::FixedLength {
            expected: 3,
            actual: None
        }))
    );
    assert_eq!(Length(decoded).dynamic_size(&ctx), 3);
    assert_eq!(
        <Length<FixedLen<Rest>> as AnalyzeWith<Ctx>>::const_size(),
        TypeSize::Fixed
    );
    assert_eq!(
        <FixedLen<Rest> as AnalyzeWith<Ctx>>::const_size(),
        TypeSize::Const(0)
    );
}

// ---------------------------------------------------------- slot fields

#[test]
fn store_publishes_what_it_decodes() {
    let mut ctx = Ctx::reading(&[9, 1]);
    let field: Store<u8, 3> = ctx.make().unwrap();
    assert_eq!(field.inner, 9);
    assert_eq!(ctx.slots.load(3), Some(9));
    assert_eq!(ctx.slots.load(2), None);
}

#[test]
fn store_publishes_what_it_encodes() {
    let mut ctx = Ctx::default();
    Store::<u16, 0> { inner: 0x0304 }
        .visit_with(&mut ctx)
        .unwrap();
    assert_eq!(ctx.buf, vec![4, 3]);
    assert_eq!(ctx.slots.load(0), Some(0x0304));
}

#[test]
fn store_accepts_the_value_that_is_there_and_no_other() {
    let mut ctx = Ctx::default();
    ctx.slots.store(1, 7).unwrap();
    assert_eq!(Store::<u8, 1> { inner: 7 }.visit_with(&mut ctx), Ok(()));
    assert_eq!(
        Store::<u8, 1> { inner: 8 }.visit_with(&mut ctx),
        Err(Error::Store(SlotStoreError::Conflict {
            slot: 1,
            stored: 7,
            value: 8
        }))
    );
    assert_eq!(ctx.buf, vec![7]);
    let mut ctx = Ctx::reading(&[8]);
    ctx.slots.store(1, 7).unwrap();
    let field: Result<Store<u8, 1>, Error> = ctx.make();
    assert_eq!(
        field.unwrap_err(),
        Error::Store(SlotStoreError::Conflict {
            slot: 1,
            stored: 7,
            value: 8
        })
    );
}

#[test]
fn store_refuses_a_slot_beyond_the_register() {
    let mut ctx = Ctx::default();
    assert_eq!(
        Store::<u8, 16> { inner: 7 }.visit_with(&mut ctx),
        Err(Error::Store(SlotStoreError::NoSuchSlot { slot: 16 }))
    );
    assert!(ctx.buf.is_empty());
}

#[test]
fn store_is_sized_as_its_value() {
    let ctx = Ctx::default();
    assert_eq!(
        <Store<u16, 0> as AnalyzeWith<Ctx>>::const_size(),
        TypeSize::Const(2)
    );
    assert_eq!(Store::<u16, 0> { inner: 1 }.dynamic_size(&ctx), 2);
    assert_eq!(<Store<u8, 0> as AnalyzeWith<Ctx>>::fixed_size(&ctx), 1);
}

#[test]
fn load_reads_the_slot_and_no_bytes() {
    let mut ctx = Ctx::reading(&[1]);
    ctx.slots.store(5, 300).unwrap();
    let wide: Load<u16, 5> = ctx.make().unwrap();
    assert_eq!(wide.0, 300);
    let narrow: Result<Load<u8, 5>, Error> = ctx.make();
    assert_eq!(narrow.unwrap_err(), Error::BadSlotValue);
    let same: Load<u32, 5> = ctx.make().unwrap();
    assert_eq!(same.0, 300);
    assert_eq!(ctx.pos, 0);
    assert_eq!(Load::<u16, 5>(300).visit_with(&mut ctx), Ok(()));
    assert_eq!(ctx.buf, vec![1]);
}

#[test]
fn load_needs_the_slot_to_be_written() {
    let mut ctx = Ctx::reading(&[1]);
    let field: Result<Load<u8, 5>, Error> = ctx.make();
    assert_eq!(field.unwrap_err(), Error::EmptySlot);
}

// ----------------------------------------------------- conditional fields

#[test]
fn flag_tests_a_bit_of_the_slot() {
    let mut ctx = Ctx::default();
    assert_eq!(
        <Flag<0b100, 2> as Condition<Ctx>>::check(&ctx),
        Err(ConditionalError::SlotIsEmpty { slot: 2 })
    );
    ctx.slots.store(2, 0b110).unwrap();
    assert_eq!(<Flag<0b100, 2> as Condition<Ctx>>::check(&ctx), Ok(true));
    assert_eq!(<Flag<0b001, 2> as Condition<Ctx>>::check(&ctx), Ok(false));
    assert_eq!(
        <Not<Flag<0b001, 2>> as Condition<Ctx>>::check(&ctx),
        Ok(true)
    );
    assert!(!<Flag<0b100, 2> as Condition<Ctx>>::FIXED);
}

#[test]
fn equal_tests_the_value_of_the_slot() {
    let mut ctx = Ctx::default();
    assert_eq!(
        <Equal<6, 2> as Condition<Ctx>>::check(&ctx),
        Err(ConditionalError::SlotIsEmpty { slot: 2 })
    );
    ctx.slots.store(2, 6).unwrap();
    assert_eq!(<Equal<6, 2> as Condition<Ctx>>::check(&ctx), Ok(true));
    assert_eq!(<Equal<7, 2> as Condition<Ctx>>::check(&ctx), Ok(false));
    assert_eq!(<NotEqual<7, 2> as Condition<Ctx>>::check(&ctx), Ok(true));
    assert_eq!(<NotEqual<6, 2> as Condition<Ctx>>::check(&ctx), Ok(false));
    assert_eq!(<Dbg<Equal<6, 2>> as Condition<Ctx>>::check(&ctx), Ok(true));
}

#[test]
fn conditional_is_decoded_where_the_condition_holds() {
    let mut ctx = Ctx::reading(&[9]);
    ctx.slots.store(0, 1).unwrap();
    let field: Conditional<Flag<1, 0>, u8> = ctx.make().unwrap();
    assert_eq!(field.0, Some(9));
    assert_eq!(ctx.pos, 1);
    let mut ctx = Ctx::reading(&[9]);
    ctx.slots.store(0, 2).unwrap();
    let field: Conditional<Flag<1, 0>, u8> = ctx.make().unwrap();
    assert_eq!(field.0, None);
    assert_eq!(ctx.pos, 0);
}

#[test]
fn conditional_cannot_be_decoded_without_its_slot() {
    let mut ctx = Ctx::reading(&[9]);
    let field: Result<Conditional<Flag<1, 0>, u8>, Error> = ctx.make();
    assert_eq!(
        field.err(),
        Some(Error::Conditional(ConditionalError::SlotIsEmpty {
            slot: 0
        }))
    );
    let field: Conditional<Flag<1, 0>, u8> = Some(9).into();
    assert_eq!(
        field.visit_with(&mut ctx),
        Err(Error::Conditional(ConditionalError::SlotIsEmpty {
            slot: 0
        }))
    );
}

#[test]
fn conditional_with_a_value_fails_where_the_condition_is_false() {
    let mut ctx = Ctx::default();
    ctx.slots.store(0, 2).unwrap();
    let field: Conditional<Flag<1, 0>, u8> = Some(9).into();
    assert_eq!(
        field.visit_with(&mut ctx),
        Err(Error::Conditional(ConditionalError::ConditionalMismatch {
            is_some: true,
            check: false
        }))
    );
    assert!(ctx.buf.is_empty());
}

#[test]
fn conditional_without_a_value_fails_where_the_condition_is_true() {
    let mut ctx = Ctx::default();
    ctx.slots.store(0, 1).unwrap();
    let field: Conditional<Flag<1, 0>, u8> = None.into();
    assert_eq!(
        field.visit_with(&mut ctx),
        Err(Error::Conditional(ConditionalError::ConditionalMismatch {
            is_some: false,
            check: true
        }))
    );
    assert!(ctx.buf.is_empty());
}

#[test]
fn conditional_is_encoded_where_it_agrees_with_the_condition() {
    let mut ctx = Ctx::default();
    ctx.slots.store(0, 1).unwrap();
    let field: Conditional<Flag<1, 0>, u8> = Some(9).into();
    assert_eq!(field.visit_with(&mut ctx), Ok(()));
    assert_eq!(ctx.buf, vec![9]);
    assert_eq!(field.dynamic_size(&ctx), 1);
    let absent: Conditional<Not<Flag<1, 0>>, u8> = Conditional::default();
    assert_eq!(absent.visit_with(&mut ctx), Ok(()));
    assert_eq!(ctx.buf, vec![9]);
    assert_eq!(absent.dynamic_size(&ctx), 0);
    assert_eq!(
        <Conditional<Flag<1, 0>, u8> as AnalyzeWith<Ctx>>::const_size(),
        TypeSize::Dynamic
    );
}

#[test]
fn flag_byte_then_conditional_field_reads_back() {
    // A byte of flags, published in slot 0, and a field that is there where
    // bit 0 of the flags is set.
    type Format = (Store<u8, 0>, Conditional<Flag<1, 0>, u16>);
    let with: Format = (Store { inner: 1 }, Some(0x0203).into());
    let bytes = encode(&with).unwrap();
    assert_eq!(bytes, vec![1, 3, 2]);
    let back: Format = Ctx::reading(&bytes).make().unwrap();
    assert_eq!(back.0.inner, 1);
    assert_eq!(back.1 .0, Some(0x0203));

    let without: Format = (Store { inner: 2 }, None.into());
    let bytes = encode(&without).unwrap();
    assert_eq!(bytes, vec![2]);
    let back: Format = Ctx::reading(&bytes).make().unwrap();
    assert_eq!(back.0.inner, 2);
    assert_eq!(back.1 .0, None);
}

// ------------------------------------------------------------ collections

#[test]
fn collection_is_laid_out_as_length_then_elements() {
    let values: RepeatMake<u8, u16> = RepeatExt::new_unchecked(vec![0x0102, 0x0304]);
    let bytes = encode(&values).unwrap();
    assert_eq!(bytes, vec![2, 2, 1, 4, 3]);
    let ctx = Ctx::default();
    assert_eq!(values.dynamic_size(&ctx), 5);
    assert_eq!(
        <RepeatMake<u8, u16> as AnalyzeWith<Ctx>>::const_size(),
        TypeSize::Dynamic
    );
}

#[test]
fn collection_reads_back() {
    let values: RepeatMake<u8, u16> = RepeatExt::new_unchecked(vec![7, 8, 9]);
    let mut ctx = Ctx::default();
    values.visit_with(&mut ctx).unwrap();
    let mut ctx = ctx.reread();
    let back: RepeatMake<u8, u16> = ctx.make().unwrap();
    assert_eq!(back.0, vec![7, 8, 9]);
    assert_eq!(ctx.pos, ctx.buf.len());
    let empty: RepeatMake<u8, u16> = RepeatExt::new_unchecked(vec![]);
    let bytes = encode(&empty).unwrap();
    assert_eq!(bytes, vec![0]);
    let back: RepeatMake<u8, u16> = Ctx::reading(&bytes).make().unwrap();
    assert!(back.0.is_empty());
}

#[test]
fn collection_stops_at_the_first_element_that_fails() {
    let mut ctx = Ctx::reading(&[3, 1, 0, 2, 0, 3]);
    let back: Result<RepeatMake<u8, u16>, Error> = ctx.make();
    assert_eq!(back.err(), Some(Error::End));
    let mut ctx = Ctx::reading(&[]);
    let back: Result<RepeatMake<u8, u16>, Error> = ctx.make();
    assert_eq!(back.err(), Some(Error::End));
}

#[test]
fn collection_too_long_for_its_length_field_is_refused() {
    let values: RepeatMake<u8, u8> = RepeatExt::new_unchecked(vec![0; 256]);
    assert_eq!(
        encode(&values),
        Err(Error::Length(LengthError::MakeCantFit { size: 256 }))
    );
    let values: RepeatMake<u8, u8> = RepeatExt::new_unchecked(vec![0; 255]);
    assert_eq!(encode(&values).unwrap().len(), 256);
}

#[test]
fn collection_of_constant_length_has_a_constant_size() {
    type Three = RepeatExt<u16, LenConst<3>>;
    assert_eq!(
        <Three as AnalyzeWith<Ctx>>::const_size(),
        TypeSize::Const(6)
    );
    let ctx = Ctx::default();
    assert_eq!(<Three as AnalyzeWith<Ctx>>::fixed_size(&ctx), 6);
    let values: Three = RepeatExt::new_unchecked(vec![1, 2, 3]);
    assert_eq!(values.dynamic_size(&ctx), 6);
    assert_eq!(encode(&values).unwrap().len(), 6);
    let short: Three = RepeatExt::new_unchecked(vec![1, 2]);
    assert_eq!(
        encode(&short),
        Err(Error::Length(LengthError::ConstNotEqual {
            const_size: 3,
            from: 2
        }))
    );
    let back: Three = Ctx::reading(&[1, 0, 2, 0, 3, 0, 9]).make().unwrap();
    assert_eq!(back.0, vec![1, 2, 3]);
}

#[test]
fn collection_takes_its_length_from_a_slot() {
    type Format = (Store<u8, 2>, RepeatSlot<u8, 2>);
    let value: Format = (Store { inner: 3 }, RepeatExt::new_unchecked(vec![4, 5, 6]));
    let bytes = encode(&value).unwrap();
    assert_eq!(bytes, vec![3, 4, 5, 6]);
    let back: Format = Ctx::reading(&bytes).make().unwrap();
    assert_eq!(back.1 .0, vec![4, 5, 6]);
    let wrong: Format = (Store { inner: 2 }, RepeatExt::new_unchecked(vec![4, 5, 6]));
    assert_eq!(
        encode(&wrong),
        Err(Error::Length(LengthError::SlotNotEqual {
            slot: 2,
            stored: 2,
            from: 3
        }))
    );
}

// ------------------------------------------------------------------ runs

#[test]
fn run_is_laid_out_as_length_then_elements() {
    let run: BigArrMake<u16, u8> = BigArr::new_unchecked(vec![5, 6, 7]);
    let bytes = encode(&run).unwrap();
    assert_eq!(bytes, vec![3, 0, 5, 6, 7]);
    let ctx = Ctx::default();
    assert_eq!(run.dynamic_size(&ctx), 5);
    let back: BigArrMake<u16, u8> = Ctx::reading(&bytes).make().unwrap();
    assert_eq!(back.0, vec![5, 6, 7]);
}

#[test]
fn run_of_wider_elements_reads_back() {
    let run: BigArrMake<u8, u32> = BigArr::new_unchecked(vec![1, 0x01020304, u32::MAX]);
    let bytes = encode(&run).unwrap();
    assert_eq!(bytes.len(), 1 + 3 * 4);
    assert_eq!(bytes[0], 3);
    let ctx = Ctx::default();
    assert_eq!(run.dynamic_size(&ctx), 13);
    let back: BigArrMake<u8, u32> = Ctx::reading(&bytes).make().unwrap();
    assert_eq!(back.0, vec![1, 0x01020304, u32::MAX]);
}

#[test]
fn run_of_constant_length_has_no_header() {
    type Four = BigStaticArr<u8, 4>;
    assert_eq!(<Four as AnalyzeWith<Ctx>>::const_size(), TypeSize::Const(4));
    assert_eq!(
        <BigStaticArr<u32, 4> as AnalyzeWith<Ctx>>::const_size(),
        TypeSize::Const(16)
    );
    let ctx = Ctx::default();
    assert_eq!(<Four as AnalyzeWith<Ctx>>::fixed_size(&ctx), 4);
    let run: Four = BigArr::new_unchecked(vec![1, 2, 3, 4]);
    assert_eq!(encode(&run), Ok(vec![1, 2, 3, 4]));
    let long: Four = BigArr::new_unchecked(vec![1, 2, 3, 4, 5]);
    assert_eq!(
        encode(&long),
        Err(Error::Length(LengthError::ConstNotEqual {
            const_size: 4,
            from: 5
        }))
    );
    let back: Four = Ctx::reading(&[1, 2, 3, 4, 5]).make().unwrap();
    assert_eq!(back.0, vec![1, 2, 3, 4]);
    let back: Result<Four, Error> = Ctx::reading(&[1, 2, 3]).make();
    assert_eq!(back.err(), Some(Error::End));
}

#[test]
fn run_takes_all_that_is_left() {
    let mut ctx = Ctx::reading(&[9, 1, 2, 3]);
    let first: u8 = ctx.make().unwrap();
    assert_eq!(first, 9);
    let tail: TailBytes = ctx.make().unwrap();
    assert_eq!(tail.0, vec![1, 2, 3]);
    assert_eq!(ctx.bytes_left(), 0);
    assert_eq!(
        <TailBytes as AnalyzeWith<Ctx>>::const_size(),
        TypeSize::Fixed
    );
    assert_eq!(<Rest as AnalyzeWith<Ctx>>::const_size(), TypeSize::Fixed);
    let none: LenRest = Ctx::default().make().unwrap();
    assert_eq!(Length(none).dynamic_size(&Ctx::default()), 0);
    let mut ctx = Ctx::reading(&[0, 0]);
    let two: TailBytes = BigArr::new_unchecked(vec![7, 8]);
    assert_eq!(two.visit_with(&mut ctx), Ok(()));
    assert_eq!(ctx.buf, vec![0, 0, 7, 8]);
}

#[test]
fn default_run_is_empty() {
    let run: BigArrMake<u8, u8> = BigArr::default();
    assert!(run.0.is_empty());
    assert_eq!(encode(&run), Ok(vec![0]));
    let copy = run.clone();
    assert!(copy.0.is_empty());
}

// ----------------------------------------------------------------- texts

#[test]
fn text_of_fixed_length_has_to_have_that_length() {
    let ctx = Ctx::default();
    let text = StaticStr::<4>::new_fixed(b"abcd".to_vec(), &ctx).unwrap();
    assert_eq!(text.0 .0, b"abcd".to_vec());
    let short = StaticStr::<4>::new_fixed(b"abc".to_vec(), &ctx);
    assert_eq!(
        short.err(),
        Some(LengthError::Verify {
            from: 3,
            verified: 4
        })
    );
    let long = StaticStr::<4>::new_fixed(b"abcde".to_vec(), &ctx);
    assert_eq!(
        long.err(),
        Some(LengthError::Verify {
            from: 5,
            verified: 4
        })
    );
}

#[test]
fn text_is_filled_up_to_its_fixed_length() {
    let ctx = Ctx::default();
    let text = StaticStr::<6>::new_fixed_fill(b"abc".to_vec(), &ctx, b' ').unwrap();
    assert_eq!(text.0 .0, b"abc   ".to_vec());
    let text = StaticStr::<3>::new_fixed_fill(b"abc".to_vec(), &ctx, 0).unwrap();
    assert_eq!(text.0 .0, b"abc".to_vec());
    let text = StaticStr::<2>::new_fixed_fill(vec![], &ctx, 7).unwrap();
    assert_eq!(text.0 .0, vec![7, 7]);
    let long = StaticStr::<2>::new_fixed_fill(b"abc".to_vec(), &ctx, 0);
    assert_eq!(
        long.err(),
        Some(LengthError::Verify {
            from: 3,
            verified: 2
        })
    );
}

#[test]
fn text_is_encoded_as_its_run() {
    let ctx = Ctx::default();
    let text = StaticStr::<4>::new_fixed(b"abcd".to_vec(), &ctx).unwrap();
    assert_eq!(encode(&text), Ok(b"abcd".to_vec()));
    assert_eq!(text.dynamic_size(&ctx), 4);
    assert_eq!(
        <StaticStr<4> as AnalyzeWith<Ctx>>::const_size(),
        TypeSize::Const(4)
    );
    assert_eq!(<StaticStr<4> as AnalyzeWith<Ctx>>::fixed_size(&ctx), 4);
    let back: StaticStr<4> = Ctx::reading(b"wxyz").make().unwrap();
    assert_eq!(back.0 .0, b"wxyz".to_vec());
    let text: BigStr<LenMake<u8>> = BigStr::new_unchecked(b"hi".to_vec());
    assert_eq!(encode(&text), Ok(vec![2, b'h', b'i']));
    let copy = text.clone();
    assert_eq!(copy.0 .0, b"hi".to_vec());
}

#[test]
fn text_is_read_up_to_its_last_byte_that_is_not_zero() {
    let text: BigStr<LenMake<u8>> = BigStr::new_unchecked(b"abc\0\0".to_vec());
    match text.as_maybe_str() {
        MaybeStr::Utf8 { string, tail_zeros } => {
            assert_eq!(string, "ab");
            assert_eq!(tail_zeros, 3);
        }
        MaybeStr::Bytes { .. } => panic!("the bytes before the cut are text"),
    }
    let text: BigStr<LenMake<u8>> = BigStr::new_unchecked(b"\0\0".to_vec());
    match text.as_maybe_str() {
        MaybeStr::Utf8 { string, tail_zeros } => {
            assert_eq!(string, "");
            assert_eq!(tail_zeros, 2);
        }
        MaybeStr::Bytes { .. } => panic!("no bytes are text"),
    }
    let text: BigStr<LenMake<u8>> = BigStr::new_unchecked(vec![]);
    match text.as_maybe_str() {
        MaybeStr::Utf8 { string, tail_zeros } => {
            assert_eq!(string, "");
            assert_eq!(tail_zeros, 0);
        }
        MaybeStr::Bytes { .. } => panic!("no bytes are text"),
    }
}

#[test]
fn bytes_that_are_no_text_are_read_as_bytes() {
    let text: BigStr<LenMake<u8>> = BigStr::new_unchecked(vec![0xff, 0xfe, b'a', 0]);
    match text.as_maybe_str() {
        MaybeStr::Bytes { bytes, tail_zeros } => {
            assert_eq!(bytes, &[0xff, 0xfe, b'a', 0]);
            assert_eq!(tail_zeros, 2);
        }
        MaybeStr::Utf8 { .. } => panic!("0xff begins no text"),
    }
    // The cut may fall within a character.
    let text: BigStr<LenMake<u8>> = BigStr::new_unchecked("aé".as_bytes().to_vec());
    match text.as_maybe_str() {
        MaybeStr::Bytes { bytes, tail_zeros } => {
            assert_eq!(bytes, "aé".as_bytes());
            assert_eq!(tail_zeros, 1);
        }
        MaybeStr::Utf8 { .. } => panic!("half a character is no text"),
    }
}

// --------------------------------------------------------------- records

#[test]
fn record_is_encoded_field_by_field() {
    let value: (u8, u16) = (1, 0x0203);
    assert_eq!(encode(&value), Ok(vec![1, 3, 2]));
    let back: (u8, u16) = Ctx::reading(&[1, 3, 2]).make().unwrap();
    assert_eq!(back, (1, 0x0203));
    let nested: ((u8, u8), u16) = ((1, 2), 3);
    assert_eq!(encode(&nested), Ok(vec![1, 2, 3, 0]));
    let back: ((u8, u8), u16) = Ctx::reading(&[1, 2, 3, 0]).make().unwrap();
    assert_eq!(back, ((1, 2), 3));
}

#[test]
fn record_stops_at_the_first_field_that_fails() {
    let back: Result<(u8, u16), Error> = Ctx::reading(&[1, 3]).make();
    assert_eq!(back, Err(Error::End));
    let back: Result<(u8, u16), Error> = Ctx::reading(&[]).make();
    assert_eq!(back, Err(Error::End));
    let mut ctx = Ctx::default();
    ctx.slots.store(0, 0).unwrap();
    let value: (Conditional<Flag<1, 0>, u8>, u8) = (Some(1).into(), 2);
    assert!(value.visit_with(&mut ctx).is_err());
    assert!(ctx.buf.is_empty());
}

#[test]
fn record_is_sized_as_the_sum_of_its_fields() {
    let ctx = Ctx::default();
    assert_eq!(
        <(u8, u16) as AnalyzeWith<Ctx>>::const_size(),
        TypeSize::Const(3)
    );
    assert_eq!(<(u8, u16) as AnalyzeWith<Ctx>>::fixed_size(&ctx), 3);
    assert_eq!((1u8, 2u16).dynamic_size(&ctx), 3);
    assert_eq!(
        <(u8, RepeatMake<u8, u8>) as AnalyzeWith<Ctx>>::const_size(),
        TypeSize::Dynamic
    );
    let value: (u8, RepeatMake<u8, u8>) = (1, RepeatExt::new_unchecked(vec![1, 2, 3]));
    assert_eq!(value.dynamic_size(&ctx), 5);
    assert_eq!(encode(&value).unwrap().len(), 5);
    assert_eq!(
        <(u8, BigArr<u8, FixedLen<Rest>>) as AnalyzeWith<Ctx>>::const_size(),
        TypeSize::Fixed
    );
}

// ------------------------------------------------------------- contexts

#[test]
fn context_gives_its_register() {
    let mut ctx = Ctx::default();
    let slots: &mut Slots = ctx.give_mut();
    slots.store(1, 5).unwrap();
    let slots: &Slots = ctx.give();
    assert_eq!(slots.load(1), Some(5));
    let slots: Option<&Slots> = ctx.maybe_give();
    assert_eq!(slots.unwrap().load(1), Some(5));
    let old: Option<Slots> = ctx.maybe_replace(Slots::default());
    assert_eq!(old.unwrap().load(1), Some(5));
    assert_eq!(ctx.slots.load(1), None);
    let slots: Option<&mut Slots> = ctx.maybe_give_mut();
    slots.unwrap().store(2, 6).unwrap();
    assert_eq!(ctx.slots.load(2), Some(6));
}

#[test]
fn keys_change_nothing_of_what_is_encoded() {
    let mut plain = Ctx::default();
    plain.visit(&0x0102u16).unwrap();
    let mut keyed = Ctx::default();
    keyed.visit_keyed("field", &0x0102u16).unwrap();
    assert_eq!(plain.buf, keyed.buf);
    let mut indexed = Ctx::default();
    indexed.visit_keyed(3usize, &0x0102u16).unwrap();
    assert_eq!(plain.buf, indexed.buf);
    let made: u16 = Ctx::reading(&[2, 1]).make_keyed("field").unwrap();
    assert_eq!(made, 0x0102);
    let failed: Result<u16, Error> = Ctx::reading(&[2]).make_keyed(String::from("field"));
    assert_eq!(failed, Err(Error::End));
}

#[test]
fn inspected_field_is_decoded_as_its_value() {
    let field: Dbg<u16> = Ctx::reading(&[2, 1]).make().unwrap();
    assert_eq!(field.0, 0x0102);
    let slot: u32 = Dbg(7u8).into();
    assert_eq!(slot, 7);
    let ctx = Ctx::default();
    assert_eq!(
        <Dbg<u16> as AnalyzeWith<Ctx>>::const_size(),
        TypeSize::Const(2)
    );
    assert_eq!(Dbg(1u16).dynamic_size(&ctx), 2);
    assert_eq!(<Dbg<u16> as AnalyzeWith<Ctx>>::fixed_size(&ctx), 2);
}

#[test]
fn sizes_known_ahead_are_asserted() {
    AssertConstOrFixed::<Ctx, Length<LenConst<4>>>::assert_const_or_fixed();
    AssertConstOrFixed::<Ctx, u8>::assert_const_or_fixed();
    AssertConstOrFixed::<Ctx, TailBytes>::assert_const_or_fixed();
    assert!(<Length<LenConst<4>> as AnalyzeWith<Ctx>>::const_size().is_const_or_fixed());
    assert!(<TailBytes as AnalyzeWith<Ctx>>::const_size().is_const_or_fixed());
}

// ----------------------------------------------------------------- scopes

/// A context that keeps a record of the scopes it is in.
#[derive(Debug, Default)]
struct Tracer {
    buf: Vec<u8>,
    path: Vec<String>,
    seen: Vec<String>,
}

fn key_text(key: &RepresentKey) -> String {
    match key {
        RepresentKey::Int(position) => format!("{}", position),
        RepresentKey::Usize(position) => format!("{}", position),
        RepresentKey::Static(name) => format!("{}", name),
        RepresentKey::Owned(name) => format!("{}", name),
    }
}

/// Where an encoding failed: the scopes that were open.
#[derive(Debug, PartialEq)]
struct Lost(Vec<String>);

impl Visitor for Tracer {
    type Error = Lost;

    fn with_key<F>(&mut self, key: RepresentKey, func: F) -> Result<(), Lost>
    where
        F: FnOnce(&mut Self) -> Result<(), Lost>,
    {
        self.path.push(key_text(&key));
        self.seen.push(self.path.join("."));
        let outcome = func(self);
        self.path.pop();
        outcome
    }
}

impl From<LengthError> for Lost {
    fn from(_error: LengthError) -> Self {
        Lost(vec![String::from("length")])
    }
}

impl VisitType<u8> for Tracer {
    fn visit(&mut self, target: &u8) -> Result<(), Lost> {
        if *target == 0xff {
            return Err(Lost(self.path.clone()));
        }
        self.buf.push(*target);
        Ok(())
    }
}

impl<T: VisitWith<Tracer>> VisitType<T> for Tracer {
    fn visit(&mut self, target: &T) -> Result<(), Lost> {
        target.visit_with(self)
    }
}

#[test]
fn scopes_are_entered_in_order_and_left() {
    let mut tracer = Tracer::default();
    let value: (u8, RepeatExt<u8, LenConst<3>>) = (9, RepeatExt::new_unchecked(vec![1, 2, 3]));
    assert_eq!(value.visit_with(&mut tracer), Ok(()));
    assert_eq!(tracer.buf, vec![9, 1, 2, 3]);
    assert_eq!(tracer.seen, vec!["0", "1", "1.0", "1.1", "1.2"]);
    assert!(tracer.path.is_empty());
}

#[test]
fn scopes_are_left_on_failure() {
    let mut tracer = Tracer::default();
    let value: (u8, RepeatExt<u8, LenConst<3>>) = (9, RepeatExt::new_unchecked(vec![1, 0xff, 3]));
    assert_eq!(
        value.visit_with(&mut tracer),
        Err(Lost(vec![String::from("1"), String::from("1")]))
    );
    assert_eq!(tracer.buf, vec![9, 1]);
    assert_eq!(tracer.seen, vec!["0", "1", "1.0", "1.1"]);
    assert!(tracer.path.is_empty());
    let mut tracer = Tracer::default();
    assert_eq!(tracer.visit_keyed("named", &7u8), Ok(()));
    assert_eq!(tracer.seen, vec!["named"]);
    assert!(tracer.path.is_empty());
}
