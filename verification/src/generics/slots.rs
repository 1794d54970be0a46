//! The register through which one field of a structure hands a value to the
//! fields that follow it in the same traversal.

use vstd::prelude::*;
use vstd::std_specs::convert::FromSpec;
use vstd::std_specs::convert::IntoSpec;
use vstd::std_specs::convert::TryFromSpec;
use crate::analysis::AnalyzeWith;
use crate::analysis::TypeAnalyzer;
use crate::generics::Has;
use crate::size::TypeSize;
use crate::traversal::MakeType;
use crate::traversal::MakeWith;
use crate::traversal::Maker;
use crate::traversal::VisitType;
use crate::traversal::VisitWith;
use crate::traversal::Visitor;

verus! {

/// The number of slots in a register.
pub const SLOT_COUNT: usize = 16;

/// What a register holds: one optional value per slot.
pub type SlotsView = Seq<Option<u32>>;

/// The register after an attempt to write `val` to `slot`, and how the attempt
/// ended: an empty slot takes the value; a filled slot never changes, and the
/// attempt fails with the value it holds unless that value is `val`.
pub open spec fn slot_store(slots: SlotsView, slot: int, val: u32) -> (SlotsView, Result<(), u32>) {
    match slots[slot] {
        None => (slots.update(slot, Some(val)), Ok(())),
        Some(stored) => if stored == val {
            (slots, Ok(()))
        } else {
            (slots, Err(stored))
        },
    }
}

/// What `slot` holds. A slot beyond the register holds nothing.
pub open spec fn slot_value(slots: SlotsView, slot: usize) -> Option<u32> {
    if slot < slots.len() {
        slots[slot as int]
    } else {
        None
    }
}

/// A register of 16 optional values, made afresh for each traversal.
#[derive(Debug)]
pub struct Slots([Option<u32>; 16]);

impl View for Slots {
    type V = SlotsView;

    closed spec fn view(&self) -> SlotsView {
        self.0@
    }
}

impl Default for Slots {
    fn default() -> (slots: Self)
        ensures
            slots@ == Seq::new(SLOT_COUNT as nat, |i: int| None::<u32>),
    {
        let slots = Slots([None; 16]);
        assert(slots@ =~= Seq::new(SLOT_COUNT as nat, |i: int| None::<u32>));
        slots
    }
}

impl Slots {
    /// The register that holds `held`.
    pub closed spec fn holding(held: SlotsView) -> Slots {
        Slots(
            [
                held[0],
                held[1],
                held[2],
                held[3],
                held[4],
                held[5],
                held[6],
                held[7],
                held[8],
                held[9],
                held[10],
                held[11],
                held[12],
                held[13],
                held[14],
                held[15],
            ],
        )
    }

    /// A register is determined by what it holds.
    pub proof fn lemma_holding(held: SlotsView)
        requires
            held.len() == SLOT_COUNT,
        ensures
            Self::holding(held)@ == held,
    {
        assert(Self::holding(held)@ =~= held);
    }

    /// A register is determined by what it holds.
    pub proof fn lemma_holding_view(self)
        ensures
            Self::holding(self@) == self,
    {
        assert(Self::holding(self@).0 =~= self.0);
    }

    /// The register after an attempt to write `val` to `slot`.
    pub open spec fn stored(self, slot: int, val: u32) -> Slots {
        Self::holding(slot_store(self@, slot, val).0)
    }

    /// What the register holds after an attempt to write `val` to `slot`.
    pub proof fn lemma_stored(self, slot: int, val: u32)
        requires
            0 <= slot < SLOT_COUNT,
        ensures
            self.stored(slot, val)@ == slot_store(self@, slot, val).0,
            slot_store(self@, slot, val).1 is Err ==> self.stored(slot, val) == self,
    {
        Self::lemma_holding(slot_store(self@, slot, val).0);
        self.lemma_holding_view();
    }

    /// Every register has 16 slots.
    pub proof fn lemma_len(&self)
        ensures
            self@.len() == SLOT_COUNT,
    {
    }

    /// Writes `val` to `slot`. A second write of the same value is accepted; a
    /// write of another value is refused with the value that the slot holds.
    pub fn store(&mut self, slot: usize, val: u32) -> (outcome: Result<(), u32>)
        requires
            slot < SLOT_COUNT,
        ensures
            (final(self)@, outcome) == slot_store(old(self)@, slot as int, val),
            *final(self) == old(self).stored(slot as int, val),
    {
        match self.0[slot] {
            Some(stored) => {
                if stored != val {
                    proof {
                        self.lemma_holding_view();
                    }
                    return Err(stored);
                }
            },
            None => {
                self.0[slot] = Some(val);
            },
        }
        assert(self@ =~= slot_store(old(self)@, slot as int, val).0);
        proof {
            self.lemma_holding_view();
        }
        Ok(())
    }

    /// The value in `slot`, if one was written. A slot beyond the register
    /// holds nothing.
    pub fn load(&self, slot: usize) -> (value: Option<u32>)
        ensures
            value == slot_value(self@, slot),
    {
        if slot < SLOT_COUNT {
            self.0[slot]
        } else {
            None
        }
    }
}

/// Writing to a slot the value that it already holds succeeds and changes nothing.
pub proof fn lemma_store_again(slots: SlotsView, slot: int, val: u32)
    requires
        0 <= slot < slots.len(),
        slot_store(slots, slot, val).1 is Ok,
    ensures
        slot_store(slot_store(slots, slot, val).0, slot, val) == (
            slot_store(slots, slot, val).0,
            Ok::<(), u32>(()),
        ),
{
}

/// Once a slot holds `first`, writing any other value to it fails with `first`
/// and leaves the register as it was.
pub proof fn lemma_store_conflict(slots: SlotsView, slot: int, first: u32, second: u32)
    requires
        0 <= slot < slots.len(),
        slot_store(slots, slot, first).1 is Ok,
        first != second,
    ensures
        slot_store(slot_store(slots, slot, first).0, slot, second) == (
            slot_store(slots, slot, first).0,
            Err::<(), u32>(first),
        ),
{
}

/// A write changes no slot but the one written to.
pub proof fn lemma_store_frame(slots: SlotsView, slot: int, val: u32, other: int)
    requires
        0 <= slot < slots.len(),
        0 <= other < slots.len(),
        other != slot,
    ensures
        slot_store(slots, slot, val).0[other] == slots[other],
        slot_store(slots, slot, val).0.len() == slots.len(),
{
}

/// Why a value could not be written to a slot.
#[derive(Debug, Clone, PartialEq, Eq)]
pub enum SlotStoreError {
    /// The slot holds `stored`, which is not the `value` to be written.
    Conflict { slot: usize, stored: u32, value: u32 },
    /// The register has no slot of this number.
    NoSuchSlot { slot: usize },
}

/// How an attempt to write `val` to `slot` of `slots` ends for a field that
/// publishes its value.
pub open spec fn store_outcome(slots: SlotsView, slot: usize, val: u32) -> Result<
    (),
    SlotStoreError,
> {
    if slot >= slots.len() {
        Err(SlotStoreError::NoSuchSlot { slot })
    } else {
        match slots[slot as int] {
            Some(stored) if stored != val => Err(
                SlotStoreError::Conflict { slot, stored, value: val },
            ),
            _ => Ok(()),
        }
    }
}

/// A field that publishes its value in slot `SLOT` for the fields after it.
#[derive(Debug, Clone)]
pub struct Store<T, const SLOT: usize> {
    pub inner: T,
}

impl<D: TypeAnalyzer, T: AnalyzeWith<D>, const SLOT: usize> AnalyzeWith<D> for Store<T, SLOT> {
    open spec fn analyzable() -> bool {
        T::analyzable()
    }

    open spec fn size_class() -> TypeSize {
        T::size_class()
    }

    open spec fn fixed_size_spec(analyzer: &D) -> nat {
        T::fixed_size_spec(analyzer)
    }

    open spec fn dynamic_size_spec(&self, analyzer: &D) -> nat {
        self.inner.dynamic_size_spec(analyzer)
    }

    open spec fn conforms(&self, analyzer: &D) -> bool {
        self.inner.conforms(analyzer)
    }

    fn const_size() -> (size: TypeSize) {
        T::const_size()
    }

    fn fixed_size(analyzer: &D) -> (size: usize) {
        T::fixed_size(analyzer)
    }

    fn dynamic_size(&self, analyzer: &D) -> (size: usize) {
        self.inner.dynamic_size(analyzer)
    }
}

impl<T: Into<u32> + Clone, const SLOT: usize> Store<T, SLOT> {
    /// Whether `val` is what the field with the value `inner` publishes: what a
    /// clone of the value turns into.
    pub open spec fn publishes(inner: T, val: u32) -> bool {
        exists|copy: T| cloned(inner, copy) && val == #[trigger] copy.into_spec()
    }

    /// Whether publishing `val` for the decoded value `inner` from the context
    /// `mid` leaves the context `after` and ends in `outcome`: `val` is written
    /// to the slot, and the field is made unless the slot refuses it.
    pub open spec fn published<M: Maker + Has<Slots>>(
        mid: M,
        inner: T,
        val: u32,
        after: M,
        outcome: Result<Self, <M as Maker>::Error>,
    ) -> bool where <M as Maker>::Error: From<SlotStoreError> {
        if SLOT >= SLOT_COUNT {
            &&& after == mid
            &&& outcome == Err::<Self, <M as Maker>::Error>(
                <<M as Maker>::Error as FromSpec<SlotStoreError>>::from_spec(
                    SlotStoreError::NoSuchSlot { slot: SLOT },
                ),
            )
        } else {
            &&& after == mid.with_part(mid.part().stored(SLOT as int, val))
            &&& after.part() == mid.part().stored(SLOT as int, val)
            &&& outcome == match store_outcome(mid.part()@, SLOT, val) {
                Ok(()) => Ok(Store::<T, SLOT> { inner }),
                Err(conflict) => Err(
                    <<M as Maker>::Error as FromSpec<SlotStoreError>>::from_spec(conflict),
                ),
            }
        }
    }

    /// Whether encoding the field while it publishes `val` may take the context
    /// `before` to the context `after` and end in `outcome`: `val` is written to
    /// the slot, and the value is encoded unless the slot refuses `val`.
    pub open spec fn encoded<V: VisitType<T> + Has<Slots>>(
        self,
        val: u32,
        before: V,
        after: V,
        outcome: Result<(), <V as Visitor>::Error>,
    ) -> bool where <V as Visitor>::Error: From<SlotStoreError> {
        if SLOT >= SLOT_COUNT {
            &&& after == before
            &&& outcome == Err::<(), <V as Visitor>::Error>(
                <<V as Visitor>::Error as FromSpec<SlotStoreError>>::from_spec(
                    SlotStoreError::NoSuchSlot { slot: SLOT },
                ),
            )
        } else {
            let written = before.with_part(before.part().stored(SLOT as int, val));
            &&& written.part() == before.part().stored(SLOT as int, val)
            &&& match store_outcome(before.part()@, SLOT, val) {
                Ok(()) => V::visit_spec(written, self.inner, after, outcome),
                Err(conflict) => after == written && outcome == Err::<(), <V as Visitor>::Error>(
                    <<V as Visitor>::Error as FromSpec<SlotStoreError>>::from_spec(conflict),
                ),
            }
        }
    }
}

impl<M, T, const SLOT: usize> MakeWith<M> for Store<T, SLOT> where
    M: MakeType<T> + Maker + Has<Slots>,
    T: Into<u32> + Clone,
    <M as Maker>::Error: From<SlotStoreError>,
 {
    open spec fn makeable() -> bool {
        &&& M::can_make()
        &&& <T as IntoSpec<u32>>::obeys_into_spec()
        &&& <<M as Maker>::Error as FromSpec<SlotStoreError>>::obeys_from_spec()
    }

    open spec fn make_with_spec(
        before: M,
        after: M,
        outcome: Result<Self, <M as Maker>::Error>,
    ) -> bool {
        exists|mid: M, made: Result<T, <M as Maker>::Error>| #[trigger]
            M::make_spec(before, mid, made) && match made {
                Err(error) => after == mid && outcome == Err::<Self, <M as Maker>::Error>(error),
                Ok(inner) => exists|val: u32|
                    Self::publishes(inner, val) && #[trigger] Self::published(
                        mid,
                        inner,
                        val,
                        after,
                        outcome,
                    ),
            }
    }

    fn make_with(maker: &mut M) -> (outcome: Result<Self, <M as Maker>::Error>) {
        let inner: T = match maker.make_type() {
            Ok(inner) => inner,
            Err(error) => {
                return Err(error);
            },
        };
        let ghost mid = *maker;
        let copy = inner.clone();
        assert(cloned(inner, copy));
        let val: u32 = copy.into();
        assert(Self::publishes(inner, val));
        if SLOT >= SLOT_COUNT {
            let outcome = Err(
                <M as Maker>::Error::from(SlotStoreError::NoSuchSlot { slot: SLOT }),
            );
            assert(Self::published(mid, inner, val, *maker, outcome));
            return outcome;
        }
        let slots: &mut Slots = maker.give_mut();
        let outcome = match slots.store(SLOT, val) {
            Ok(_) => Ok(Store { inner }),
            Err(stored) => Err(
                <M as Maker>::Error::from(
                    SlotStoreError::Conflict { slot: SLOT, stored, value: val },
                ),
            ),
        };
        assert(Self::published(mid, inner, val, *maker, outcome));
        outcome
    }
}

impl<V, T, const SLOT: usize> VisitWith<V> for Store<T, SLOT> where
    V: VisitType<T> + Visitor + Has<Slots>,
    T: Into<u32> + Clone,
    <V as Visitor>::Error: From<SlotStoreError>,
 {
    open spec fn visitable() -> bool {
        &&& V::can_visit()
        &&& <T as IntoSpec<u32>>::obeys_into_spec()
        &&& <<V as Visitor>::Error as FromSpec<SlotStoreError>>::obeys_from_spec()
    }

    open spec fn visit_with_spec(
        self,
        before: V,
        after: V,
        outcome: Result<(), <V as Visitor>::Error>,
    ) -> bool {
        exists|val: u32|
            Self::publishes(self.inner, val) && #[trigger] self.encoded(
                val,
                before,
                after,
                outcome,
            )
    }

    fn visit_with(&self, visitor: &mut V) -> (outcome: Result<(), <V as Visitor>::Error>) {
        let copy = self.inner.clone();
        assert(cloned(self.inner, copy));
        let val: u32 = copy.into();
        assert(Self::publishes(self.inner, val));
        if SLOT >= SLOT_COUNT {
            let outcome = Err(
                <V as Visitor>::Error::from(SlotStoreError::NoSuchSlot { slot: SLOT }),
            );
            assert(self.encoded(val, *old(visitor), *visitor, outcome));
            return outcome;
        }
        let slots: &mut Slots = visitor.give_mut();
        let outcome = match slots.store(SLOT, val) {
            Ok(_) => visitor.visit(&self.inner),
            Err(stored) => Err(
                <V as Visitor>::Error::from(
                    SlotStoreError::Conflict { slot: SLOT, stored, value: val },
                ),
            ),
        };
        assert(self.encoded(val, *old(visitor), *visitor, outcome));
        outcome
    }
}

/// Why a value could not be read from a slot.
#[derive(Debug)]
pub enum SlotLoadError<E> {
    /// The slot was never written.
    EmptySlot,
    /// The slot holds a value that the field's type cannot take.
    TryFrom(E),
}

/// A field whose value is read from slot `SLOT`, not from the encoding.
#[derive(Debug, Clone)]
pub struct Load<T, const SLOT: usize>(pub T);

impl<M, T, const SLOT: usize> MakeWith<M> for Load<T, SLOT> where
    M: Maker + Has<Slots>,
    T: TryFrom<u32>,
    <M as Maker>::Error: From<SlotLoadError<<T as TryFrom<u32>>::Error>>,
 {
    open spec fn makeable() -> bool {
        &&& <T as TryFromSpec<u32>>::obeys_try_from_spec()
        &&& <<M as Maker>::Error as FromSpec<
            SlotLoadError<<T as TryFrom<u32>>::Error>,
        >>::obeys_from_spec()
    }

    open spec fn make_with_spec(
        before: M,
        after: M,
        outcome: Result<Self, <M as Maker>::Error>,
    ) -> bool {
        &&& after == before
        &&& outcome == match slot_value(before.part()@, SLOT) {
            Some(value) => match <T as TryFromSpec<u32>>::try_from_spec(value) {
                Ok(taken) => Ok(Load::<T, SLOT>(taken)),
                Err(error) => Err(
                    <<M as Maker>::Error as FromSpec<
                        SlotLoadError<<T as TryFrom<u32>>::Error>,
                    >>::from_spec(SlotLoadError::TryFrom(error)),
                ),
            },
            None => Err(
                <<M as Maker>::Error as FromSpec<
                    SlotLoadError<<T as TryFrom<u32>>::Error>,
                >>::from_spec(SlotLoadError::EmptySlot),
            ),
        }
    }

    fn make_with(maker: &mut M) -> (outcome: Result<Self, <M as Maker>::Error>) {
        let slots: &Slots = maker.give();
        match slots.load(SLOT) {
            Some(value) => match T::try_from(value) {
                Ok(taken) => Ok(Load(taken)),
                Err(error) => Err(<M as Maker>::Error::from(SlotLoadError::TryFrom(error))),
            },
            None => Err(<M as Maker>::Error::from(SlotLoadError::EmptySlot)),
        }
    }
}

impl<V, T, const SLOT: usize> VisitWith<V> for Load<T, SLOT> where
    V: VisitType<T> + Visitor + Has<Slots>,
    T: Into<u32> + Clone,
 {
    open spec fn visitable() -> bool {
        true
    }

    open spec fn visit_with_spec(
        self,
        before: V,
        after: V,
        outcome: Result<(), <V as Visitor>::Error>,
    ) -> bool {
        after == before && outcome is Ok
    }

    fn visit_with(&self, visitor: &mut V) -> (outcome: Result<(), <V as Visitor>::Error>) {
        Ok(())
    }
}

} // verus!
