//! A collection of values that are encoded one after the other, behind the
//! length that its strategy carries.

use vstd::prelude::*;
use vstd::std_specs::convert::FromSpec;
use vstd::std_specs::convert::TryFromSpec;
use std::marker::PhantomData;
use crate::analysis::AnalyzeWith;
use crate::analysis::TypeAnalyzer;
use crate::generics::length::Length;
use crate::generics::length::LengthError;
use crate::size::saturate;
use crate::size::TypeSize;
use crate::key::RepresentKey;
use crate::traversal::lemma_ok_unit;
use crate::traversal::make_keyed_spec;
use crate::traversal::visit_keyed_spec;
use crate::traversal::MakeType;
use crate::traversal::MakeWith;
use crate::traversal::Maker;
use crate::traversal::VisitType;
use crate::traversal::VisitWith;
use crate::traversal::Visitor;

verus! {

/// A sequence of `T`, with the length strategy `LEN`.
#[derive(Debug)]
pub struct RepeatExt<T, LEN>(pub Vec<T>, pub PhantomData<LEN>);

impl<T: Clone, LEN> Clone for RepeatExt<T, LEN> {
    fn clone(&self) -> (copy: Self)
        ensures
            copy.0@.len() == self.0@.len(),
            forall|i: int| 0 <= i < self.0@.len() ==> cloned(self.0@[i], #[trigger] copy.0@[i]),
    {
        RepeatExt(self.0.clone(), PhantomData)
    }
}

impl<T, LEN> RepeatExt<T, LEN> {
    /// The collection of `values`. Whether their number suits the strategy is
    /// found out when the collection is encoded.
    pub fn new_unchecked(values: Vec<T>) -> (made: Self)
        ensures
            made == RepeatExt::<T, LEN>(values, PhantomData),
    {
        RepeatExt(values, PhantomData)
    }
}

/// The classification of a header of class `header` followed by elements of
/// class `single`, as many as `reps` says: a constant where all three are
/// constants, `Dynamic` where the element or the number is, else `Fixed`.
pub open spec fn repeat_class(single: TypeSize, reps: TypeSize, header: TypeSize) -> TypeSize {
    match (single, reps) {
        (TypeSize::Const(bytes), TypeSize::Const(count)) => TypeSize::Const(
            (header.const_part() + bytes * count) as usize,
        ),
        (TypeSize::Dynamic, _) => TypeSize::Dynamic,
        (_, TypeSize::Dynamic) => TypeSize::Dynamic,
        _ => TypeSize::Fixed,
    }
}

/// Whether the constant of [`repeat_class`], if there is one, is a machine
/// integer.
pub open spec fn repeat_class_fits(single: TypeSize, reps: TypeSize, header: TypeSize) -> bool {
    single is Const && reps is Const ==> header.const_part() + single.const_part()
        * reps.const_part() <= usize::MAX
}

/// Classifies a collection from the classes of an element, of the number of
/// elements and of the header. The header has to be a constant.
pub fn repeat_size_and_len(single: TypeSize, reps: TypeSize, header: TypeSize) -> (size: TypeSize)
    requires
        header is Const,
        repeat_class_fits(single, reps, header),
    ensures
        size == repeat_class(single, reps, header),
{
    let header = header.expect_const();
    match (single, reps) {
        (TypeSize::Const(bytes), TypeSize::Const(count)) => {
            assert(bytes * count <= usize::MAX) by (nonlinear_arith)
                requires
                    header + bytes * count <= usize::MAX,
            ;
            TypeSize::Const(header + bytes * count)
        },
        (TypeSize::Dynamic, _) => TypeSize::Dynamic,
        (_, TypeSize::Dynamic) => TypeSize::Dynamic,
        _ => TypeSize::Fixed,
    }
}

/// The sizes of `items` under `analyzer`, added up.
pub open spec fn total_size<D: TypeAnalyzer, T: AnalyzeWith<D>>(items: Seq<T>, analyzer: &D) -> nat
    decreases items.len(),
{
    if items.len() == 0 {
        0
    } else {
        total_size(items.drop_last(), analyzer) + items.last().dynamic_size_spec(analyzer)
    }
}

/// Items that all have the size `each` have `each` times their number in total.
pub proof fn lemma_total_size_uniform<D: TypeAnalyzer, T: AnalyzeWith<D>>(
    items: Seq<T>,
    analyzer: &D,
    each: nat,
)
    requires
        forall|i: int| 0 <= i < items.len() ==> (#[trigger] items[i]).dynamic_size_spec(analyzer)
            == each,
    ensures
        total_size(items, analyzer) == items.len() * each,
    decreases items.len(),
{
    if items.len() > 0 {
        lemma_total_size_uniform(items.drop_last(), analyzer, each);
        assert(items.len() * each == (items.len() - 1) * each + each) by (nonlinear_arith);
    } else {
        assert(items.len() * each == 0) by (nonlinear_arith)
            requires
                items.len() == 0,
        ;
    }
}

/// Items whose sizes all stand for the same machine integer as `each` have, in
/// total, a size that stands for the same machine integer as `each` times
/// their number.
pub proof fn lemma_total_size_alike<D: TypeAnalyzer, T: AnalyzeWith<D>>(
    items: Seq<T>,
    analyzer: &D,
    each: nat,
)
    requires
        forall|i: int|
            0 <= i < items.len() ==> saturate((#[trigger] items[i]).dynamic_size_spec(analyzer))
                == saturate(each),
    ensures
        saturate(total_size(items, analyzer)) == saturate(items.len() * each),
    decreases items.len(),
{
    if items.len() == 0 {
        assert(items.len() * each == 0) by (nonlinear_arith)
            requires
                items.len() == 0,
        ;
    } else if each < usize::MAX {
        assert forall|i: int| 0 <= i < items.len() implies (#[trigger] items[i]).dynamic_size_spec(
            analyzer,
        ) == each by {
            assert(saturate(items[i].dynamic_size_spec(analyzer)) == saturate(each));
        }
        lemma_total_size_uniform(items, analyzer, each);
    } else {
        let last = items.last().dynamic_size_spec(analyzer);
        assert(saturate(last) == saturate(each));
        assert(total_size(items, analyzer) >= last);
        assert(items.len() * each >= each) by (nonlinear_arith)
            requires
                items.len() >= 1,
        ;
    }
}

/// The machine integer of a sum is the saturating sum of the machine integers
/// of its parts.
pub proof fn lemma_saturate_add(a: nat, b: nat)
    ensures
        saturate(a + b) == (if saturate(a) + saturate(b) <= usize::MAX {
            (saturate(a) + saturate(b)) as usize
        } else {
            usize::MAX
        }),
{
}

/// The machine integer of a product, from the machine integers of its factors.
pub proof fn lemma_saturate_mul(a: nat, b: nat)
    ensures
        saturate(a * b) == (if saturate(a) * saturate(b) <= usize::MAX {
            (saturate(a) * saturate(b)) as usize
        } else {
            usize::MAX
        }),
{
    let x = saturate(a);
    let y = saturate(b);
    if a <= usize::MAX && b <= usize::MAX {
    } else if a > usize::MAX {
        if b == 0 {
            assert(a * b == 0) by (nonlinear_arith)
                requires
                    b == 0,
            ;
            assert(x * y == 0) by (nonlinear_arith)
                requires
                    y == 0,
            ;
        } else {
            assert(a * b > usize::MAX && x * y >= usize::MAX) by (nonlinear_arith)
                requires
                    a > usize::MAX,
                    b >= 1,
                    x == usize::MAX,
                    y >= 1,
            ;
        }
    } else {
        if a == 0 {
            assert(a * b == 0) by (nonlinear_arith)
                requires
                    a == 0,
            ;
            assert(x * y == 0) by (nonlinear_arith)
                requires
                    x == 0,
            ;
        } else {
            assert(a * b > usize::MAX && x * y >= usize::MAX) by (nonlinear_arith)
                requires
                    b > usize::MAX,
                    a >= 1,
                    y == usize::MAX,
                    x >= 1,
            ;
        }
    }
}

impl<D: TypeAnalyzer, T: AnalyzeWith<D>, LEN: AnalyzeWith<D>> AnalyzeWith<D> for RepeatExt<
    T,
    LEN,
> where Length<LEN>: AnalyzeWith<D> {
    open spec fn analyzable() -> bool {
        &&& T::analyzable()
        &&& LEN::analyzable()
        &&& <Length<LEN> as AnalyzeWith<D>>::analyzable()
        &&& LEN::size_class() is Const
        &&& repeat_class_fits(
            T::size_class(),
            <Length<LEN> as AnalyzeWith<D>>::size_class(),
            LEN::size_class(),
        )
    }

    open spec fn size_class() -> TypeSize {
        repeat_class(
            T::size_class(),
            <Length<LEN> as AnalyzeWith<D>>::size_class(),
            LEN::size_class(),
        )
    }

    open spec fn fixed_size_spec(analyzer: &D) -> nat {
        LEN::size_class().const_part() + <Length<LEN> as AnalyzeWith<D>>::fixed_size_spec(analyzer)
            * T::fixed_size_spec(analyzer)
    }

    open spec fn dynamic_size_spec(&self, analyzer: &D) -> nat {
        LEN::size_class().const_part() + total_size(self.0@, analyzer)
    }

    open spec fn conforms(&self, analyzer: &D) -> bool {
        &&& forall|i: int| 0 <= i < self.0@.len() ==> (#[trigger] self.0@[i]).conforms(analyzer)
        &&& !(<Length<LEN> as AnalyzeWith<D>>::size_class() is Dynamic) ==> self.0@.len() == <Length<
            LEN,
        > as AnalyzeWith<D>>::fixed_size_spec(analyzer)
    }

    fn const_size() -> (size: TypeSize) {
        repeat_size_and_len(
            T::const_size(),
            <Length<LEN> as AnalyzeWith<D>>::const_size(),
            LEN::const_size(),
        )
    }

    fn fixed_size(analyzer: &D) -> (size: usize) {
        let reps = <Length<LEN> as AnalyzeWith<D>>::fixed_size(analyzer);
        let bytes = T::fixed_size(analyzer);
        let header = LEN::const_size().expect_const();
        proof {
            let count = <Length<LEN> as AnalyzeWith<D>>::fixed_size_spec(analyzer);
            let each = T::fixed_size_spec(analyzer);
            lemma_saturate_mul(count, each);
            lemma_saturate_add(header as nat, count * each);
            assert(reps * bytes == bytes * reps) by (nonlinear_arith);
        }
        match reps.checked_mul(bytes) {
            Some(body) => header.saturating_add(body),
            None => usize::MAX,
        }
    }

    fn dynamic_size(&self, analyzer: &D) -> (size: usize) {
        let header = LEN::const_size().expect_const();
        let mut body: usize = 0;
        let mut index: usize = 0;
        let ghost known = !(Self::size_class() is Dynamic) && self.conforms(analyzer);
        while index < self.0.len()
            invariant
                index <= self.0@.len(),
                T::analyzable(),
                body == saturate(total_size(self.0@.take(index as int), analyzer)),
                known ==> !(T::size_class() is Dynamic) && forall|i: int|
                    0 <= i < self.0@.len() ==> (#[trigger] self.0@[i]).conforms(analyzer),
                known ==> forall|i: int|
                    0 <= i < index ==> saturate(
                        (#[trigger] self.0@[i]).dynamic_size_spec(analyzer),
                    ) == saturate(T::fixed_size_spec(analyzer)),
            decreases self.0@.len() - index,
        {
            let size = self.0[index].dynamic_size(analyzer);
            proof {
                if known {
                    assert(self.0@[index as int].conforms(analyzer));
                }
                let before = self.0@.take(index as int);
                let now = self.0@.take(index + 1);
                assert(now.drop_last() =~= before);
                assert(now.last() == self.0@[index as int]);
                lemma_saturate_add(
                    total_size(before, analyzer),
                    self.0@[index as int].dynamic_size_spec(analyzer),
                );
            }
            body = body.saturating_add(size);
            index += 1;
        }
        proof {
            assert(self.0@.take(index as int) =~= self.0@);
            lemma_saturate_add(header as nat, total_size(self.0@, analyzer));
            if known {
                let each = T::fixed_size_spec(analyzer);
                lemma_total_size_alike(self.0@, analyzer, each);
                lemma_saturate_add(header as nat, self.0@.len() * each);
            }
        }
        header.saturating_add(body)
    }
}

/// Whether decoding one `T` after another, each within the scope named by its
/// position, takes the context along `states` and yields `items`.
pub open spec fn run_of<M: MakeType<T>, T>(states: Seq<M>, items: Seq<T>) -> bool {
    &&& states.len() == items.len() + 1
    &&& forall|i: int|
        #![trigger items[i]]
        0 <= i < items.len() ==> make_keyed_spec(
            states[i],
            RepresentKey::Usize(i as usize),
            states[i + 1],
            Ok(items[i]),
        )
}

/// Whether decoding `count` values of `T` from the context `start`, stopping at
/// the first failure, may leave the context `after` and end in `outcome`, the
/// values decoded or the failure.
pub open spec fn made_run<M: MakeType<T>, T>(
    start: M,
    count: usize,
    after: M,
    outcome: Result<Seq<T>, <M as Maker>::Error>,
) -> bool {
    exists|states: Seq<M>, items: Seq<T>| #[trigger]
        run_of(states, items) && states[0] == start && match outcome {
            Ok(all) => all == items && items.len() == count && states.last() == after,
            Err(error) => items.len() < count && make_keyed_spec(
                states.last(),
                RepresentKey::Usize(items.len() as usize),
                after,
                Err::<T, <M as Maker>::Error>(error),
            ),
        }
}

/// Whether encoding the first `done` of `items` one after the other, each
/// within the scope named by its position, succeeds and takes the context
/// along `states`.
pub open spec fn visits<V: VisitType<T>, T>(states: Seq<V>, items: Seq<T>, done: int) -> bool {
    &&& 0 <= done <= items.len()
    &&& states.len() == done + 1
    &&& forall|i: int|
        #![trigger items[i]]
        0 <= i < done ==> visit_keyed_spec(
            states[i],
            RepresentKey::Usize(i as usize),
            items[i],
            states[i + 1],
            Ok(()),
        )
}

/// Whether encoding `items` one after the other from the context `start`,
/// stopping at the first failure, may leave the context `after` and end in
/// `outcome`.
pub open spec fn visited_run<V: VisitType<T>, T>(
    start: V,
    items: Seq<T>,
    after: V,
    outcome: Result<(), <V as Visitor>::Error>,
) -> bool {
    exists|states: Seq<V>, done: int| #[trigger]
        visits(states, items, done) && states[0] == start && if outcome is Ok {
            done == items.len() && states.last() == after
        } else {
            done < items.len() && visit_keyed_spec(
                states.last(),
                RepresentKey::Usize(done as usize),
                items[done],
                after,
                outcome,
            )
        }
}

/// What a decoded collection holds, or the failure.
pub open spec fn items_outcome<T, LEN, E>(outcome: Result<RepeatExt<T, LEN>, E>) -> Result<
    Seq<T>,
    E,
> {
    match outcome {
        Ok(made) => Ok(made.0@),
        Err(error) => Err(error),
    }
}

impl<M, T, LEN> MakeWith<M> for RepeatExt<T, LEN> where
    Length<LEN>: AnalyzeWith<M>,
    M: MakeType<LEN> + MakeType<T> + Maker + TypeAnalyzer,
 {
    open spec fn makeable() -> bool {
        &&& <M as MakeType<LEN>>::can_make()
        &&& <M as MakeType<T>>::can_make()
        &&& <Length<LEN> as AnalyzeWith<M>>::analyzable()
    }

    open spec fn make_with_spec(
        before: M,
        after: M,
        outcome: Result<Self, <M as Maker>::Error>,
    ) -> bool {
        exists|mid: M, len: Result<LEN, <M as Maker>::Error>| #[trigger]
            <M as MakeType<LEN>>::make_spec(before, mid, len) && match len {
                Err(error) => after == mid && outcome == Err::<Self, <M as Maker>::Error>(error),
                Ok(len) => made_run::<M, T>(
                    mid,
                    saturate(Length(len).dynamic_size_spec(&mid)),
                    after,
                    items_outcome(outcome),
                ),
            }
    }

    fn make_with(maker: &mut M) -> (outcome: Result<Self, <M as Maker>::Error>) {
        let len: LEN = match <M as MakeType<LEN>>::make_type(maker) {
            Ok(len) => len,
            Err(error) => {
                return Err(error);
            },
        };
        let ghost mid = *maker;
        let ghost made_len = len;
        let count = Length(len).dynamic_size(maker);
        let mut values = Vec::<T>::with_capacity(count);
        let ghost mut states: Seq<M> = seq![mid];
        let mut index: usize = 0;
        while index < count
            invariant
                index <= count,
                <M as MakeType<T>>::can_make(),
                <M as MakeType<LEN>>::make_spec(*old(maker), mid, Ok(made_len)),
                count == saturate(Length(made_len).dynamic_size_spec(&mid)),
                run_of(states, values@),
                values@.len() == index,
                states[0] == mid,
                states.last() == *maker,
            decreases count - index,
        {
            let ghost here = *maker;
            match <M as MakeType<T>>::make_keyed(maker, index) {
                Ok(value) => {
                    proof {
                        let longer = states.push(*maker);
                        let more = values@.push(value);
                        assert forall|i: int| 0 <= i < more.len() implies make_keyed_spec(
                            longer[i],
                            RepresentKey::Usize(i as usize),
                            longer[i + 1],
                            Ok::<T, <M as Maker>::Error>(#[trigger] more[i]),
                        ) by {
                            if i < values@.len() {
                                assert(values@[i] == more[i]);
                                assert(longer[i] == states[i]);
                                assert(longer[i + 1] == states[i + 1]);
                            }
                        }
                        states = longer;
                    }
                    values.push(value);
                },
                Err(error) => {
                    assert(made_run::<M, T>(mid, count, *maker, Err(error))) by {
                        assert(run_of(states, values@));
                    }
                    return Err(error);
                },
            }
            index += 1;
        }
        let made = RepeatExt(values, PhantomData);
        assert(made_run::<M, T>(mid, count, *maker, Ok(made.0@))) by {
            assert(run_of(states, values@));
        }
        Ok(made)
    }
}

impl<V: Visitor, T, LEN> VisitWith<V> for RepeatExt<T, LEN> where
    LEN: TryFrom<usize, Error = LengthError>,
    V: VisitType<LEN> + VisitType<T> + Visitor,
    <V as Visitor>::Error: From<LengthError>,
 {
    open spec fn visitable() -> bool {
        &&& <V as VisitType<LEN>>::can_visit()
        &&& <V as VisitType<T>>::can_visit()
        &&& <LEN as TryFromSpec<usize>>::obeys_try_from_spec()
        &&& <<V as Visitor>::Error as FromSpec<LengthError>>::obeys_from_spec()
    }

    open spec fn visit_with_spec(
        self,
        before: V,
        after: V,
        outcome: Result<(), <V as Visitor>::Error>,
    ) -> bool {
        match <LEN as TryFromSpec<usize>>::try_from_spec(self.0@.len() as usize) {
            Err(error) => after == before && outcome == Err::<(), <V as Visitor>::Error>(
                <<V as Visitor>::Error as FromSpec<LengthError>>::from_spec(error),
            ),
            Ok(len) => exists|mid: V, headed: Result<(), <V as Visitor>::Error>| #[trigger]
                <V as VisitType<LEN>>::visit_spec(before, len, mid, headed) && if headed is Err {
                    after == mid && outcome == headed
                } else {
                    visited_run(mid, self.0@, after, outcome)
                },
        }
    }

    fn visit_with(&self, visitor: &mut V) -> (outcome: Result<(), <V as Visitor>::Error>) {
        let len = match LEN::try_from(self.0.len()) {
            Ok(len) => len,
            Err(error) => {
                return Err(<V as Visitor>::Error::from(error));
            },
        };
        let mut done = <V as VisitType<LEN>>::visit(visitor, &len);
        let ghost headed = done;
        let ghost mid = *visitor;
        if done.is_err() {
            return done;
        }
        let ghost mut states: Seq<V> = seq![mid];
        let mut index: usize = 0;
        while index < self.0.len()
            invariant
                index <= self.0@.len(),
                <V as VisitType<T>>::can_visit(),
                <LEN as TryFromSpec<usize>>::try_from_spec(self.0@.len() as usize) == Ok::<
                    LEN,
                    LengthError,
                >(len),
                <V as VisitType<LEN>>::visit_spec(*old(visitor), len, mid, headed),
                headed is Ok,
                done is Ok,
                visits(states, self.0@, index as int),
                states[0] == mid,
                states.last() == *visitor,
            decreases self.0@.len() - index,
        {
            let ghost here = *visitor;
            let step = <V as VisitType<T>>::visit_keyed(visitor, index, &self.0[index]);
            assert(visit_keyed_spec(
                here,
                RepresentKey::Usize(index),
                self.0@[index as int],
                *visitor,
                step,
            ));
            if step.is_err() {
                assert(visited_run(mid, self.0@, *visitor, step)) by {
                    assert(visits(states, self.0@, index as int));
                    assert(states.last() == here);
                }
                assert(<LEN as TryFromSpec<usize>>::try_from_spec(self.0@.len() as usize)->Ok_0
                    == len);
                assert(exists|mid: V, headed: Result<(), <V as Visitor>::Error>| #[trigger]
                    <V as VisitType<LEN>>::visit_spec(*old(visitor), len, mid, headed)
                        && if headed is Err {
                        *visitor == mid && step == headed
                    } else {
                        visited_run(mid, self.0@, *visitor, step)
                    });
                return step;
            }
            proof {
                lemma_ok_unit(step);
                let longer = states.push(*visitor);
                assert forall|i: int| 0 <= i < index + 1 implies visit_keyed_spec(
                    longer[i],
                    RepresentKey::Usize(i as usize),
                    #[trigger] self.0@[i],
                    longer[i + 1],
                    Ok::<(), <V as Visitor>::Error>(()),
                ) by {
                    if i < index {
                        assert(longer[i] == states[i]);
                        assert(longer[i + 1] == states[i + 1]);
                    }
                }
                states = longer;
            }
            done = step;
            index += 1;
        }
        assert(visited_run(mid, self.0@, *visitor, done)) by {
            assert(visits(states, self.0@, index as int));
        }
        done
    }
}

} // verus!
