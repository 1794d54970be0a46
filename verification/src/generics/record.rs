//! A record of two fields, the first encoded before the second. Longer
//! records are pairs of pairs.
//!
//! The fields are unnamed, so their keys are their positions, 0 and 1.

use vstd::prelude::*;
use crate::analysis::AnalyzeType;
use crate::analysis::AnalyzeWith;
use crate::analysis::TypeAnalyzer;
use crate::size::all_const;
use crate::size::sum_sizes;
use crate::size::sum_spec;
use crate::size::total_const;
use crate::size::TypeSize;
use crate::key::RepresentKey;
use crate::traversal::make_keyed_spec;
use crate::traversal::visit_keyed_spec;
use crate::traversal::MakeType;
use crate::traversal::MakeWith;
use crate::traversal::Maker;
use crate::traversal::VisitType;
use crate::traversal::VisitWith;
use crate::traversal::Visitor;

verus! {

/// The classes of the two fields of a record, in their order.
pub open spec fn field_classes<D, A, B>() -> Seq<TypeSize> where
    D: TypeAnalyzer + AnalyzeType<A> + AnalyzeType<B>,
 {
    seq![<D as AnalyzeType<A>>::type_size_class(), <D as AnalyzeType<B>>::type_size_class()]
}

/// The total of the constants of a record of two fields.
pub proof fn lemma_total_of_two(first: TypeSize, second: TypeSize)
    ensures
        total_const(seq![first, second]) == first.const_part() + second.const_part(),
        sum_spec(seq![first, second]) is Dynamic <==> first is Dynamic || second is Dynamic,
        sum_spec(seq![first, second]) is Const <==> first is Const && second is Const,
{
    let both = seq![first, second];
    assert(both.drop_last() =~= seq![first]);
    assert(both.drop_last().drop_last() =~= Seq::<TypeSize>::empty());
    assert(total_const(both) == first.const_part() + second.const_part()) by {
        reveal_with_fuel(total_const, 3);
    }
    assert(both[0] == first && both[1] == second);
    if first is Const && second is Const {
        assert forall|i: int| 0 <= i < both.len() implies both[i] is Const by {
            if i == 0 {
            } else {
                assert(i == 1);
            }
        }
    }
}

impl<V, A, B> VisitWith<V> for (A, B) where V: Visitor + VisitType<A> + VisitType<B> {
    open spec fn visitable() -> bool {
        <V as VisitType<A>>::can_visit() && <V as VisitType<B>>::can_visit()
    }

    open spec fn visit_with_spec(
        self,
        before: V,
        after: V,
        outcome: Result<(), <V as Visitor>::Error>,
    ) -> bool {
        exists|mid: V, first: Result<(), <V as Visitor>::Error>| #[trigger]
            visit_keyed_spec(before, RepresentKey::Usize(0), self.0, mid, first) && if first is Err {
                after == mid && outcome == first
            } else {
                visit_keyed_spec(mid, RepresentKey::Usize(1), self.1, after, outcome)
            }
    }

    fn visit_with(&self, visitor: &mut V) -> (outcome: Result<(), <V as Visitor>::Error>) {
        let ghost before = *visitor;
        let first = <V as VisitType<A>>::visit_keyed(visitor, 0usize, &self.0);
        let ghost mid = *visitor;
        assert(visit_keyed_spec(before, RepresentKey::Usize(0), self.0, mid, first));
        if first.is_err() {
            return first;
        }
        let second = <V as VisitType<B>>::visit_keyed(visitor, 1usize, &self.1);
        assert(visit_keyed_spec(mid, RepresentKey::Usize(1), self.1, *visitor, second));
        second
    }
}

impl<M, A, B> MakeWith<M> for (A, B) where M: Maker + MakeType<A> + MakeType<B> {
    open spec fn makeable() -> bool {
        <M as MakeType<A>>::can_make() && <M as MakeType<B>>::can_make()
    }

    open spec fn make_with_spec(
        before: M,
        after: M,
        outcome: Result<Self, <M as Maker>::Error>,
    ) -> bool {
        exists|mid: M, first: Result<A, <M as Maker>::Error>| #[trigger]
            make_keyed_spec(before, RepresentKey::Usize(0), mid, first) && match first {
                Err(error) => after == mid && outcome == Err::<Self, <M as Maker>::Error>(error),
                Ok(first) => match outcome {
                    Ok(both) => both.0 == first && make_keyed_spec(
                        mid,
                        RepresentKey::Usize(1),
                        after,
                        Ok::<B, <M as Maker>::Error>(both.1),
                    ),
                    Err(error) => make_keyed_spec(
                        mid,
                        RepresentKey::Usize(1),
                        after,
                        Err::<B, <M as Maker>::Error>(error),
                    ),
                },
            }
    }

    fn make_with(maker: &mut M) -> (outcome: Result<Self, <M as Maker>::Error>) {
        let ghost before = *maker;
        let made = <M as MakeType<A>>::make_keyed(maker, 0usize);
        let ghost mid = *maker;
        assert(make_keyed_spec(before, RepresentKey::Usize(0), mid, made));
        let first: A = match made {
            Ok(first) => first,
            Err(error) => {
                return Err(error);
            },
        };
        let then = <M as MakeType<B>>::make_keyed(maker, 1usize);
        assert(make_keyed_spec(mid, RepresentKey::Usize(1), *maker, then));
        match then {
            Ok(second) => Ok((first, second)),
            Err(error) => Err(error),
        }
    }
}

impl<D, A, B> AnalyzeWith<D> for (A, B) where D: TypeAnalyzer + AnalyzeType<A> + AnalyzeType<B> {
    open spec fn analyzable() -> bool {
        &&& <D as AnalyzeType<A>>::type_analyzable()
        &&& <D as AnalyzeType<B>>::type_analyzable()
        &&& all_const(field_classes::<D, A, B>()) ==> total_const(field_classes::<D, A, B>())
            <= usize::MAX
    }

    open spec fn size_class() -> TypeSize {
        sum_spec(field_classes::<D, A, B>())
    }

    open spec fn fixed_size_spec(analyzer: &D) -> nat {
        <D as AnalyzeType<A>>::type_fixed_size_spec(analyzer) + <D as AnalyzeType<
            B,
        >>::type_fixed_size_spec(analyzer)
    }

    open spec fn dynamic_size_spec(&self, analyzer: &D) -> nat {
        analyzer.type_dynamic_size_spec(&self.0) + analyzer.type_dynamic_size_spec(&self.1)
    }

    open spec fn conforms(&self, analyzer: &D) -> bool {
        analyzer.type_conforms(&self.0) && analyzer.type_conforms(&self.1)
    }

    fn const_size() -> (size: TypeSize) {
        let sizes = [
            <D as AnalyzeType<A>>::type_const_size(),
            <D as AnalyzeType<B>>::type_const_size(),
        ];
        assert(sizes@ =~= field_classes::<D, A, B>());
        sum_sizes(sizes)
    }

    fn fixed_size(analyzer: &D) -> (size: usize) {
        proof {
            lemma_total_of_two(
                <D as AnalyzeType<A>>::type_size_class(),
                <D as AnalyzeType<B>>::type_size_class(),
            );
        }
        let first = <D as AnalyzeType<A>>::type_fixed_size(analyzer);
        let second = <D as AnalyzeType<B>>::type_fixed_size(analyzer);
        first.saturating_add(second)
    }

    fn dynamic_size(&self, analyzer: &D) -> (size: usize) {
        let first = analyzer.type_dynamic_size(&self.0);
        let second = analyzer.type_dynamic_size(&self.1);
        first.saturating_add(second)
    }
}

} // verus!
