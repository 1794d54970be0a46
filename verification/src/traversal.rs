//! The two traversal contracts: a `Visitor` takes values and emits their
//! encoding, a `Maker` consumes an encoding and produces values.
//!
//! What an operation does is given by a relation between the context before
//! the call, the context after it and the outcome: a context that holds a
//! buffer, and a value that holds a `Vec`, are known only by what they hold, so
//! that neither is a function of what went in. The executable methods are
//! bound to these relations.
//!
//! A value may be traversed within a scope that a key names. What entering and
//! leaving a scope does to a context is for the context to say; the keys have
//! no bearing on what is encoded.
//!
//! Each contract rests on conditions that hold or fail for a pair of types as a
//! whole, whatever the values: that the conversions of the standard library
//! which an encoding calls follow their specifications, and that the sizes
//! which it asks of the analysis are defined. They are gathered in one spec
//! function per trait and demanded once, as the precondition of its method.

use vstd::prelude::*;
use vstd::std_specs::convert::IntoSpec;
use crate::key::named_by;
use crate::key::RepresentKey;

verus! {

/// There is one way to succeed without a value.
pub proof fn lemma_ok_unit<E>(outcome: Result<(), E>)
    requires
        outcome is Ok,
    ensures
        outcome == Ok::<(), E>(()),
{
    let unit = outcome->Ok_0;
    assert(unit == ());
}

/// An encoding context.
pub trait Visitor: Sized {
    /// What a failed encoding reports.
    type Error;

    /// The bytes that this context has emitted so far.
    open spec fn emitted(&self) -> Seq<u8> {
        arbitrary()
    }

    /// Whether entering the scope named `key` may turn the context `before`
    /// into the context `inside`. A context that keeps a record of its scopes
    /// says here what entering one does to it; a context that keeps none is
    /// left as it is.
    open spec fn enters(before: Self, key: RepresentKey, inside: Self) -> bool {
        inside == before
    }

    /// Whether leaving the scope named `key` may turn the context `inside` into
    /// the context `after`. A context that keeps a record of its scopes says
    /// here what leaving one does to it; a context that keeps none is left as
    /// it is.
    open spec fn leaves(inside: Self, key: RepresentKey, after: Self) -> bool {
        after == inside
    }

    /// Runs `func` on this context within the scope named `key`: the scope is
    /// entered, `func` runs on the context inside it, and the scope is left,
    /// on success and on failure alike. What `func` returns is returned.
    /// Entering and leaving are as the context says, or leave it as it is.
    fn with_key<F>(&mut self, key: RepresentKey, func: F) -> (outcome: Result<(), Self::Error>)
        where F: FnOnce(&mut Self) -> Result<(), Self::Error>
        requires
            forall|scope: &mut Self|
                *scope == *old(self) || Self::enters(*old(self), key, *scope)
                    ==> #[trigger] call_requires(func, (scope,)),
        ensures
            exists|scope: &mut Self|
                (*scope == *old(self) || Self::enters(*old(self), key, *scope))
                    && #[trigger] call_ensures(func, (scope,), outcome) && (*final(self)
                    == *final(scope) || Self::leaves(*final(scope), key, *final(self))),
    {
        func(self)
    }
}

/// An encoding context that knows how to encode a `T`.
pub trait VisitType<T>: Visitor {
    /// Whether the conditions on the two types hold under which this context
    /// encodes a `T` as [`Self::visit_spec`] says. An implementation that does
    /// not state them promises nothing.
    open spec fn can_visit() -> bool {
        false
    }

    /// Whether encoding `target` to the context `before` may leave the context
    /// `after` and end in `outcome`.
    open spec fn visit_spec(
        before: Self,
        target: T,
        after: Self,
        outcome: Result<(), <Self as Visitor>::Error>,
    ) -> bool {
        true
    }

    /// Encodes `target`.
    fn visit(&mut self, target: &T) -> (outcome: Result<(), <Self as Visitor>::Error>)
        requires
            Self::can_visit(),
        ensures
            Self::visit_spec(*old(self), *target, *final(self), outcome),
    ;

    /// Encodes `target` within the scope named by `key`: one value is encoded,
    /// inside a scope whose name is what `key` turns into.
    fn visit_keyed<K: Into<RepresentKey>>(&mut self, key: K, target: &T) -> (outcome: Result<
        (),
        <Self as Visitor>::Error,
    >)
        requires
            Self::can_visit(),
        ensures
            exists|name: RepresentKey, inside: Self, done: Self|
                #![trigger named_by(key, name), Self::visit_spec(inside, *target, done, outcome)]
                named_by(key, name) && (inside == *old(self) || Self::enters(
                    *old(self),
                    name,
                    inside,
                )) && Self::visit_spec(inside, *target, done, outcome) && (*final(self) == done
                    || Self::leaves(done, name, *final(self))),
    {
        let name: RepresentKey = key.into();
        let ghost named = name;
        let encode = |visitor: &mut Self| -> (outcome: Result<(), <Self as Visitor>::Error>)
            requires
                Self::can_visit(),
            ensures
                Self::visit_spec(*old(visitor), *target, *final(visitor), outcome),
            { visitor.visit(target) };
        let outcome = self.with_key(name, encode);
        proof {
            let scope = choose|scope: &mut Self|
                (*scope == *old(self) || Self::enters(*old(self), named, *scope))
                    && #[trigger] call_ensures(encode, (scope,), outcome) && (*self == *final(scope)
                    || Self::leaves(*final(scope), named, *self));
            let inside = *scope;
            let done = *final(scope);
            assert(Self::visit_spec(inside, *target, done, outcome));
            assert(inside == *old(self) || Self::enters(*old(self), named, inside));
            assert(*self == done || Self::leaves(done, named, *self));
            assert(named_by(key, named));
        }
        outcome
    }
}

/// A value that knows how to encode itself to a `V`.
pub trait VisitWith<V: Visitor>: Sized {
    /// Whether the conditions on the two types hold under which this type is
    /// encoded as [`Self::visit_with_spec`] says. An implementation that does
    /// not state them promises nothing.
    open spec fn visitable() -> bool {
        false
    }

    /// Whether encoding `self` to the context `before` may leave the context
    /// `after` and end in `outcome`.
    open spec fn visit_with_spec(self, before: V, after: V, outcome: Result<(), V::Error>) -> bool {
        true
    }

    /// Encodes `self` to `visitor`.
    fn visit_with(&self, visitor: &mut V) -> (outcome: Result<(), V::Error>)
        requires
            Self::visitable(),
        ensures
            self.visit_with_spec(*old(visitor), *final(visitor), outcome),
    ;
}

/// A decoding context.
pub trait Maker: Sized {
    /// What a failed decoding reports.
    type Error;

    /// The bytes that this context has yet to consume.
    open spec fn pending(&self) -> Seq<u8> {
        arbitrary()
    }

    /// Whether entering the scope named `key` may turn the context `before`
    /// into the context `inside`. A context that keeps a record of its scopes
    /// says here what entering one does to it; a context that keeps none is
    /// left as it is.
    open spec fn enters(before: Self, key: RepresentKey, inside: Self) -> bool {
        inside == before
    }

    /// Whether leaving the scope named `key` may turn the context `inside` into
    /// the context `after`. A context that keeps a record of its scopes says
    /// here what leaving one does to it; a context that keeps none is left as
    /// it is.
    open spec fn leaves(inside: Self, key: RepresentKey, after: Self) -> bool {
        after == inside
    }

    /// Runs `func` on this context within the scope named `key`: the scope is
    /// entered, `func` runs on the context inside it, and the scope is left,
    /// on success and on failure alike. What `func` returns is returned.
    /// Entering and leaving are as the context says, or leave it as it is.
    fn with_key<R, F>(&mut self, key: RepresentKey, func: F) -> (outcome: Result<R, Self::Error>)
        where F: FnOnce(&mut Self) -> Result<R, Self::Error>
        requires
            forall|scope: &mut Self|
                *scope == *old(self) || Self::enters(*old(self), key, *scope)
                    ==> #[trigger] call_requires(func, (scope,)),
        ensures
            exists|scope: &mut Self|
                (*scope == *old(self) || Self::enters(*old(self), key, *scope))
                    && #[trigger] call_ensures(func, (scope,), outcome) && (*final(self)
                    == *final(scope) || Self::leaves(*final(scope), key, *final(self))),
    {
        func(self)
    }
}

/// A decoding context that knows how to decode a `T`.
pub trait MakeType<T>: Maker {
    /// Whether the conditions on the two types hold under which this context
    /// decodes a `T` as [`Self::make_spec`] says. An implementation that does
    /// not state them promises nothing.
    open spec fn can_make() -> bool {
        false
    }

    /// Whether decoding a `T` from the context `before` may leave the context
    /// `after` and end in `outcome`.
    open spec fn make_spec(
        before: Self,
        after: Self,
        outcome: Result<T, <Self as Maker>::Error>,
    ) -> bool {
        true
    }

    /// Decodes a `T`.
    fn make_type(&mut self) -> (outcome: Result<T, <Self as Maker>::Error>)
        requires
            Self::can_make(),
        ensures
            Self::make_spec(*old(self), *final(self), outcome),
    ;

    /// Decodes a `T`.
    fn make(&mut self) -> (outcome: Result<T, <Self as Maker>::Error>)
        requires
            Self::can_make(),
        ensures
            Self::make_spec(*old(self), *final(self), outcome),
    {
        self.make_type()
    }

    /// Decodes a `T` within the scope named by `key`: one value is decoded,
    /// inside a scope whose name is what `key` turns into.
    fn make_keyed<K: Into<RepresentKey>>(&mut self, key: K) -> (outcome: Result<
        T,
        <Self as Maker>::Error,
    >)
        requires
            Self::can_make(),
        ensures
            exists|name: RepresentKey, inside: Self, done: Self|
                #![trigger named_by(key, name), Self::make_spec(inside, done, outcome)]
                named_by(key, name) && (inside == *old(self) || Self::enters(
                    *old(self),
                    name,
                    inside,
                )) && Self::make_spec(inside, done, outcome) && (*final(self) == done
                    || Self::leaves(done, name, *final(self))),
    {
        let name: RepresentKey = key.into();
        let ghost named = name;
        let decode = |maker: &mut Self| -> (outcome: Result<T, <Self as Maker>::Error>)
            requires
                Self::can_make(),
            ensures
                Self::make_spec(*old(maker), *final(maker), outcome),
            { maker.make_type() };
        let outcome = self.with_key(name, decode);
        proof {
            let scope = choose|scope: &mut Self|
                (*scope == *old(self) || Self::enters(*old(self), named, *scope))
                    && #[trigger] call_ensures(decode, (scope,), outcome) && (*self == *final(scope)
                    || Self::leaves(*final(scope), named, *self));
            let inside = *scope;
            let done = *final(scope);
            assert(Self::make_spec(inside, done, outcome));
            assert(inside == *old(self) || Self::enters(*old(self), named, inside));
            assert(*self == done || Self::leaves(done, named, *self));
            assert(named_by(key, named));
        }
        outcome
    }
}

/// A type that knows how to decode itself from an `M`.
pub trait MakeWith<M: Maker>: Sized {
    /// Whether the conditions on the two types hold under which this type is
    /// decoded as [`Self::make_with_spec`] says. An implementation that does
    /// not state them promises nothing.
    open spec fn makeable() -> bool {
        false
    }

    /// Whether decoding a `Self` from the context `before` may leave the context
    /// `after` and end in `outcome`.
    open spec fn make_with_spec(before: M, after: M, outcome: Result<Self, M::Error>) -> bool {
        true
    }

    /// Decodes a `Self` from `maker`.
    fn make_with(maker: &mut M) -> (outcome: Result<Self, M::Error>)
        requires
            Self::makeable(),
        ensures
            Self::make_with_spec(*old(maker), *final(maker), outcome),
    ;
}

/// Whether encoding `target` within the scope named `key` may take the context
/// `before` to the context `after` and end in `outcome`: the scope is entered,
/// the value is encoded inside it, and the scope is left.
pub open spec fn visit_keyed_spec<V: VisitType<T>, T>(
    before: V,
    key: RepresentKey,
    target: T,
    after: V,
    outcome: Result<(), <V as Visitor>::Error>,
) -> bool {
    exists|inside: V, done: V|
        (inside == before || V::enters(before, key, inside)) && #[trigger] V::visit_spec(
            inside,
            target,
            done,
            outcome,
        ) && (after == done || V::leaves(done, key, after))
}

/// Whether decoding a `T` within the scope named `key` may take the context
/// `before` to the context `after` and end in `outcome`: the scope is entered,
/// the value is decoded inside it, and the scope is left.
pub open spec fn make_keyed_spec<M: MakeType<T>, T>(
    before: M,
    key: RepresentKey,
    after: M,
    outcome: Result<T, <M as Maker>::Error>,
) -> bool {
    exists|inside: M, done: M|
        (inside == before || M::enters(before, key, inside)) && #[trigger] M::make_spec(
            inside,
            done,
            outcome,
        ) && (after == done || M::leaves(done, key, after))
}

} // verus!
