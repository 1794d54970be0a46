//! The three-way classification of encoded sizes and the rule for composing it.

use vstd::prelude::*;

verus! {

/// How predictable the encoded length of a type is.
#[derive(Debug, Clone, Copy, PartialEq, Eq, Structural)]
pub enum TypeSize {
    /// Every instance occupies exactly this many bytes, whatever the context.
    Const(usize),
    /// Every instance occupies the same number of bytes under a given context.
    Fixed,
    /// The length varies from instance to instance.
    Dynamic,
}

/// The machine integer that stands for a size: the size itself, or the largest
/// machine integer where the size is beyond it.
pub open spec fn saturate(size: nat) -> usize {
    if size <= usize::MAX {
        size as usize
    } else {
        usize::MAX
    }
}

impl TypeSize {
    /// The constant of a `Const` classification, and 0 for the other two.
    pub open spec fn const_part(self) -> nat {
        match self {
            TypeSize::Const(n) => n as nat,
            _ => 0,
        }
    }
}

/// The arithmetic total of the constants among `sizes`.
pub open spec fn total_const(sizes: Seq<TypeSize>) -> nat
    decreases sizes.len(),
{
    if sizes.len() == 0 {
        0
    } else {
        total_const(sizes.drop_last()) + sizes.last().const_part()
    }
}

/// Whether every part is classified `Const`.
pub open spec fn all_const(sizes: Seq<TypeSize>) -> bool {
    forall|i: int| 0 <= i < sizes.len() ==> sizes[i] is Const
}

/// The classification of a value made of parts of the given classes:
/// `Dynamic` if any part is, else `Fixed` if any part is, else `Const` with the
/// total of the parts.
pub open spec fn sum_spec(sizes: Seq<TypeSize>) -> TypeSize {
    if exists|i: int| 0 <= i < sizes.len() && sizes[i] is Dynamic {
        TypeSize::Dynamic
    } else if exists|i: int| 0 <= i < sizes.len() && sizes[i] is Fixed {
        TypeSize::Fixed
    } else {
        TypeSize::Const(total_const(sizes) as usize)
    }
}

/// The total of a prefix is no more than the total of the whole.
pub proof fn lemma_total_const_prefix(sizes: Seq<TypeSize>, k: int)
    requires
        0 <= k <= sizes.len(),
    ensures
        total_const(sizes.take(k)) <= total_const(sizes),
    decreases sizes.len(),
{
    if k == sizes.len() {
        assert(sizes.take(k) =~= sizes);
    } else {
        lemma_total_const_prefix(sizes.drop_last(), k);
        assert(sizes.drop_last().take(k) =~= sizes.take(k));
    }
}

/// Parts that are all constants make a constant, and parts of which none is
/// `Dynamic` make no `Dynamic` whole.
pub proof fn lemma_sum_spec_class(sizes: Seq<TypeSize>)
    ensures
        sum_spec(sizes) is Const <==> all_const(sizes),
        sum_spec(sizes) is Dynamic <==> exists|i: int| 0 <= i < sizes.len() && sizes[i] is Dynamic,
{
    if sum_spec(sizes) is Const {
        assert forall|i: int| 0 <= i < sizes.len() implies sizes[i] is Const by {
            if sizes[i] is Dynamic {
            } else if sizes[i] is Fixed {
            }
        }
    }
}

impl TypeSize {
    /// The byte count of a `Const` classification.
    pub fn expect_const(self) -> (size: usize)
        requires
            self is Const,
        ensures
            self == TypeSize::Const(size),
    {
        match self {
            TypeSize::Const(size) => size,
            _ => 0,
        }
    }

    /// Whether the size is known without looking at an instance.
    pub fn is_const_or_fixed(self) -> (known: bool)
        ensures
            known == !(self is Dynamic),
    {
        match self {
            TypeSize::Const(_) => true,
            TypeSize::Fixed => true,
            TypeSize::Dynamic => false,
        }
    }
}

/// Whether a value made of parts with the given sizes can be classified:
/// whether, where every part is a constant, the total is a machine integer.
pub fn sizes_fit<const L: usize>(sizes: &[TypeSize; L]) -> (fits: bool)
    ensures
        fits == (all_const(sizes@) ==> total_const(sizes@) <= usize::MAX),
{
    let mut i: usize = 0;
    while i < L
        invariant
            i <= L,
            sizes@.len() == L,
            forall|j: int| 0 <= j < i ==> sizes@[j] is Const,
        decreases L - i,
    {
        match sizes[i] {
            TypeSize::Const(_) => {},
            _ => {
                return true;
            },
        }
        i += 1;
    }
    let mut total: usize = 0;
    let mut k: usize = 0;
    while k < L
        invariant
            k <= L,
            sizes@.len() == L,
            all_const(sizes@),
            total == total_const(sizes@.take(k as int)),
        decreases L - k,
    {
        proof {
            lemma_total_const_prefix(sizes@, k + 1);
            assert(sizes@.take(k + 1).drop_last() =~= sizes@.take(k as int));
        }
        match sizes[k] {
            TypeSize::Const(size) => {
                if size > usize::MAX - total {
                    return false;
                }
                total = total + size;
            },
            _ => {},
        }
        k += 1;
    }
    assert(sizes@.take(L as int) =~= sizes@);
    true
}

/// Classifies a value made of parts with the given sizes. Where every part is
/// a constant, the total has to be a machine integer.
pub fn sum_sizes<const L: usize>(sizes: [TypeSize; L]) -> (sum: TypeSize)
    requires
        all_const(sizes@) ==> total_const(sizes@) <= usize::MAX,
    ensures
        sum == sum_spec(sizes@),
{
    let mut any_fixed = false;
    let mut i: usize = 0;
    while i < L
        invariant
            i <= L,
            sizes@.len() == L,
            forall|j: int| 0 <= j < i ==> !(sizes@[j] is Dynamic),
            any_fixed == (exists|j: int| 0 <= j < i && sizes@[j] is Fixed),
        decreases L - i,
    {
        match sizes[i] {
            TypeSize::Dynamic => {
                return TypeSize::Dynamic;
            },
            TypeSize::Fixed => {
                any_fixed = true;
            },
            TypeSize::Const(_) => {},
        }
        i += 1;
    }
    if any_fixed {
        return TypeSize::Fixed;
    }
    let mut total: usize = 0;
    let mut k: usize = 0;
    while k < L
        invariant
            k <= L,
            sizes@.len() == L,
            forall|j: int| 0 <= j < L ==> sizes@[j] is Const,
            total_const(sizes@) <= usize::MAX,
            total == total_const(sizes@.take(k as int)),
        decreases L - k,
    {
        proof {
            lemma_total_const_prefix(sizes@, k + 1);
            assert(sizes@.take(k + 1).drop_last() =~= sizes@.take(k as int));
        }
        match sizes[k] {
            TypeSize::Const(size) => {
                total = total + size;
            },
            _ => {},
        }
        k += 1;
    }
    assert(sizes@.take(L as int) =~= sizes@);
    TypeSize::Const(total)
}

} // verus!
