//! Names for the collections in common use.

use vstd::prelude::*;
use crate::generics::blob::BigArr;
use crate::generics::blob::BigStr;
use crate::generics::collections::RepeatExt;
use crate::generics::length::LenConst;
use crate::generics::length::LenMake;
use crate::generics::length::LenRest;
use crate::generics::length::LenSlot;

verus! {

/// A collection behind a length field of type `L`.
pub type RepeatMake<L, T> = RepeatExt<T, LenMake<L>>;

/// A collection whose length is in slot `SLOT`.
pub type RepeatSlot<T, const SLOT: usize> = RepeatExt<T, LenSlot<(), SLOT>>;

/// A run behind a length field of type `L`.
pub type BigArrMake<L, T> = BigArr<T, LenMake<L>>;

/// A run of exactly `LEN` elements.
pub type BigStaticArr<T, const LEN: usize> = BigArr<T, LenConst<LEN>>;

/// A run whose length is in slot `SLOT`.
pub type BigArrSlot<T, const SLOT: usize> = BigArr<T, LenSlot<(), SLOT>>;

/// The bytes that are left of the input.
pub type TailBytes = BigArr<u8, LenRest>;

/// A text of exactly `LEN` bytes.
pub type StaticStr<const LEN: usize> = BigStr<LenConst<LEN>>;

} // verus!
