//! Keys name the field or variant that a traversal is working on.

use vstd::prelude::*;
use vstd::std_specs::convert::FromSpecImpl;
use vstd::std_specs::convert::IntoSpec;

verus! {

/// The name of a traversed field or variant. Keys serve diagnostics only: they
/// have no bearing on the bytes of a format.
#[derive(Clone, Debug)]
pub enum RepresentKey {
    /// A signed position.
    Int(i128),
    /// The position of an unnamed field, counted from 0 within its variant.
    Usize(usize),
    /// A name known when the program was written.
    Static(&'static str),
    /// A name made while the program runs.
    Owned(String),
}

/// What a key says: a position or a name. Where a name comes from is not part
/// of it.
pub enum KeyView {
    Int(int),
    Usize(nat),
    Name(Seq<char>),
}

impl View for RepresentKey {
    type V = KeyView;

    open spec fn view(&self) -> KeyView {
        match *self {
            RepresentKey::Int(position) => KeyView::Int(position as int),
            RepresentKey::Usize(position) => KeyView::Usize(position as nat),
            RepresentKey::Static(name) => KeyView::Name(name@),
            RepresentKey::Owned(name) => KeyView::Name(name@),
        }
    }
}

/// Whether `name` may be the key that `key` turns into: it is, where the
/// conversion says what it gives; a conversion that does not say may give any
/// key.
pub open spec fn named_by<K: Into<RepresentKey>>(key: K, name: RepresentKey) -> bool {
    K::obeys_into_spec() ==> name == key.into_spec()
}

impl From<i128> for RepresentKey {
    fn from(value: i128) -> (key: Self) {
        RepresentKey::Int(value)
    }
}

impl FromSpecImpl<i128> for RepresentKey {
    open spec fn obeys_from_spec() -> bool {
        true
    }

    open spec fn from_spec(value: i128) -> Self {
        RepresentKey::Int(value)
    }
}

impl From<usize> for RepresentKey {
    fn from(value: usize) -> (key: Self) {
        RepresentKey::Usize(value)
    }
}

impl FromSpecImpl<usize> for RepresentKey {
    open spec fn obeys_from_spec() -> bool {
        true
    }

    open spec fn from_spec(value: usize) -> Self {
        RepresentKey::Usize(value)
    }
}

impl From<&'static str> for RepresentKey {
    fn from(value: &'static str) -> (key: Self) {
        RepresentKey::Static(value)
    }
}

impl FromSpecImpl<&'static str> for RepresentKey {
    open spec fn obeys_from_spec() -> bool {
        true
    }

    open spec fn from_spec(value: &'static str) -> Self {
        RepresentKey::Static(value)
    }
}

impl From<String> for RepresentKey {
    fn from(value: String) -> (key: Self) {
        RepresentKey::Owned(value)
    }
}

impl FromSpecImpl<String> for RepresentKey {
    open spec fn obeys_from_spec() -> bool {
        true
    }

    open spec fn from_spec(value: String) -> Self {
        RepresentKey::Owned(value)
    }
}

} // verus!
