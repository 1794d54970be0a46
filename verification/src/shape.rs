//! What a format needs to know of the shape of a type in order to traverse it:
//! the key of each field, the distinct types of the fields, and the options of
//! a tagged union.
//!
//! A shape is given in plain values, the names as strings. Whoever writes or
//! generates the traversal of a type takes its decisions from here.

use vstd::prelude::*;
use crate::key::KeyView;
use crate::key::RepresentKey;

verus! {

/// Hands out the keys of the fields of one variant: a named field is known by
/// its name, an unnamed field by its position among the unnamed fields.
pub struct IdentCounter(usize);

impl Default for IdentCounter {
    fn default() -> (counter: Self)
        ensures
            counter.count() == 0,
    {
        IdentCounter(0)
    }
}

impl IdentCounter {
    /// The number of unnamed fields that were given a key.
    pub closed spec fn count(self) -> usize {
        self.0
    }

    /// The key of the next field: its name, or the next position where it has
    /// none.
    pub fn next_key(&mut self, ident: &Option<String>) -> (key: RepresentKey)
        requires
            ident is None ==> old(self).count() < usize::MAX,
        ensures
            match ident {
                Some(name) => key@ == KeyView::Name(name@) && final(self).count() == old(
                    self,
                ).count(),
                None => key@ == KeyView::Usize(old(self).count() as nat) && final(self).count()
                    == old(self).count() + 1,
            },
    {
        match ident {
            Some(name) => RepresentKey::Owned(name.clone()),
            None => {
                let index = self.0;
                self.0 += 1;
                RepresentKey::Usize(index)
            },
        }
    }
}

/// The number of fields without a name among the first `upto` of `names`.
pub open spec fn unnamed_before(names: Seq<Option<String>>, upto: int) -> nat
    decreases upto,
{
    if upto <= 0 {
        0
    } else {
        unnamed_before(names, upto - 1) + if names[upto - 1] is None {
            1nat
        } else {
            0nat
        }
    }
}

/// The key of field `index` of a variant whose fields have the given names.
pub open spec fn key_of(names: Seq<Option<String>>, index: int) -> KeyView {
    match names[index] {
        Some(name) => KeyView::Name(name@),
        None => KeyView::Usize(unnamed_before(names, index)),
    }
}

/// No more fields are unnamed than there are fields.
pub proof fn lemma_unnamed_before(names: Seq<Option<String>>, upto: int)
    requires
        0 <= upto,
    ensures
        unnamed_before(names, upto) <= upto,
    decreases upto,
{
    if upto > 0 {
        lemma_unnamed_before(names, upto - 1);
    }
}

/// The keys of the fields of a variant, in the order of the fields.
pub fn field_keys(names: &Vec<Option<String>>) -> (keys: Vec<RepresentKey>)
    ensures
        keys@.len() == names@.len(),
        forall|i: int| 0 <= i < names@.len() ==> (#[trigger] keys@[i])@ == key_of(names@, i),
{
    let mut counter = IdentCounter::default();
    let mut keys: Vec<RepresentKey> = Vec::new();
    let mut index: usize = 0;
    while index < names.len()
        invariant
            index <= names@.len(),
            keys@.len() == index,
            counter.count() == unnamed_before(names@, index as int),
            forall|i: int| 0 <= i < index ==> (#[trigger] keys@[i])@ == key_of(names@, i),
        decreases names@.len() - index,
    {
        proof {
            lemma_unnamed_before(names@, index as int);
        }
        let key = counter.next_key(&names[index]);
        keys.push(key);
        index += 1;
    }
    keys
}

/// The strings of `given`, each once, in the order in which they first occur.
pub open spec fn first_occurrences(given: Seq<Seq<char>>) -> Seq<Seq<char>>
    decreases given.len(),
{
    if given.len() == 0 {
        Seq::empty()
    } else {
        let before = first_occurrences(given.drop_last());
        if before.contains(given.last()) {
            before
        } else {
            before.push(given.last())
        }
    }
}

/// What the strings of `names` read.
pub open spec fn texts(names: Seq<String>) -> Seq<Seq<char>> {
    names.map_values(|name: String| name@)
}

/// The first occurrences hold every string that was given and no other, and
/// none twice.
pub proof fn lemma_first_occurrences(given: Seq<Seq<char>>)
    ensures
        forall|text: Seq<char>|
            #![trigger first_occurrences(given).contains(text)]
            #![trigger given.contains(text)]
            first_occurrences(given).contains(text) <==> given.contains(text),
        first_occurrences(given).no_duplicates(),
        first_occurrences(given).len() <= given.len(),
    decreases given.len(),
{
    let found = first_occurrences(given);
    if given.len() > 0 {
        let shorter = given.drop_last();
        let before = first_occurrences(shorter);
        lemma_first_occurrences(shorter);
        assert forall|text: Seq<char>| given.contains(text) implies found.contains(text) by {
            let i = choose|i: int| 0 <= i < given.len() && given[i] == text;
            if i < shorter.len() {
                assert(shorter[i] == text);
                assert(shorter.contains(text));
                assert(before.contains(text));
                let j = choose|j: int| 0 <= j < before.len() && before[j] == text;
                assert(found[j] == text);
            } else {
                assert(text == given.last());
                if before.contains(text) {
                    let j = choose|j: int| 0 <= j < before.len() && before[j] == text;
                    assert(found[j] == text);
                } else {
                    assert(found[before.len() as int] == text);
                }
            }
        }
        assert forall|text: Seq<char>| found.contains(text) implies given.contains(text) by {
            let j = choose|j: int| 0 <= j < found.len() && found[j] == text;
            if j < before.len() {
                assert(before[j] == text);
                assert(before.contains(text));
                assert(shorter.contains(text));
                let i = choose|i: int| 0 <= i < shorter.len() && shorter[i] == text;
                assert(given[i] == text);
            } else {
                assert(given[given.len() - 1] == text);
            }
        }
        assert forall|i: int, j: int| 0 <= i < found.len() && 0 <= j < found.len() && i
            != j implies found[i] != found[j] by {
            if i < before.len() && j < before.len() {
            } else if i < before.len() {
                assert(before.contains(before[i]));
            } else if j < before.len() {
                assert(before.contains(before[j]));
            }
        }
    } else {
        assert forall|text: Seq<char>| found.contains(text) implies given.contains(text) by {
            let j = choose|j: int| 0 <= j < found.len() && found[j] == text;
        }
    }
}

/// Whether `names` holds a string that reads as `name` does.
fn holds(names: &Vec<String>, name: &String) -> (found: bool)
    ensures
        found == texts(names@).contains(name@),
{
    let mut index: usize = 0;
    while index < names.len()
        invariant
            index <= names@.len(),
            forall|i: int| 0 <= i < index ==> texts(names@)[i] != name@,
        decreases names@.len() - index,
    {
        if names[index] == *name {
            assert(texts(names@)[index as int] == name@);
            return true;
        }
        index += 1;
    }
    false
}

/// The distinct types among `types`, in the order in which they first occur:
/// the types that a traversal asks its context to handle.
pub fn distinct_types(types: &Vec<String>) -> (bounds: Vec<String>)
    ensures
        texts(bounds@) == first_occurrences(texts(types@)),
{
    let mut bounds: Vec<String> = Vec::new();
    let mut index: usize = 0;
    assert(texts(types@).take(0) =~= Seq::<Seq<char>>::empty());
    assert(texts(bounds@) =~= Seq::<Seq<char>>::empty());
    while index < types.len()
        invariant
            index <= types@.len(),
            texts(bounds@) == first_occurrences(texts(types@).take(index as int)),
        decreases types@.len() - index,
    {
        proof {
            let now = texts(types@).take(index + 1);
            assert(now.drop_last() =~= texts(types@).take(index as int));
            assert(now.last() == types@[index as int]@);
        }
        if !holds(&bounds, &types[index]) {
            let ghost before = texts(bounds@);
            bounds.push(types[index].clone());
            assert(texts(bounds@) =~= before.push(types@[index as int]@));
        }
        index += 1;
    }
    assert(texts(types@).take(index as int) =~= texts(types@));
    bounds
}

/// The types of the fields of the variants that take part in the dispatch of a
/// tagged union, in their order. A variant is given as whether it has a
/// pattern and the types of its fields; a variant without a pattern takes no
/// part.
pub open spec fn types_taking_part(variants: Seq<(bool, Vec<String>)>) -> Seq<String>
    decreases variants.len(),
{
    if variants.len() == 0 {
        Seq::empty()
    } else {
        types_taking_part(variants.drop_last()) + if variants.last().0 {
            variants.last().1@
        } else {
            Seq::empty()
        }
    }
}

/// The types that the decoding of a tagged union asks its context to handle:
/// the distinct types of the fields of the variants that take part, in the
/// order in which they first occur, and none where the options leave the
/// fields' types out.
pub fn alt_bounds(variants: &Vec<(bool, Vec<String>)>, no_bounds: bool) -> (bounds: Vec<String>)
    ensures
        texts(bounds@) == (if no_bounds {
            Seq::<Seq<char>>::empty()
        } else {
            first_occurrences(texts(types_taking_part(variants@)))
        }),
{
    let mut types: Vec<String> = Vec::new();
    if no_bounds {
        assert(texts(types@) =~= Seq::<Seq<char>>::empty());
        return types;
    }
    let mut index: usize = 0;
    assert(variants@.take(0) =~= Seq::<(bool, Vec<String>)>::empty());
    while index < variants.len()
        invariant
            index <= variants@.len(),
            types@ == types_taking_part(variants@.take(index as int)),
        decreases variants@.len() - index,
    {
        let ghost before = types@;
        proof {
            let now = variants@.take(index + 1);
            assert(now.drop_last() =~= variants@.take(index as int));
            assert(now.last() == variants@[index as int]);
        }
        if variants[index].0 {
            let fields = &variants[index].1;
            let mut at: usize = 0;
            while at < fields.len()
                invariant
                    at <= fields@.len(),
                    types@ == before + fields@.take(at as int),
                decreases fields@.len() - at,
            {
                types.push(fields[at].clone());
                assert(types@ =~= before + fields@.take(at + 1));
                at += 1;
            }
            assert(fields@.take(at as int) =~= fields@);
        } else {
            assert(types@ =~= before + Seq::<String>::empty());
        }
        index += 1;
    }
    assert(variants@.take(index as int) =~= variants@);
    distinct_types(&types)
}

/// The options of a tagged union: the type of the tag, what to do with a tag
/// that no variant takes, the error that this may give, and whether the
/// traversal asks its context to handle the types of the fields.
pub struct StructAlt {
    pub ty: String,
    pub default: Option<String>,
    pub err: Option<String>,
    pub no_bounds: bool,
}

/// Why the options of a tagged union were refused.
#[derive(Debug)]
pub enum AltError {
    /// An option of this name is not known.
    Unsupported { name: String },
    /// The type of the tag is not given.
    MissingType,
}

/// Whether an option of this name is known.
pub open spec fn known_option(name: Seq<char>) -> bool {
    name == "ty"@ || name == "default"@ || name == "err"@ || name == "bounds"@
}

/// The value that the last of the first `upto` options gives to `name`, if any
/// of them gives one.
pub open spec fn option_value(items: Seq<(String, String)>, name: Seq<char>, upto: int) -> Option<
    Seq<char>,
>
    decreases upto,
{
    if upto <= 0 {
        None
    } else if items[upto - 1].0@ == name {
        Some(items[upto - 1].1@)
    } else {
        option_value(items, name, upto - 1)
    }
}

/// The first of the options whose name is not known, if there is one.
pub open spec fn first_unknown(items: Seq<(String, String)>, from: int) -> Option<int>
    decreases items.len() - from,
{
    if from < 0 || from >= items.len() {
        None
    } else if !known_option(items[from].0@) {
        Some(from)
    } else {
        first_unknown(items, from + 1)
    }
}

/// What an optional string reads.
pub open spec fn text_of(value: Option<String>) -> Option<Seq<char>> {
    match value {
        Some(text) => Some(text@),
        None => None,
    }
}

impl StructAlt {
    /// Whether these are the options that `items` give: each takes the value that
    /// the last option of its name gives, and the fields' types are left out
    /// exactly where the option `bounds` is given as `false`.
    pub open spec fn reads(self, items: Seq<(String, String)>) -> bool {
        &&& Some(self.ty@) == option_value(items, "ty"@, items.len() as int)
        &&& text_of(self.default) == option_value(items, "default"@, items.len() as int)
        &&& text_of(self.err) == option_value(items, "err"@, items.len() as int)
        &&& self.no_bounds == (option_value(items, "bounds"@, items.len() as int) == Some(
            "false"@,
        ))
    }

    /// The options that the pairs of name and value in `items` give. A name that
    /// is not known is refused, the first of them by its name; so are options
    /// that do not give the type of the tag.
    pub fn new(items: Vec<(String, String)>) -> (made: Result<Self, AltError>)
        ensures
            match made {
                Ok(alt) => {
                    &&& first_unknown(items@, 0) is None
                    &&& alt.reads(items@)
                },
                Err(AltError::Unsupported { name }) => {
                    &&& first_unknown(items@, 0) matches Some(at)
                    &&& name@ == items@[at].0@
                },
                Err(AltError::MissingType) => {
                    &&& first_unknown(items@, 0) is None
                    &&& option_value(items@, "ty"@, items@.len() as int) is None
                },
            },
    {
        let mut ty: Option<String> = None;
        let mut default: Option<String> = None;
        let mut err: Option<String> = None;
        let mut no_bounds = false;
        let name_ty = "ty".to_owned();
        let name_default = "default".to_owned();
        let name_err = "err".to_owned();
        let name_bounds = "bounds".to_owned();
        let value_false = "false".to_owned();
        let mut index: usize = 0;
        while index < items.len()
            invariant
                index <= items@.len(),
                name_ty@ == "ty"@,
                name_default@ == "default"@,
                name_err@ == "err"@,
                name_bounds@ == "bounds"@,
                value_false@ == "false"@,
                first_unknown(items@, 0) == first_unknown(items@, index as int),
                text_of(ty) == option_value(items@, "ty"@, index as int),
                text_of(default) == option_value(items@, "default"@, index as int),
                text_of(err) == option_value(items@, "err"@, index as int),
                no_bounds == (option_value(items@, "bounds"@, index as int) == Some("false"@)),
            decreases items@.len() - index,
        {
            proof {
                reveal_strlit("ty");
                reveal_strlit("default");
                reveal_strlit("err");
                reveal_strlit("bounds");
                assert("ty"@.len() == 2);
                assert("default"@.len() == 7);
                assert("err"@.len() == 3);
                assert("bounds"@.len() == 6);
            }
            let name = &items[index].0;
            let value = &items[index].1;
            if *name == name_ty {
                ty = Some(value.clone());
            } else if *name == name_default {
                default = Some(value.clone());
            } else if *name == name_err {
                err = Some(value.clone());
            } else if *name == name_bounds {
                no_bounds = *value == value_false;
            } else {
                return Err(AltError::Unsupported { name: name.clone() });
            }
            index += 1;
        }
        match ty {
            Some(ty) => Ok(StructAlt { ty, default, err, no_bounds }),
            None => Err(AltError::MissingType),
        }
    }
}

} // verus!
