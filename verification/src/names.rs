//! Sets of names, and numbers by name.

use vstd::prelude::*;

verus! {

/// A set of names: hashbrown's `HashSet` with foldhash's `FixedState`, which
/// hashes alike in every process.
#[verifier::external_body]
pub struct NameSet {
    set: hashbrown::HashSet<Vec<u8>, foldhash::fast::FixedState>,
}

/// The names a set holds.
pub uninterp spec fn names_in(set: NameSet) -> Set<Seq<u8>>;

/// An empty set: hashbrown's `HashSet::with_hasher`.
#[verifier::external_body]
pub(crate) fn no_names(seed: u64) -> (r: NameSet)
    ensures
        names_in(r) == Set::<Seq<u8>>::empty(),
{
    NameSet {
        set: hashbrown::HashSet::with_hasher(foldhash::fast::FixedState::with_seed(seed)),
    }
}

/// Adds a name with hashbrown's `HashSet::insert`, and says whether it was
/// not there before.
#[verifier::external_body]
pub(crate) fn add_name(names: &mut NameSet, name: Vec<u8>) -> (r: bool)
    ensures
        names_in(*final(names)) == names_in(*old(names)).insert(name@),
        r == !names_in(*old(names)).contains(name@),
{
    names.set.insert(name)
}

/// Whether a name is there, as hashbrown's `HashSet::contains` says.
#[verifier::external_body]
pub(crate) fn has_name(names: &NameSet, name: &[u8]) -> (r: bool)
    ensures
        r == names_in(*names).contains(name@),
{
    names.set.contains(name)
}

/// Numbers by text: hashbrown's `HashMap` with foldhash's `FixedState`.
#[verifier::external_body]
pub struct TextIndex {
    map: hashbrown::HashMap<Vec<u8>, u32, foldhash::fast::FixedState>,
}

/// The number of each text of an index.
pub uninterp spec fn numbers_in(index: TextIndex) -> Map<Seq<u8>, u32>;

/// An empty index: hashbrown's `HashMap::with_hasher`.
#[verifier::external_body]
pub(crate) fn no_texts(seed: u64) -> (r: TextIndex)
    ensures
        (numbers_in(r) == Map::<Seq<u8>, u32>::empty()),
{
    TextIndex {
        map: hashbrown::HashMap::with_hasher(foldhash::fast::FixedState::with_seed(seed)),
    }
}

/// Gives a text a number with hashbrown's `HashMap::insert`, in place of the
/// one it had.
#[verifier::external_body]
pub(crate) fn add_text(index: &mut TextIndex, text: Vec<u8>, number: u32)
    ensures
        numbers_in(*final(index)) == numbers_in(*old(index)).insert(text@, number),
{
    index.map.insert(text, number);
}

/// The number of a text, as hashbrown's `HashMap::get` gives it.
#[verifier::external_body]
pub(crate) fn find_text(index: &TextIndex, text: &[u8]) -> (r: Option<u32>)
    ensures
        r == (if numbers_in(*index).dom().contains(text@) {
            Some(numbers_in(*index)[text@])
        } else {
            None
        }),
{
    index.map.get(text).copied()
}

} // verus!
