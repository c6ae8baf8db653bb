//! The hash index from logical path to asset slot.
use vstd::prelude::*;

verus! {

/// A hash map from logical path to the slot of its asset.
#[verifier::external_body]
pub struct PathIndex {
    map: hashbrown::HashMap<String, usize>,
}

/// The entries of an index: each logical path it holds, with its slot.
pub uninterp spec fn index_entries(ix: PathIndex) -> Map<Seq<char>, usize>;

/// The entries of an empty index.
pub open spec fn no_entries() -> Map<Seq<char>, usize> {
    Map::empty()
}

/// Relies on `hashbrown::HashMap::new`: an empty map.
#[verifier::external_body]
pub(crate) fn index_new() -> (r: PathIndex)
    ensures
        index_entries(r) == no_entries(),
{
    PathIndex { map: hashbrown::HashMap::new() }
}

/// Relies on `hashbrown::HashMap::insert`: afterwards `key` maps to `slot`, and
/// every other key keeps its slot. `String` compares and hashes by its characters.
#[verifier::external_body]
pub(crate) fn index_insert(ix: &mut PathIndex, key: String, slot: usize)
    ensures
        index_entries(*final(ix)) == index_entries(*old(ix)).insert(key@, slot),
{
    ix.map.insert(key, slot);
}

/// Relies on `hashbrown::HashMap::get`: the slot that `key` maps to, if any.
#[verifier::external_body]
pub(crate) fn index_get(ix: &PathIndex, key: &str) -> (r: Option<usize>)
    ensures
        r == (if index_entries(*ix).contains_key(key@) {
            Some(index_entries(*ix)[key@])
        } else {
            None::<usize>
        }),
{
    ix.map.get(key).copied()
}

} // verus!
