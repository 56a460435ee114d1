//! The exact-match index of literal routes, kept in a radix trie.
//!
//! The trie is the `radix_trie` crate's. Nothing here is proved of it: the
//! functions below say what its `new`, `insert` and `get` do, as that
//! crate's source shows, and the router's proofs rest on those statements.

use vstd::prelude::*;
use radix_trie::Trie;

verus! {

/// `radix_trie::Trie`, of which nothing is known here but what the
/// functions below say.
#[verifier::external_type_specification]
#[verifier::external_body]
#[verifier::reject_recursive_types(K)]
#[verifier::reject_recursive_types(V)]
pub struct ExTrie<K, V>(radix_trie::Trie<K, V>);

/// The entries of an index: which list of numbers stands under which key.
pub uninterp spec fn trie_entries(index: Trie<String, Vec<usize>>) -> Map<Seq<char>, Seq<usize>>;

/// `Trie::new`: an index without entries.
#[verifier::external_body]
pub(crate) fn trie_new() -> (index: Trie<String, Vec<usize>>)
    ensures
        forall|key: Seq<char>| !trie_entries(index).contains_key(key),
{
    Trie::new()
}

/// `Trie::insert`: puts `value` under `key`, in place of what stood there,
/// and leaves every other entry as it was. Returns what stood under `key`
/// before, if anything did.
#[verifier::external_body]
pub(crate) fn trie_insert(
    index: &mut Trie<String, Vec<usize>>,
    key: String,
    value: Vec<usize>,
) -> (previous: Option<Vec<usize>>)
    ensures
        trie_entries(*final(index)) == trie_entries(*old(index)).insert(key@, value@),
        list_view(previous) == trie_lookup(trie_entries(*old(index)), key@),
{
    index.insert(key, value)
}

/// `Trie::get`: a copy of the list that stands under exactly this key, if
/// any does.
#[verifier::external_body]
pub(crate) fn trie_get(index: &Trie<String, Vec<usize>>, key: &str) -> (found: Option<Vec<usize>>)
    ensures
        list_view(found) == trie_lookup(trie_entries(*index), key@),
{
    index.get(key).cloned()
}

/// What stands under `key` in `entries`, if anything does.
pub open spec fn trie_lookup(entries: Map<Seq<char>, Seq<usize>>, key: Seq<char>) -> Option<
    Seq<usize>,
> {
    if entries.contains_key(key) {
        Some(entries[key])
    } else {
        None
    }
}

/// The numbers of a list that may be absent.
pub open spec fn list_view(list: Option<Vec<usize>>) -> Option<Seq<usize>> {
    match list {
        Some(v) => Some(v@),
        None => None,
    }
}

} // verus!
