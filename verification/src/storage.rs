//! The concurrent map that holds finished results, by task identifier.
use crate::cache::{is_fresh, NetworkResult};
#[allow(unused_imports)]
use crate::cache::fresh_results;
use dashmap::DashMap;
use vstd::prelude::*;

verus! {

/// `dashmap::DashMap`, the map of finished results. Its methods change it behind a shared
/// reference; what changes it here takes it by a unique one, so that nobody else can
/// change it meanwhile or hold a reference into it.
#[verifier::external_type_specification]
#[verifier::external_body]
#[verifier::reject_recursive_types(K)]
#[verifier::reject_recursive_types(V)]
#[verifier::reject_recursive_types(S)]
pub struct ExDashMap<K, V, S>(DashMap<K, V, S>);

/// The results in a map, each under the text of its key.
pub uninterp spec fn stored(storage: DashMap<String, NetworkResult>) -> Map<
    Seq<char>,
    NetworkResult,
>;

/// `listing` holds the values of `results`, the value of `keys[i]` at `i`, and no
/// key is left out or named twice.
pub open spec fn lists_by(
    results: Map<Seq<char>, NetworkResult>,
    keys: Seq<Seq<char>>,
    listing: Seq<NetworkResult>,
) -> bool {
    &&& keys.len() == listing.len()
    &&& keys.no_duplicates()
    &&& forall|i: int|
        0 <= i < keys.len() ==> results.contains_key(#[trigger] keys[i]) && results[keys[i]]
            == listing[i]
    &&& forall|key: Seq<char>| #[trigger]
        results.contains_key(key) ==> keys.contains(key)
}

/// `listing` holds the values of `results`, one for each key, in some order.
pub open spec fn lists(
    results: Map<Seq<char>, NetworkResult>,
    listing: Seq<NetworkResult>,
) -> bool {
    exists|keys: Seq<Seq<char>>| #[trigger] lists_by(results, keys, listing)
}

/// `DashMap::new` makes a map without entries.
#[verifier::external_body]
pub(crate) fn new_storage() -> (storage: DashMap<String, NetworkResult>)
    ensures
        (stored(storage) == Map::<Seq<char>, NetworkResult>::empty()),
{
    DashMap::new()
}

/// `DashMap::insert` puts the value under the key, in place of the one that was there.
/// `String` keys are the same where their texts are.
#[verifier::external_body]
pub(crate) fn insert_result(
    storage: &mut DashMap<String, NetworkResult>,
    key: String,
    result: NetworkResult,
)
    ensures
        stored(*final(storage)) == stored(*old(storage)).insert(key@, result),
{
    storage.insert(key, result);
}

/// `DashMap::remove` takes the entry of the key out, where there is one, and touches
/// no other.
#[verifier::external_body]
pub(crate) fn remove_result(storage: &mut DashMap<String, NetworkResult>, key: &String)
    ensures
        stored(*final(storage)) == stored(*old(storage)).remove(key@),
{
    storage.remove(key);
}

/// `DashMap::retain` keeps the entries that the predicate accepts, unchanged, and drops
/// the others. The predicate is [`is_fresh`], which leaves the value as it is.
#[verifier::external_body]
pub(crate) fn retain_fresh(storage: &mut DashMap<String, NetworkResult>, now: u64, max_age: u64)
    ensures
        stored(*final(storage)) == fresh_results(stored(*old(storage)), now, max_age),
{
    storage.retain(|_, result| is_fresh(result, now, max_age));
}

/// `DashMap::iter` walks over all entries, each once, in an order that the hasher of the
/// map decides; the value of each is copied out.
#[verifier::external_body]
pub(crate) fn list_results(storage: &DashMap<String, NetworkResult>) -> (listing: Vec<
    NetworkResult,
>)
    ensures
        lists(stored(*storage), listing@),
{
    storage.iter().map(|entry| entry.value().clone()).collect()
}

} // verus!
