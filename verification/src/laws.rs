//! What holds of the cache across calls.
use crate::cache::{
    fresh, fresh_results, matching, of_service, popped, popped_from, unacknowledged, AddInCache,
    NetworkResult, NetworkTask, PushResult,
};
use crate::http_engine::{tells_of_task, RequestOutcome};
use crate::queue::{
    all_offered, all_offered_after, offered, offered_after, offers_keep_the_bound,
};
use crate::storage::{lists, lists_by};
use crate::utils::status_code;
use vstd::prelude::*;

verus! {

/// The results of a service.
pub open spec fn service_results(
    results: Map<Seq<char>, NetworkResult>,
    service: Option<Seq<char>>,
) -> Map<Seq<char>, NetworkResult> {
    Map::new(
        |key: Seq<char>| results.contains_key(key) && of_service(results[key], service),
        |key: Seq<char>| results[key],
    )
}

/// The matches of a listing are a listing of the results of the service.
proof fn lemma_matching_lists(
    results: Map<Seq<char>, NetworkResult>,
    keys: Seq<Seq<char>>,
    listing: Seq<NetworkResult>,
    service: Option<Seq<char>>,
) -> (found: Seq<Seq<char>>)
    requires
        lists_by(results, keys, listing),
    ensures
        lists_by(service_results(results, service), found, matching(listing, service)),
        forall|key: Seq<char>| #[trigger] found.contains(key) ==> keys.contains(key),
    decreases keys.len(),
{
    reveal(Seq::filter);
    if keys.len() == 0 {
        assert forall|key: Seq<char>| service_results(results, service).contains_key(
            key,
        ) implies false by {
            assert(results.contains_key(key));
            assert(keys.contains(key));
        }
        keys
    } else {
        let key = keys.last();
        let rest = results.remove(key);
        let fewer = keys.drop_last();
        assert(results.contains_key(keys[keys.len() - 1]));
        assert(!fewer.contains(key)) by {
            if fewer.contains(key) {
                let i = fewer.index_of(key);
                assert(keys[i] == keys[keys.len() - 1]);
            }
        }
        assert(lists_by(rest, fewer, listing.drop_last())) by {
            assert forall|i: int| 0 <= i < fewer.len() implies rest.contains_key(
                #[trigger] fewer[i],
            ) && rest[fewer[i]] == listing.drop_last()[i] by {
                assert(fewer[i] == keys[i]);
                assert(fewer.contains(fewer[i]));
            }
            assert forall|k: Seq<char>| #[trigger] rest.contains_key(k) implies fewer.contains(
                k,
            ) by {
                assert(results.contains_key(k));
                let i = keys.index_of(k);
                assert(fewer[i] == k);
            }
        }
        let found = lemma_matching_lists(rest, fewer, listing.drop_last(), service);
        let all = service_results(results, service);
        let some = service_results(rest, service);
        assert forall|k: Seq<char>| fewer.contains(k) implies keys.contains(k) by {
            assert(keys[fewer.index_of(k)] == k);
        }
        if of_service(listing.last(), service) {
            let more = found.push(key);
            assert(!found.contains(key));
            assert(more.no_duplicates()) by {
                assert forall|i: int, j: int| 0 <= i < j < more.len() implies more[i]
                    != more[j] by {
                    if j == found.len() {
                        assert(found.contains(found[i]));
                    }
                }
            }
            assert forall|i: int| 0 <= i < more.len() implies all.contains_key(#[trigger] more[i])
                && all[more[i]] == matching(listing, service)[i] by {
                if i < found.len() {
                    assert(some.contains_key(found[i]));
                }
            }
            assert forall|k: Seq<char>| #[trigger] all.contains_key(k) implies more.contains(k) by {
                if k == key {
                    assert(more[found.len() as int] == k);
                } else {
                    assert(some.contains_key(k));
                    assert(more[found.index_of(k)] == k);
                }
            }
            assert forall|k: Seq<char>| #[trigger] more.contains(k) implies keys.contains(k) by {
                let i = more.index_of(k);
                if i < found.len() {
                    assert(found.contains(found[i]));
                } else {
                    assert(keys[keys.len() - 1] == k);
                }
            }
            more
        } else {
            assert(all =~= some);
            found
        }
    }
}

/// A reader without a limit gets the results of the service, each once and no others.
pub proof fn pop_without_limit_gives_every_result(
    results: Map<Seq<char>, NetworkResult>,
    service: Option<Seq<char>>,
    extracted: Seq<NetworkResult>,
)
    requires
        popped(results, service, 0, extracted),
    ensures
        lists(service_results(results, service), extracted),
{
    let listing = choose|listing: Seq<NetworkResult>| #[trigger]
        popped_from(results, listing, service, 0, extracted);
    let keys = choose|keys: Seq<Seq<char>>| #[trigger] lists_by(results, keys, listing);
    let found = lemma_matching_lists(results, keys, listing, service);
    assert(lists_by(service_results(results, service), found, extracted));
}

/// A listing is as long as there are keys.
pub proof fn listing_has_one_entry_for_each_key(
    results: Map<Seq<char>, NetworkResult>,
    listing: Seq<NetworkResult>,
)
    requires
        lists(results, listing),
    ensures
        results.dom().finite(),
        listing.len() == results.dom().len(),
{
    let keys = choose|keys: Seq<Seq<char>>| #[trigger] lists_by(results, keys, listing);
    keys.unique_seq_to_set();
    assert(keys.to_set() =~= results.dom()) by {
        assert forall|key: Seq<char>| keys.to_set().contains(key) implies results.dom().contains(
            key,
        ) by {
            let i = keys.index_of(key);
            assert(results.contains_key(keys[i]));
        }
        assert forall|key: Seq<char>| results.dom().contains(key) implies keys.to_set().contains(
            key,
        ) by {
            assert(results.contains_key(key));
        }
    }
}

/// A reader gets as many results as there are of the service, or as the limit allows
/// where it allows fewer, and all of them are of the service and in the cache.
pub proof fn pop_gives_as_many_as_the_limit_allows(
    results: Map<Seq<char>, NetworkResult>,
    service: Option<Seq<char>>,
    limit: usize,
    extracted: Seq<NetworkResult>,
)
    requires
        popped(results, service, limit, extracted),
    ensures
        service_results(results, service).dom().finite(),
        extracted.len() == if 0 < limit < service_results(results, service).dom().len() {
            limit as nat
        } else {
            service_results(results, service).dom().len()
        },
        forall|i: int|
            0 <= i < extracted.len() ==> of_service(#[trigger] extracted[i], service)
                && results.contains_value(extracted[i]),
{
    let listing = choose|listing: Seq<NetworkResult>| #[trigger]
        popped_from(results, listing, service, limit, extracted);
    let all = matching(listing, service);
    let mine = service_results(results, service);
    assert(popped_from(results, listing, service, 0, all));
    pop_without_limit_gives_every_result(results, service, all);
    listing_has_one_entry_for_each_key(mine, all);
    let keys = choose|keys: Seq<Seq<char>>| #[trigger] lists_by(mine, keys, all);
    assert forall|i: int| 0 <= i < extracted.len() implies of_service(
        #[trigger] extracted[i],
        service,
    ) && results.contains_value(extracted[i]) by {
        assert(extracted[i] == all[i]);
        assert(mine.contains_key(keys[i]));
        assert(results.dom().contains(keys[i]));
    }
}

/// Two listings of the same results differ in their order alone.
proof fn lemma_listings_agree(
    results: Map<Seq<char>, NetworkResult>,
    keys: Seq<Seq<char>>,
    first: Seq<NetworkResult>,
    second_keys: Seq<Seq<char>>,
    second: Seq<NetworkResult>,
)
    requires
        lists_by(results, keys, first),
        lists_by(results, second_keys, second),
    ensures
        first.to_multiset() == second.to_multiset(),
    decreases keys.len(),
{
    if keys.len() == 0 {
        if second_keys.len() > 0 {
            assert(results.contains_key(second_keys[0]));
            assert(keys.contains(second_keys[0]));
        }
        assert(first =~= second);
    } else {
        let key = keys.last();
        assert(results.contains_key(keys[keys.len() - 1]));
        let at = second_keys.index_of(key);
        let rest = results.remove(key);
        let a = keys.drop_last();
        let b = second_keys.remove(at);
        lemma_listing_without(results, keys, first, keys.len() - 1);
        lemma_listing_without(results, second_keys, second, at);
        assert(keys.remove(keys.len() - 1) =~= a);
        assert(first.remove(first.len() - 1) =~= first.drop_last());
        lemma_listings_agree(rest, a, first.drop_last(), b, second.remove(at));
        first.drop_last().to_multiset_ensures();
        second.remove(at).to_multiset_ensures();
        second.to_multiset_ensures();
        assert(first.drop_last().push(first.last()) =~= first);
        vstd::seq_lib::to_multiset_insert(second.remove(at), at, second[at]);
        assert(second.remove(at).insert(at, second[at]) =~= second);
        assert(first.last() == second[at]);
    }
}

/// A listing without one of its entries lists the results without that one.
proof fn lemma_listing_without(
    results: Map<Seq<char>, NetworkResult>,
    keys: Seq<Seq<char>>,
    listing: Seq<NetworkResult>,
    at: int,
)
    requires
        lists_by(results, keys, listing),
        0 <= at < keys.len(),
    ensures
        lists_by(results.remove(keys[at]), keys.remove(at), listing.remove(at)),
{
    let rest = results.remove(keys[at]);
    let fewer = keys.remove(at);
    let shorter = listing.remove(at);
    assert forall|i: int| 0 <= i < fewer.len() implies rest.contains_key(#[trigger] fewer[i])
        && rest[fewer[i]] == shorter[i] by {
        let j = if i < at {
            i
        } else {
            i + 1
        };
        assert(fewer[i] == keys[j]);
        assert(shorter[i] == listing[j]);
    }
    assert forall|k: Seq<char>| #[trigger] rest.contains_key(k) implies fewer.contains(k) by {
        assert(results.contains_key(k));
        let j = keys.index_of(k);
        let i = if j < at {
            j
        } else {
            j - 1
        };
        assert(fewer[i] == k);
    }
}

/// Reading does not consume: whoever reads without a limit again, before anything else
/// happens, gets the same results again, if in another order.
pub proof fn pops_agree(
    results: Map<Seq<char>, NetworkResult>,
    service: Option<Seq<char>>,
    first: Seq<NetworkResult>,
    second: Seq<NetworkResult>,
)
    requires
        popped(results, service, 0, first),
        popped(results, service, 0, second),
    ensures
        first.to_multiset() == second.to_multiset(),
{
    pop_without_limit_gives_every_result(results, service, first);
    pop_without_limit_gives_every_result(results, service, second);
    let mine = service_results(results, service);
    let keys = choose|keys: Seq<Seq<char>>| #[trigger] lists_by(mine, keys, first);
    let others = choose|keys: Seq<Seq<char>>| #[trigger] lists_by(mine, keys, second);
    lemma_listings_agree(mine, keys, first, others, second);
}

/// What is kept of a task that is over is what a reader of its service, or of all
/// services, gets.
pub proof fn finished_task_is_delivered(
    before: Map<Seq<char>, NetworkResult>,
    task: NetworkTask,
    outcome: RequestOutcome,
    timestamp: u64,
    result: NetworkResult,
    service: Option<Seq<char>>,
    extracted: Seq<NetworkResult>,
)
    requires
        tells_of_task(task, outcome, timestamp, result),
        service is None || service == Some(task.service_name@),
        popped(before.insert(task.task_id@, result), service, 0, extracted),
    ensures
        extracted.contains(result),
{
    result_is_delivered(
        before.insert(task.task_id@, result),
        task.task_id@,
        service,
        extracted,
    );
}

/// A reader without a limit gets every result of the service that is in the cache.
pub proof fn result_is_delivered(
    results: Map<Seq<char>, NetworkResult>,
    key: Seq<char>,
    service: Option<Seq<char>>,
    extracted: Seq<NetworkResult>,
)
    requires
        results.contains_key(key),
        of_service(results[key], service),
        popped(results, service, 0, extracted),
    ensures
        extracted.contains(results[key]),
{
    let mine = service_results(results, service);
    pop_without_limit_gives_every_result(results, service, extracted);
    let keys = choose|keys: Seq<Seq<char>>| #[trigger] lists_by(mine, keys, extracted);
    assert(mine.contains_key(key));
    let i = keys.index_of(key);
    assert(mine.contains_key(keys[i]));
    assert(extracted[i] == results[key]);
}

/// Something that happens to the results.
pub enum Change {
    /// What came of a task is kept under this identifier.
    Kept { key: Seq<char>, result: NetworkResult },
    /// The host confirms the results with these identifiers.
    Confirmed { task_ids: Seq<Seq<char>> },
    /// Results that are too old at this time are cleared.
    Cleared { now: u64 },
}

/// The results after a change.
pub open spec fn changed(
    results: Map<Seq<char>, NetworkResult>,
    change: Change,
    max_age: u64,
) -> Map<Seq<char>, NetworkResult> {
    match change {
        Change::Kept { key, result } => results.insert(key, result),
        Change::Confirmed { task_ids } => unacknowledged(results, task_ids),
        Change::Cleared { now } => fresh_results(results, now, max_age),
    }
}

/// The results after changes, one after the other.
pub open spec fn all_changed(
    results: Map<Seq<char>, NetworkResult>,
    changes: Seq<Change>,
    max_age: u64,
) -> Map<Seq<char>, NetworkResult>
    decreases changes.len(),
{
    if changes.len() == 0 {
        results
    } else {
        changed(all_changed(results, changes.drop_last(), max_age), changes.last(), max_age)
    }
}

/// Whether a change leaves a result where it is: it does not confirm it, replace it or
/// find it too old.
pub open spec fn leaves(
    change: Change,
    key: Seq<char>,
    result: NetworkResult,
    max_age: u64,
) -> bool {
    match change {
        Change::Kept { key: other, .. } => other != key,
        Change::Confirmed { task_ids } => !task_ids.contains(key),
        Change::Cleared { now } => fresh(result, now, max_age),
    }
}

/// A result is delivered to every reader of its service, or of all services, for as long
/// as it is not confirmed, replaced or too old, whatever else happens.
pub proof fn result_is_delivered_until_confirmed(
    results: Map<Seq<char>, NetworkResult>,
    key: Seq<char>,
    changes: Seq<Change>,
    max_age: u64,
    service: Option<Seq<char>>,
    extracted: Seq<NetworkResult>,
)
    requires
        results.contains_key(key),
        of_service(results[key], service),
        forall|i: int|
            0 <= i < changes.len() ==> leaves(
                #[trigger] changes[i],
                key,
                results[key],
                max_age,
            ),
        popped(all_changed(results, changes, max_age), service, 0, extracted),
    ensures
        extracted.contains(results[key]),
{
    lemma_result_stays(results, key, changes, max_age);
    result_is_delivered(all_changed(results, changes, max_age), key, service, extracted);
}

proof fn lemma_result_stays(
    results: Map<Seq<char>, NetworkResult>,
    key: Seq<char>,
    changes: Seq<Change>,
    max_age: u64,
)
    requires
        results.contains_key(key),
        forall|i: int|
            0 <= i < changes.len() ==> leaves(
                #[trigger] changes[i],
                key,
                results[key],
                max_age,
            ),
    ensures
        all_changed(results, changes, max_age).contains_key(key),
        all_changed(results, changes, max_age)[key] == results[key],
    decreases changes.len(),
{
    if changes.len() > 0 {
        let fewer = changes.drop_last();
        assert forall|i: int| 0 <= i < fewer.len() implies leaves(
            #[trigger] fewer[i],
            key,
            results[key],
            max_age,
        ) by {
            assert(fewer[i] == changes[i]);
        }
        lemma_result_stays(results, key, fewer, max_age);
        assert(leaves(changes[changes.len() - 1], key, results[key], max_age));
    }
}

/// Every result is kept under the identifier of its task.
pub open spec fn keyed_by_task(results: Map<Seq<char>, NetworkResult>) -> bool {
    forall|key: Seq<char>| #[trigger]
        results.contains_key(key) ==> results[key].task_id@ == key
}

/// Results that come of tasks are kept under the identifiers of these tasks, whatever
/// happens to them.
pub proof fn results_stay_keyed_by_task(
    results: Map<Seq<char>, NetworkResult>,
    changes: Seq<Change>,
    max_age: u64,
)
    requires
        keyed_by_task(results),
        forall|i: int|
            0 <= i < changes.len() ==> (#[trigger] changes[i] matches Change::Kept { key, result }
                ==> exists|task: NetworkTask, outcome: RequestOutcome, timestamp: u64| #[trigger]
                tells_of_task(task, outcome, timestamp, result) && task.task_id@ == key),
    ensures
        keyed_by_task(all_changed(results, changes, max_age)),
    decreases changes.len(),
{
    if changes.len() > 0 {
        let fewer = changes.drop_last();
        assert forall|i: int| 0 <= i < fewer.len() implies (
        #[trigger] fewer[i] matches Change::Kept { key, result } ==> exists|
            task: NetworkTask,
            outcome: RequestOutcome,
            timestamp: u64,
        | #[trigger]
            tells_of_task(task, outcome, timestamp, result) && task.task_id@ == key) by {
            assert(fewer[i] == changes[i]);
        }
        results_stay_keyed_by_task(results, fewer, max_age);
        let last = changes[changes.len() - 1];
        assert(last == changes.last());
    }
}

/// What is confirmed is not delivered again.
pub proof fn confirmed_results_are_gone(
    results: Map<Seq<char>, NetworkResult>,
    task_ids: Seq<Seq<char>>,
    service: Option<Seq<char>>,
    limit: usize,
    extracted: Seq<NetworkResult>,
)
    requires
        keyed_by_task(results),
        popped(unacknowledged(results, task_ids), service, limit, extracted),
    ensures
        forall|i: int|
            0 <= i < extracted.len() ==> !task_ids.contains((#[trigger] extracted[i]).task_id@),
{
    let left = unacknowledged(results, task_ids);
    pop_gives_as_many_as_the_limit_allows(left, service, limit, extracted);
    assert forall|i: int| 0 <= i < extracted.len() implies !task_ids.contains(
        (#[trigger] extracted[i]).task_id@,
    ) by {
        assert(left.contains_value(extracted[i]));
        let key = choose|key: Seq<char>| #[trigger]
            left.dom().contains(key) && left[key] == extracted[i];
        assert(results.contains_key(key));
    }
}

/// A result that was confirmed does not come back, unless its task is done once more.
pub proof fn confirmed_result_stays_away(
    results: Map<Seq<char>, NetworkResult>,
    task_ids: Seq<Seq<char>>,
    key: Seq<char>,
    changes: Seq<Change>,
    max_age: u64,
)
    requires
        task_ids.contains(key),
        forall|i: int|
            0 <= i < changes.len() ==> (#[trigger] changes[i] matches Change::Kept {
                key: other,
                ..
            } ==> other != key),
    ensures
        !all_changed(unacknowledged(results, task_ids), changes, max_age).contains_key(key),
    decreases changes.len(),
{
    if changes.len() > 0 {
        let fewer = changes.drop_last();
        assert forall|i: int| 0 <= i < fewer.len() implies (
        #[trigger] fewer[i] matches Change::Kept { key: other, .. } ==> other != key) by {
            assert(fewer[i] == changes[i]);
        }
        confirmed_result_stays_away(results, task_ids, key, fewer, max_age);
        assert(changes[changes.len() - 1] == changes.last());
    }
}

/// A reader gets nothing once everything of the service is confirmed.
pub proof fn nothing_is_left_when_all_is_confirmed(
    results: Map<Seq<char>, NetworkResult>,
    task_ids: Seq<Seq<char>>,
    service: Option<Seq<char>>,
    limit: usize,
    extracted: Seq<NetworkResult>,
)
    requires
        forall|key: Seq<char>| #[trigger]
            service_results(results, service).contains_key(key) ==> task_ids.contains(key),
        popped(unacknowledged(results, task_ids), service, limit, extracted),
    ensures
        extracted.len() == 0,
{
    let left = unacknowledged(results, task_ids);
    pop_gives_as_many_as_the_limit_allows(left, service, limit, extracted);
    if extracted.len() > 0 {
        assert(of_service(extracted[0], service));
        let key = choose|key: Seq<char>| #[trigger]
            left.dom().contains(key) && left[key] == extracted[0];
        assert(service_results(results, service).contains_key(key));
    }
}

/// Confirming twice is confirming once, confirming in two lists is confirming in one, and
/// an identifier without a result does nothing.
pub proof fn confirming_again_changes_nothing(
    results: Map<Seq<char>, NetworkResult>,
    first: Seq<Seq<char>>,
    second: Seq<Seq<char>>,
)
    ensures
        unacknowledged(unacknowledged(results, first), first) == unacknowledged(results, first),
        unacknowledged(unacknowledged(results, first), second) == unacknowledged(
            results,
            first + second,
        ),
        (forall|i: int| 0 <= i < first.len() ==> !results.contains_key(#[trigger] first[i]))
            ==> unacknowledged(results, first) == results,
{
    let once = unacknowledged(results, first);
    assert(unacknowledged(once, first) =~= once);
    assert forall|key: Seq<char>| (first + second).contains(key) <==> first.contains(key)
        || second.contains(key) by {
        if first.contains(key) {
            assert((first + second)[first.index_of(key)] == key);
        }
        if second.contains(key) {
            assert((first + second)[first.len() + second.index_of(key)] == key);
        }
        if (first + second).contains(key) {
            let i = (first + second).index_of(key);
            if i < first.len() {
                assert(first[i] == key);
            } else {
                assert(second[i - first.len()] == key);
            }
        }
    }
    assert(unacknowledged(once, second) =~= unacknowledged(results, first + second));
    if forall|i: int| 0 <= i < first.len() ==> !results.contains_key(#[trigger] first[i]) {
        assert forall|key: Seq<char>| results.contains_key(key) implies !first.contains(key) by {
            if first.contains(key) {
                assert(results.contains_key(first[first.index_of(key)]));
            }
        }
        assert(once =~= results);
    }
}

/// What an earlier look at the clock clears, a later one would have cleared too; and it
/// does not matter whether results are confirmed before or after old ones are cleared.
pub proof fn clearing_is_a_matter_of_the_latest_time(
    results: Map<Seq<char>, NetworkResult>,
    earlier: u64,
    later: u64,
    max_age: u64,
    task_ids: Seq<Seq<char>>,
)
    requires
        earlier <= later,
    ensures
        fresh_results(fresh_results(results, earlier, max_age), later, max_age) == fresh_results(
            results,
            later,
            max_age,
        ),
        fresh_results(unacknowledged(results, task_ids), later, max_age) == unacknowledged(
            fresh_results(results, later, max_age),
            task_ids,
        ),
{
    assert(fresh_results(fresh_results(results, earlier, max_age), later, max_age)
        =~= fresh_results(results, later, max_age));
    assert(fresh_results(unacknowledged(results, task_ids), later, max_age) =~= unacknowledged(
        fresh_results(results, later, max_age),
        task_ids,
    ));
}

/// `part` is made of entries of `whole`, in their order; `places[i]` is the place of the
/// entry at `i`.
pub open spec fn in_order(
    part: Seq<NetworkTask>,
    whole: Seq<NetworkTask>,
    places: Seq<int>,
) -> bool {
    &&& places.len() == part.len()
    &&& forall|i: int|
        0 <= i < part.len() ==> 0 <= #[trigger] places[i] < whole.len() && whole[places[i]]
            == part[i]
    &&& forall|i: int, j: int| 0 <= i < j < places.len() ==> places[i] < places[j]
}

/// The tasks that wait after a batch are some of those that waited before and of the
/// batch, in the order in which they came, and there are no more of them than the
/// capacity.
pub proof fn batch_keeps_the_order(
    before: Seq<NetworkTask>,
    capacity: usize,
    tasks: Seq<NetworkTask>,
    results: Seq<PushResult>,
    after: Seq<NetworkTask>,
)
    requires
        before.len() <= capacity,
        all_offered(before, capacity, tasks, results, after),
    ensures
        after.len() <= capacity,
        exists|places: Seq<int>| #[trigger] in_order(after, before + tasks, places),
    decreases tasks.len(),
{
    let taken = choose|taken: Seq<int>| #[trigger]
        all_offered_after(before, taken, capacity, tasks, results, after);
    if tasks.len() == 0 {
        let places = Seq::new(before.len(), |i: int| i);
        assert(in_order(after, before + tasks, places));
    } else {
        let fewer = tasks.drop_last();
        let between = choose|between: Seq<NetworkTask>|
            all_offered_after(
                before,
                taken.drop_last(),
                capacity,
                fewer,
                results.drop_last(),
                between,
            ) && #[trigger] offered_after(
                between,
                taken.last(),
                capacity,
                tasks.last(),
                results.last(),
                after,
            );
        let result = results.last();
        let received = taken.last();
        assert(all_offered(before, capacity, fewer, results.drop_last(), between));
        batch_keeps_the_order(before, capacity, fewer, results.drop_last(), between);
        assert(offered(between, capacity, tasks.last(), result, after));
        offers_keep_the_bound(between, capacity, tasks.last(), result, after);
        let places = choose|places: Seq<int>| #[trigger] in_order(between, before + fewer, places);
        let whole = before + tasks;
        assert(whole =~= (before + fewer).push(tasks.last()));
        let kept = places.skip(received);
        if result == PushResult::Accepted && capacity > 0 {
            let more = kept.push(whole.len() - 1);
            assert forall|i: int| 0 <= i < after.len() implies 0 <= #[trigger] more[i]
                < whole.len() && whole[more[i]] == after[i] by {
                if i < kept.len() {
                    assert(more[i] == places[i + received]);
                }
            }
            assert forall|i: int, j: int| 0 <= i < j < more.len() implies more[i] < more[j] by {
                assert(more[i] == places[i + received]);
                if j < kept.len() {
                    assert(more[j] == places[j + received]);
                }
            }
            assert(in_order(after, whole, more));
        } else {
            assert forall|i: int| 0 <= i < after.len() implies 0 <= #[trigger] kept[i]
                < whole.len() && whole[kept[i]] == after[i] by {
                assert(kept[i] == places[i + received]);
            }
            assert(in_order(after, whole, kept));
        }
    }
}

/// Where there is room for a whole batch, every task of it is taken: the tasks that wait
/// afterwards are all that have not been received.
pub proof fn batch_with_room_is_taken_whole(
    before: Seq<NetworkTask>,
    capacity: usize,
    tasks: Seq<NetworkTask>,
    results: Seq<PushResult>,
    after: Seq<NetworkTask>,
)
    requires
        before.len() + tasks.len() <= capacity,
        all_offered(before, capacity, tasks, results, after),
    ensures
        forall|i: int| 0 <= i < tasks.len() ==> #[trigger] results[i] == PushResult::Accepted,
        exists|received: int|
            0 <= received <= before.len() + tasks.len() && after == #[trigger] (before
                + tasks).skip(received),
    decreases tasks.len(),
{
    let taken = choose|taken: Seq<int>| #[trigger]
        all_offered_after(before, taken, capacity, tasks, results, after);
    if tasks.len() == 0 {
        assert((before + tasks).skip(0) =~= before);
    } else {
        let fewer = tasks.drop_last();
        let earlier = results.drop_last();
        let between = choose|between: Seq<NetworkTask>|
            all_offered_after(
                before,
                taken.drop_last(),
                capacity,
                fewer,
                earlier,
                between,
            ) && #[trigger] offered_after(
                between,
                taken.last(),
                capacity,
                tasks.last(),
                results.last(),
                after,
            );
        assert(all_offered(before, capacity, fewer, earlier, between));
        batch_with_room_is_taken_whole(before, capacity, fewer, earlier, between);
        let received = choose|received: int|
            0 <= received <= before.len() + fewer.len() && between == #[trigger] (before
                + fewer).skip(received);
        assert(offered(between, capacity, tasks.last(), results.last(), after));
        offers_keep_the_bound(between, capacity, tasks.last(), results.last(), after);
        assert(before + tasks =~= (before + fewer).push(tasks.last()));
        assert(after =~= (before + tasks).skip(received + taken.last()));
        assert forall|i: int| 0 <= i < tasks.len() implies #[trigger] results[i]
            == PushResult::Accepted by {
            if i < fewer.len() {
                assert(results[i] == earlier[i]);
            }
        }
    }
}

/// Whatever happens to the results, the queue stays as it is and in order.
pub proof fn results_do_not_touch_the_queue(before: AddInCache, after: AddInCache)
    requires
        before.wf(),
        after.same_but_results(before),
    ensures
        after.wf(),
        after.queue() == before.queue(),
{
}

/// Whatever happens to the queue, the results stay as they are.
pub proof fn queue_does_not_touch_the_results(before: AddInCache, after: AddInCache)
    requires
        after.same_but_queue(before),
    ensures
        after.results() == before.results(),
{
}

/// Where no error is told, what is kept of a task holds the status of a response, which is
/// never zero. `status_code` holds of the status of every response.
pub proof fn answered_task_has_a_status(
    task: NetworkTask,
    outcome: RequestOutcome,
    timestamp: u64,
    result: NetworkResult,
)
    requires
        outcome matches RequestOutcome::Answered { status, .. } ==> status_code(status),
        tells_of_task(task, outcome, timestamp, result),
    ensures
        result.error is None ==> status_code(result.status_code) && result.status_code > 0,
{
}

/// What is kept of a task tells of an error exactly where its answer could not be had,
/// and then holds no body.
pub proof fn failure_is_told(
    task: NetworkTask,
    outcome: RequestOutcome,
    timestamp: u64,
    result: NetworkResult,
)
    requires
        tells_of_task(task, outcome, timestamp, result),
    ensures
        result.error is None <==> outcome is Answered,
        result.error is Some ==> result.response_body@.len() == 0,
{
}

} // verus!
