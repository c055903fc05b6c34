//! What the answers of the library mean, in plain terms.
use crate::addin::{answer_without_settings, NetworkAddIn, Refusal};
use crate::cache::{
    is_fresh, matching, of_service, popped, popped_from, select_results, AddInCache, NetworkResult,
    NetworkTask, PushResult,
};
use crate::clock::{unix_time_of, ClockReading};
use crate::http_engine::{
    finish_task, method_name, method_or_default, plan_client, plan_request, task_result, uppercase,
    ClientPlan, RequestOutcome, RequestPlan,
};
use crate::https::{
    authority_is_that_of_the_settings, first_step, fits, identity_is_that_of_the_settings,
    next_step, read_ca, read_identity, setup_runs, SSLConfig, SslEvent, SslStep,
};
use crate::json::{
    deserialize_strings, fault_text, json_strings, safe_deserialize_json, safe_serialize_json,
    serialize_strings, JsonFault,
};
use crate::laws::{
    batch_with_room_is_taken_whole, listing_has_one_entry_for_each_key,
    pop_without_limit_gives_every_result, service_results,
};
use crate::parser::{
    default_max_rows, default_method, default_timeout, described_tasks, process_incoming_json,
    AddInBatchManifest, AddInSettingsManifest, AddInTaskManifest,
};
use crate::pem::{pem_fits, CaReading, IdentityReading};
use crate::queue::{
    all_offered_after, all_offered_alone, offered_after, push_result_of, queue_fits,
    SendOutcome, TaskQueue,
};
use crate::storage::lists_by;
use crate::text::{decimal, decimal_text, is_blank, joined, texts, white_space};
use crate::utils::{
    gunzip, gzip, ping_result, plan_response_payload, reason_phrase, retry_policy, save_result,
    PingOutcome, PingResult, RetryPolicy, SaveOutcome, SavePayloadResult, SavePlan,
};
use vstd::prelude::*;
use vstd::string::*;

verus! {

/// Something in the text is not white space.
pub open spec fn says_something(text: Seq<char>) -> bool {
    exists|i: int| 0 <= i < text.len() && !white_space(#[trigger] text[i])
}

/// A text counts as blank exactly where it says nothing.
pub proof fn blank_text_says_nothing(text: &str, result: bool)
    requires
        call_ensures(is_blank, (text,), result),
    ensures
        result <==> !says_something(text@),
{
}

/// The number that digits stand for.
pub open spec fn number_read(digits: Seq<char>) -> int
    decreases digits.len(),
{
    if digits.len() == 0 {
        0
    } else {
        10 * number_read(digits.drop_last()) + (digits.last() as int - '0' as int)
    }
}

/// Whoever reads a number that was written gets that number; it starts with a zero only
/// where it is zero.
pub proof fn written_number_is_read_back(number: u128, text: String)
    requires
        call_ensures(decimal, (number,), text),
    ensures
        number_read(text@) == number,
        text@.len() > 0,
        text@[0] == '0' ==> number == 0 && text@.len() == 1,
        forall|i: int| 0 <= i < text@.len() ==> '0' <= #[trigger] text@[i] <= '9',
{
    lemma_decimal_reads_back(number as nat);
}

proof fn lemma_decimal_reads_back(number: nat)
    ensures
        number_read(decimal_text(number)) == number,
        decimal_text(number).len() > 0,
        decimal_text(number)[0] == '0' ==> number == 0 && decimal_text(number).len() == 1,
        forall|i: int|
            0 <= i < decimal_text(number).len() ==> '0' <= #[trigger] decimal_text(number)[i]
                <= '9',
    decreases number,
{
    reveal_with_fuel(number_read, 2);
    if number < 10 {
        assert(decimal_text(number).drop_last() =~= Seq::<char>::empty());
    } else {
        lemma_decimal_reads_back(number / 10);
        let last = decimal_text(number).last();
        assert(decimal_text(number).drop_last() =~= decimal_text(number / 10));
        assert(last as int - '0' as int == number % 10);
        assert(10 * (number / 10) + number % 10 == number);
    }
}

/// Joining texts puts one behind the other.
pub proof fn joined_text_holds_both(left: &str, right: &str, text: String)
    requires
        call_ensures(joined, (left, right), text),
    ensures
        text@.len() == left@.len() + right@.len(),
        text@.take(left@.len() as int) == left@,
        text@.skip(left@.len() as int) == right@,
{
}

/// The texts of a list are those of its strings, in its order.
pub proof fn texts_are_those_of_the_strings(strings: Seq<String>)
    ensures
        texts(strings).len() == strings.len(),
        forall|i: int| 0 <= i < strings.len() ==> #[trigger] texts(strings)[i] == strings[i]@,
{
}

/// The time is what the clock shows, in its unit; the epoch where it shows nothing.
pub proof fn time_is_what_the_clock_shows(reading: Option<u64>, seconds: u64)
    requires
        call_ensures(unix_time_of, (reading,), seconds),
    ensures
        reading is Some ==> seconds == reading->Some_0,
        reading is None ==> seconds == 0,
{
}

/// A result is judged too old exactly where more than `max_age` seconds have passed since
/// its time.
pub proof fn result_is_too_old_after_its_age(
    result: &NetworkResult,
    now: u64,
    max_age: u64,
    keep: bool,
)
    requires
        call_ensures(is_fresh, (result, now, max_age), keep),
    ensures
        keep <==> now <= result.unix_timestamp + max_age,
{
}

/// Clearing by the clock forgets the results that are older than the cache keeps them at
/// the time that the clock shows, in seconds, and leaves the others, and everything else,
/// as they are.
pub proof fn clock_clears_what_is_too_old(
    cache: &mut AddInCache,
    reading: ClockReading,
    key: Seq<char>,
)
    requires
        call_ensures(AddInCache::clear_expired, (cache,), reading),
    ensures
        ({
            let now: int = match reading.shown() {
                Some(seconds) => seconds as int,
                None => 0,
            };
            let before = old(cache).results();
            let after = final(cache).results();
            &&& after.contains_key(key) <==> before.contains_key(key) && now
                - before[key].unix_timestamp <= old(cache).max_duration
            &&& after.contains_key(key) ==> after[key] == before[key]
        }),
        *final(cache) == (AddInCache { output_storage: final(cache).output_storage, ..*old(cache) }),
{
}

/// Clearing at a time forgets the results that are then older than the cache keeps them,
/// and leaves the others, and everything else, as they are.
pub proof fn clearing_forgets_what_is_too_old(cache: &mut AddInCache, now: u64, key: Seq<char>)
    requires
        call_ensures(AddInCache::clear_expired_at, (cache, now), ()),
    ensures
        final(cache).results().contains_key(key) <==> old(cache).results().contains_key(key) && now
            - old(cache).results()[key].unix_timestamp <= old(cache).max_duration,
        final(cache).results().contains_key(key) ==> final(cache).results()[key] == old(
            cache,
        ).results()[key],
        *final(cache) == (AddInCache { output_storage: final(cache).output_storage, ..*old(cache) }),
{
}

/// The identifier is in the list.
pub open spec fn listed(task_ids: Seq<String>, key: Seq<char>) -> bool {
    exists|i: int| 0 <= i < task_ids.len() && (#[trigger] task_ids[i])@ == key
}

proof fn lemma_listed(task_ids: Seq<String>, key: Seq<char>)
    ensures
        listed(task_ids, key) <==> texts(task_ids).contains(key),
{
    if listed(task_ids, key) {
        let i = choose|i: int| 0 <= i < task_ids.len() && (#[trigger] task_ids[i])@ == key;
        assert(texts(task_ids)[i] == key);
    }
    if texts(task_ids).contains(key) {
        let i = texts(task_ids).index_of(key);
        assert(task_ids[i]@ == key);
    }
}

/// Confirming forgets exactly the results that are named, and leaves the others, and
/// everything else, as they are.
pub proof fn confirming_forgets_what_is_named(
    cache: &mut AddInCache,
    task_ids: Vec<String>,
    key: Seq<char>,
)
    requires
        call_ensures(AddInCache::ack_result, (cache, task_ids), ()),
    ensures
        final(cache).results().contains_key(key) <==> old(cache).results().contains_key(key)
            && !listed(task_ids@, key),
        final(cache).results().contains_key(key) ==> final(cache).results()[key] == old(
            cache,
        ).results()[key],
        *final(cache) == (AddInCache { output_storage: final(cache).output_storage, ..*old(cache) }),
{
    lemma_listed(task_ids@, key);
}

/// A new cache is empty and has the settings that it was made with.
pub proof fn new_cache_is_empty(
    max_rows: usize,
    secs_timeouts: u64,
    ssl_config: SSLConfig,
    cache: AddInCache,
)
    requires
        call_ensures(AddInCache::new, (max_rows, secs_timeouts, ssl_config), cache),
    ensures
        cache.wf(),
        cache.undisturbed(),
        cache.queue().len() == 0,
        forall|key: Seq<char>| !#[trigger] cache.results().contains_key(key),
        cache.max_rows == max_rows,
        cache.max_duration == secs_timeouts,
        cache.ssl_config == ssl_config,
{
}

/// A push leaves everything but the queue as it is, and never says that the engine is
/// gone. Where there was room, the task is taken and waits behind all others. Where it is
/// turned away, the queue was full and stays as it was.
pub proof fn push_takes_the_task_where_there_is_room(
    cache: &mut AddInCache,
    task: NetworkTask,
    result: PushResult,
)
    requires
        old(cache).wf(),
        call_ensures(AddInCache::push_task, (cache, task), result),
    ensures
        final(cache).wf(),
        final(cache).queue().len() <= old(cache).max_rows,
        *final(cache) == (AddInCache { tasks: final(cache).tasks, ..*old(cache) }),
        result == PushResult::Accepted || result == PushResult::QueueFull,
        old(cache).queue().len() < old(cache).max_rows ==> result == PushResult::Accepted,
        result == PushResult::Accepted && old(cache).max_rows > 0 ==> final(cache).queue().len() > 0
            && final(cache).queue().last() == task,
        result == PushResult::QueueFull ==> old(cache).queue().len() == old(cache).max_rows
            && final(cache).queue() == old(cache).queue(),
        forall|i: int|
            0 <= i < final(cache).queue().len() - (if result == PushResult::Accepted && old(
                cache,
            ).max_rows > 0 {
                1int
            } else {
                0int
            }) ==> old(cache).queue().contains(#[trigger] final(cache).queue()[i]),
{
    let before = old(cache).queue();
    let after = final(cache).queue();
    let taken = choose|taken: int| #[trigger]
        offered_after(before, taken, old(cache).max_rows, task, result, after);
    let left = before.skip(taken);
    if result == PushResult::QueueFull {
        assert(taken == 0);
        assert(left =~= before);
    }
    assert forall|i: int| 0 <= i < left.len() implies before.contains(#[trigger] left[i]) by {
        assert(left[i] == before[i + taken]);
    }
    assert forall|i: int|
        0 <= i < after.len() - (if result == PushResult::Accepted && old(cache).max_rows > 0 {
            1int
        } else {
            0int
        }) implies before.contains(#[trigger] after[i]) by {
        assert(after[i] == left[i]);
    }
}

/// Where nobody takes tasks out of the queue, a push takes the task exactly where there is
/// room, and the queue is then the old one with the task behind it; otherwise the old one.
pub proof fn push_to_an_undisturbed_queue(
    cache: &mut AddInCache,
    task: NetworkTask,
    result: PushResult,
)
    requires
        old(cache).wf(),
        old(cache).undisturbed(),
        call_ensures(AddInCache::push_task, (cache, task), result),
    ensures
        final(cache).undisturbed(),
        result == PushResult::Accepted <==> old(cache).queue().len() < old(cache).max_rows,
        result == PushResult::QueueFull <==> old(cache).queue().len() == old(cache).max_rows,
        result == PushResult::Accepted ==> final(cache).queue() == old(cache).queue() + seq![task],
        result == PushResult::QueueFull ==> final(cache).queue() == old(cache).queue(),
{
}

/// Handing out a receiver changes nothing in the cache but who takes tasks out of it.
pub proof fn receiver_changes_nothing_else(
    cache: &mut AddInCache,
    receiver: crossbeam_channel::Receiver<NetworkTask>,
)
    requires
        call_ensures(AddInCache::task_receiver, (cache,), receiver),
    ensures
        final(cache).wf(),
        final(cache).queue() == old(cache).queue(),
        final(cache).tasks.feeds(receiver),
        *final(cache) == (AddInCache { tasks: final(cache).tasks, ..*old(cache) }),
{
}

/// A copy of a result is the same result.
pub proof fn copy_is_the_same(result: &NetworkResult, copy: NetworkResult)
    requires
        call_ensures(NetworkResult::clone, (result,), copy),
    ensures
        copy.task_id == result.task_id,
        copy.service_name == result.service_name,
        copy.status_code == result.status_code,
        copy.response_body == result.response_body,
        copy.error == result.error,
        copy.unix_timestamp == result.unix_timestamp,
{
}

/// A queue that is offered a task has it behind the others, or was full and stays as it
/// was, where nobody takes tasks out of it.
pub proof fn offer_to_an_undisturbed_queue(
    queue: &mut TaskQueue,
    task: NetworkTask,
    result: PushResult,
)
    requires
        old(queue).wf(),
        old(queue).undisturbed(),
        call_ensures(TaskQueue::offer, (queue, task), result),
    ensures
        final(queue).wf(),
        final(queue).undisturbed(),
        final(queue).capacity() == old(queue).capacity(),
        result == PushResult::Accepted ==> old(queue).waiting().len() < old(queue).capacity()
            && final(queue).waiting() == old(queue).waiting() + seq![task],
        result != PushResult::Accepted ==> result == PushResult::QueueFull && old(
            queue,
        ).waiting().len() == old(queue).capacity() && final(queue).waiting() == old(
            queue,
        ).waiting(),
{
    old(queue).never_overfull();
}

/// The three ends of an offer have three different answers.
pub proof fn answer_tells_what_became_of_the_task(outcome: SendOutcome, result: PushResult)
    requires
        call_ensures(push_result_of, (outcome,), result),
    ensures
        result == PushResult::Accepted <==> outcome == SendOutcome::Sent,
        result == PushResult::QueueFull <==> outcome == SendOutcome::Full,
        result == PushResult::RuntimeDisconnected <==> outcome == SendOutcome::Disconnected,
{
}

/// Where a queue fits, a shorter one does. Ten million rows fit everywhere, and what fits
/// takes no more than the address space.
pub proof fn shorter_queue_fits(rows: usize, fewer: usize, fits_all: bool, fits_fewer: bool)
    requires
        call_ensures(queue_fits, (rows,), fits_all),
        call_ensures(queue_fits, (fewer,), fits_fewer),
        fewer <= rows,
    ensures
        fits_all ==> fits_fewer,
        fewer <= 10_000_000 ==> fits_fewer,
        fits_all ==> rows * 108 <= isize::MAX,
        usize::BITS == 64 ==> (fits_all <==> rows * 184 <= isize::MAX),
        usize::BITS != 64 ==> (fits_all <==> rows * 108 <= isize::MAX),
{
    assert(fewer * crate::queue::slot_bytes() <= rows * crate::queue::slot_bytes())
        by (nonlinear_arith)
        requires
            fewer <= rows,
            crate::queue::slot_bytes() >= 0,
    ;
}

/// A result is of the service that is named; of any where none is.
pub open spec fn named(result: NetworkResult, service: Option<Seq<char>>) -> bool {
    service is None || service == Some(result.service_name@)
}

/// The service that a filter names, if there is a filter.
pub open spec fn service_of(filter: Option<&str>) -> Option<Seq<char>> {
    match filter {
        Some(service) => Some(service@),
        None => None,
    }
}

/// The service that a filter of the host names, if it says something.
pub open spec fn service_in(filter: Seq<char>) -> Option<Seq<char>> {
    if says_something(filter) {
        Some(filter)
    } else {
        None
    }
}

/// `places` are places in `listing`, each behind the one before.
pub open spec fn ascending_places(listing: Seq<NetworkResult>, places: Seq<int>) -> bool {
    &&& forall|i: int| 0 <= i < places.len() ==> 0 <= #[trigger] places[i] < listing.len()
    &&& forall|i: int, j: int| 0 <= i < j < places.len() ==> places[i] < places[j]
}

/// `extracted` is made of the entries of `listing` at `places`, all of them of the
/// service. What is passed over is of another service, or comes after as many as `limit`
/// allows.
pub open spec fn picked(
    listing: Seq<NetworkResult>,
    service: Option<Seq<char>>,
    limit: usize,
    places: Seq<int>,
    extracted: Seq<NetworkResult>,
) -> bool {
    &&& ascending_places(listing, places)
    &&& places.len() == extracted.len()
    &&& forall|i: int|
        0 <= i < extracted.len() ==> #[trigger] extracted[i] == listing[places[i]] && named(
            extracted[i],
            service,
        )
    &&& limit > 0 ==> extracted.len() <= limit
    &&& forall|j: int|
        0 <= j < listing.len() && named(#[trigger] listing[j], service) ==> places.contains(j) || (
        extracted.len() == limit && places.len() > 0 && places.last() < j)
}

proof fn lemma_matching_places(
    listing: Seq<NetworkResult>,
    service: Option<Seq<char>>,
) -> (places: Seq<int>)
    ensures
        picked(listing, service, 0, places, matching(listing, service)),
        forall|j: int|
            0 <= j < listing.len() && named(#[trigger] listing[j], service) ==> places.contains(j),
    decreases listing.len(),
{
    reveal(Seq::filter);
    if listing.len() == 0 {
        Seq::empty()
    } else {
        let fewer = listing.drop_last();
        let last = listing.len() - 1;
        let places = lemma_matching_places(fewer, service);
        let found = matching(fewer, service);
        assert forall|j: int| 0 <= j < fewer.len() implies #[trigger] fewer[j] == listing[j] by {}
        assert forall|i: int| 0 <= i < places.len() implies 0 <= #[trigger] places[i] < last by {}
        assert forall|i: int| 0 <= i < found.len() implies #[trigger] found[i] == listing[places[i]]
            && named(found[i], service) by {
            assert(found[i] == fewer[places[i]]);
        }
        if of_service(listing.last(), service) {
            let more = places.push(last);
            assert(matching(listing, service) == found.push(listing.last()));
            assert forall|j: int|
                0 <= j < listing.len() && named(#[trigger] listing[j], service) implies more.contains(
                j,
            ) by {
                if j < last {
                    assert(named(fewer[j], service));
                    assert(more[places.index_of(j)] == j);
                } else {
                    assert(more[places.len() as int] == j);
                }
            }
            assert(picked(listing, service, 0, more, matching(listing, service)));
            more
        } else {
            assert(matching(listing, service) == found);
            assert forall|j: int|
                0 <= j < listing.len() && named(
                    #[trigger] listing[j],
                    service,
                ) implies places.contains(j) by {
                if j < last {
                    assert(named(fewer[j], service));
                }
            }
            assert(picked(listing, service, 0, places, matching(listing, service)));
            places
        }
    }
}

/// A selection takes the entries of the service out of a listing, in its order, until
/// there are as many as the limit allows, and passes over none of them.
pub proof fn selection_passes_over_nothing(
    listing: Vec<NetworkResult>,
    filter_service: Option<&str>,
    limit: usize,
    extracted: Vec<NetworkResult>,
)
    requires
        call_ensures(select_results, (listing, filter_service, limit), extracted),
    ensures
        exists|places: Seq<int>| #[trigger]
            picked(
                listing@,
                service_of(filter_service),
                limit,
                places,
                extracted@,
            ),
{
    let service = service_of(filter_service);
    let all = lemma_matching_places(listing@, service);
    let found = matching(listing@, service);
    if 0 < limit < found.len() {
        let places = all.take(limit as int);
        assert forall|j: int|
            0 <= j < listing@.len() && named(#[trigger] listing@[j], service) implies places.contains(
            j,
        ) || (extracted@.len() == limit && places.len() > 0 && places.last() < j) by {
            let i = all.index_of(j);
            if i < limit {
                assert(places[i] == j);
            } else {
                assert(all[limit - 1] < all[i]);
            }
        }
        assert(extracted@ == found.take(limit as int));
        assert forall|i: int| 0 <= i < extracted@.len() implies #[trigger] extracted@[i]
            == listing@[places[i]] && named(extracted@[i], service) by {
            assert(found[i] == listing@[all[i]]);
        }
        assert(picked(listing@, service, limit, places, extracted@));
    } else {
        assert(picked(listing@, service, limit, all, extracted@));
    }
}

/// The keys of the results that are of the service.
pub open spec fn keys_named(
    results: Map<Seq<char>, NetworkResult>,
    service: Option<Seq<char>>,
) -> Set<Seq<char>> {
    results.dom().filter(|key: Seq<char>| named(results[key], service))
}

/// What a reader gets: as many different results of the service as there are, or as the
/// limit allows where that is fewer.
pub open spec fn gives(
    results: Map<Seq<char>, NetworkResult>,
    service: Option<Seq<char>>,
    limit: int,
    keys: Seq<Seq<char>>,
    extracted: Seq<NetworkResult>,
) -> bool {
    &&& keys.no_duplicates()
    &&& keys.len() == extracted.len()
    &&& forall|i: int|
        0 <= i < keys.len() ==> keys_named(results, service).contains(#[trigger] keys[i])
            && results[keys[i]] == extracted[i]
    &&& keys_named(results, service).finite()
    &&& extracted.len() == if 0 < limit < keys_named(results, service).len() {
        limit
    } else {
        keys_named(results, service).len() as int
    }
}

proof fn lemma_popped_gives(
    results: Map<Seq<char>, NetworkResult>,
    service: Option<Seq<char>>,
    limit: usize,
    extracted: Seq<NetworkResult>,
)
    requires
        popped(results, service, limit, extracted),
    ensures
        exists|keys: Seq<Seq<char>>| #[trigger]
            gives(results, service, limit as int, keys, extracted),
{
    let listing = choose|listing: Seq<NetworkResult>| #[trigger]
        popped_from(results, listing, service, limit, extracted);
    let all = matching(listing, service);
    let mine = service_results(results, service);
    assert(popped_from(results, listing, service, 0, all));
    pop_without_limit_gives_every_result(results, service, all);
    listing_has_one_entry_for_each_key(mine, all);
    let keys = choose|keys: Seq<Seq<char>>| #[trigger] lists_by(mine, keys, all);
    assert(mine.dom() =~= keys_named(results, service));
    let some = keys.take(extracted.len() as int);
    assert(some.no_duplicates());
    assert forall|i: int| 0 <= i < some.len() implies keys_named(results, service).contains(
        #[trigger] some[i],
    ) && results[some[i]] == extracted[i] by {
        assert(mine.contains_key(keys[i]));
        assert(extracted[i] == all[i]);
    }
    assert(gives(results, service, limit as int, some, extracted));
}

/// A reader of the cache gets as many different results of the service as there are, or
/// as the limit allows where that is fewer.
pub proof fn pop_gives_what_is_asked_for(
    cache: &AddInCache,
    filter_service: Option<&str>,
    limit: usize,
    extracted: Vec<NetworkResult>,
)
    requires
        call_ensures(AddInCache::pop_results, (cache, filter_service, limit), extracted),
    ensures
        exists|keys: Seq<Seq<char>>| #[trigger]
            gives(
                cache.results(),
                service_of(filter_service),
                limit as int,
                keys,
                extracted@,
            ),
{
    let service = service_of(filter_service);
    lemma_popped_gives(cache.results(), service, limit, extracted@);
}

/// The host gets as many different results of the service that it names, or of all where
/// it names none, as there are; as many as its limit allows where that is positive and
/// fewer. A limit that the machine cannot count to is left out.
pub proof fn host_gets_what_it_asks_for(
    addin: &NetworkAddIn,
    filter_service: &str,
    limit: i64,
    result: Result<Vec<NetworkResult>, String>,
)
    requires
        call_ensures(NetworkAddIn::ffi_pop_results, (addin, filter_service, limit), result),
        addin.cache is Some,
        limit <= usize::MAX,
    ensures
        result is Ok,
        exists|keys: Seq<Seq<char>>| #[trigger]
            gives(
                addin.cache->Some_0.results(),
                service_in(filter_service@),
                limit as int,
                keys,
                result->Ok_0@,
            ),
{
    let service = service_in(filter_service@);
    let results = addin.cache->Some_0.results();
    let allowed: usize = if limit <= 0 {
        0
    } else {
        limit as usize
    };
    lemma_popped_gives(results, service, allowed, result->Ok_0@);
    let keys = choose|keys: Seq<Seq<char>>| #[trigger]
        gives(results, service, allowed as int, keys, result->Ok_0@);
    assert(gives(results, service, limit as int, keys, result->Ok_0@));
}

/// While the settings are not known the host gets no results but a JSON string that tells
/// it so.
pub proof fn host_is_told_that_settings_are_missing(
    addin: &NetworkAddIn,
    filter_service: &str,
    limit: i64,
    result: Result<Vec<NetworkResult>, String>,
)
    requires
        call_ensures(NetworkAddIn::ffi_pop_results, (addin, filter_service, limit), result),
        addin.cache is None,
    ensures
        result is Err,
        result->Err_0@
            == "\"Ошибка: Критическая ошибка: Движок не инициализирован! Сначала необходимо вызвать метод Настроить().\""@,
{
    answer_without_settings();
}

/// A text that names a method is the method, as it is; in place of any other text stands
/// the method `GET`.
pub proof fn method_is_the_one_named(text: &str, method: String)
    requires
        call_ensures(method_or_default, (text,), method),
    ensures
        method_name(text@) ==> method@ == text@,
        !method_name(text@) ==> method@ == seq!['G', 'E', 'T'],
{
    reveal_strlit("GET");
}

/// A request has the method of its task in upper case, or `GET` where that is none, and
/// the address, the headers and the payload of its task.
pub proof fn request_is_that_of_the_task(task: &NetworkTask, plan: RequestPlan<'_>)
    requires
        call_ensures(plan_request, (task,), plan),
    ensures
        method_name(uppercase(task.metod@)) ==> plan.method@ == uppercase(task.metod@),
        !method_name(uppercase(task.metod@)) ==> plan.method@ == seq!['G', 'E', 'T'],
        plan.url@ == task.url@,
        *plan.headers == task.headers,
        plan.body is Some <==> task.payload@.len() > 0,
        plan.body is Some ==> plan.body->Some_0@ == task.payload@,
{
    reveal_strlit("GET");
}

/// A client whose certificates are set up waits for an answer as long as the settings say
/// and keeps ten idle connections to a host; one without certificates has no settings.
pub proof fn client_has_the_settings(cache: &AddInCache, ssl_ready: bool, plan: ClientPlan)
    requires
        call_ensures(plan_client, (cache, ssl_ready), plan),
    ensures
        ssl_ready <==> plan.timeout_secs is Some,
        ssl_ready <==> plan.max_idle_per_host is Some,
        ssl_ready ==> plan.timeout_secs->Some_0 == cache.max_duration,
        ssl_ready ==> plan.max_idle_per_host->Some_0 == 10,
{
}

/// `result` holds what came of `task`: its identifier, its service, the time, and what the
/// server answered or why there is no answer.
pub open spec fn holds_what_came(
    task: NetworkTask,
    outcome: RequestOutcome,
    time: u64,
    result: NetworkResult,
) -> bool {
    &&& result.task_id@ == task.task_id@
    &&& result.service_name@ == task.service_name@
    &&& result.unix_timestamp == time
    &&& outcome is Answered ==> {
        &&& result.status_code == outcome->Answered_status
        &&& result.response_body@ == outcome->body@
        &&& result.error is None
    }
    &&& outcome is Unreadable ==> {
        &&& result.status_code == outcome->Unreadable_status
        &&& result.response_body@.len() == 0
        &&& result.error is Some
        &&& result.error->Some_0@ == "Не удалось прочитать тело ответа: "@
            + outcome->Unreadable_reason@
    }
    &&& outcome is Failed ==> {
        &&& outcome->Failed_status is Some ==> result.status_code == outcome->Failed_status->Some_0
        &&& outcome->Failed_status is None ==> result.status_code == 0
        &&& result.response_body@.len() == 0
        &&& result.error is Some
        &&& result.error->Some_0@ == "Ошибка сетевого запроса: "@ + outcome->Failed_reason@
    }
}

/// What is kept of a task is what the server answered, status and body unchanged, or why
/// there is no answer.
pub proof fn result_holds_the_answer(
    task: &NetworkTask,
    outcome: RequestOutcome,
    timestamp: u64,
    result: NetworkResult,
)
    requires
        call_ensures(task_result, (task, outcome, timestamp), result),
    ensures
        holds_what_came(*task, outcome, timestamp, result),
{
}

/// What came of a task that is over is kept under its identifier, with the time that the
/// clock showed; no other result, and nothing else, is touched.
pub proof fn finished_task_is_kept_under_its_identifier(
    cache: &mut AddInCache,
    task: NetworkTask,
    outcome: RequestOutcome,
    clock: Option<u64>,
    other: Seq<char>,
)
    requires
        call_ensures(finish_task, (cache, task, outcome, clock), ()),
        other != task.task_id@,
    ensures
        final(cache).results().contains_key(task.task_id@),
        clock is Some ==> holds_what_came(
            task,
            outcome,
            clock->Some_0,
            final(cache).results()[task.task_id@],
        ),
        clock is None ==> holds_what_came(
            task,
            outcome,
            0,
            final(cache).results()[task.task_id@],
        ),
        final(cache).results().contains_key(other) <==> old(cache).results().contains_key(other),
        final(cache).results().contains_key(other) ==> final(cache).results()[other] == old(
            cache,
        ).results()[other],
        *final(cache) == (AddInCache { output_storage: final(cache).output_storage, ..*old(cache) }),
{
}

/// A task is made of each description: the two have the same entries.
pub open spec fn same_entries(task: NetworkTask, manifest: AddInTaskManifest) -> bool {
    &&& task.task_id@ == manifest.task_id@
    &&& task.service_name@ == manifest.service_name@
    &&& task.url@ == manifest.url@
    &&& task.metod@ == manifest.method@
    &&& task.headers == manifest.headers
    &&& task.payload@ == manifest.payload@
}

/// Every description of a batch that was read becomes one task with the same entries, in
/// the order of the batch, and nothing else does.
pub proof fn every_description_becomes_a_task(
    json: &str,
    parsed: Result<AddInBatchManifest, JsonFault>,
    result: Result<Vec<NetworkTask>, String>,
)
    requires
        call_ensures(process_incoming_json, (json, parsed), result),
    ensures
        result is Ok <==> says_something(json@) && parsed is Ok,
        result is Ok ==> result->Ok_0@.len() == parsed->Ok_0.tasks@.len(),
        result is Ok ==> forall|i: int|
            0 <= i < parsed->Ok_0.tasks@.len() ==> same_entries(
                #[trigger] result->Ok_0@[i],
                parsed->Ok_0.tasks@[i],
            ),
        !says_something(json@) ==> result->Err_0@
            == "1С передала пустую строку вместо JSON-данных"@,
        says_something(json@) && parsed is Err ==> tells_of_fault(
            result->Err_0@,
            parsed->Err_0,
        ),
{
    if parsed is Err {
        lemma_tells_of_fault(parsed->Err_0);
    }
}

/// The text tells what is wrong with a JSON text, in these words, and in which line and
/// column.
pub open spec fn tells_of_place(
    text: Seq<char>,
    message: Seq<char>,
    line: usize,
    column: usize,
) -> bool {
    exists|row: Seq<char>, place: Seq<char>|
        #![trigger number_read(row), number_read(place)]
        number_read(row) == line && number_read(place) == column && text
            == "Ошибка парсинга JSON от 1С: "@ + message + " (Позиция: линия "@ + row
            + ", колонка "@ + place + ")"@
}

/// The text tells what is wrong with a JSON text, and where.
pub open spec fn tells_of_fault(text: Seq<char>, fault: JsonFault) -> bool {
    tells_of_place(text, fault.message@, fault.line, fault.column)
}

proof fn lemma_tells_of_place(message: Seq<char>, line: usize, column: usize)
    ensures
        tells_of_place(fault_text(message, line, column), message, line, column),
{
    lemma_decimal_reads_back(line as nat);
    lemma_decimal_reads_back(column as nat);
    let row = decimal_text(line as nat);
    let place = decimal_text(column as nat);
    assert(number_read(row) == line && number_read(place) == column);
}

proof fn lemma_tells_of_fault(fault: JsonFault)
    ensures
        tells_of_fault(fault_text(fault.message@, fault.line, fault.column), fault),
{
    lemma_tells_of_place(fault.message@, fault.line, fault.column);
}

/// A text of the host gives what was read out of it, unless it says nothing or could not
/// be read; then the host is told so.
pub proof fn text_gives_what_was_read<T>(
    json: &str,
    parsed: Result<T, JsonFault>,
    result: Result<T, String>,
)
    requires
        call_ensures(safe_deserialize_json::<T>, (json, parsed), result),
    ensures
        result is Ok <==> says_something(json@) && parsed is Ok,
        result is Ok ==> result->Ok_0 == parsed->Ok_0,
        !says_something(json@) ==> result->Err_0@
            == "1С передала пустую строку вместо JSON-данных"@,
        says_something(json@) && parsed is Err ==> tells_of_fault(
            result->Err_0@,
            parsed->Err_0,
        ),
{
    if parsed is Err {
        lemma_tells_of_fault(parsed->Err_0);
    }
}

/// What was written goes to the host as it is; where nothing could be written, the host
/// gets a JSON text that says why.
pub proof fn host_gets_what_was_written(written: Result<String, String>, json: String)
    requires
        call_ensures(safe_serialize_json, (written,), json),
    ensures
        written is Ok ==> json@ == written->Ok_0@,
        written is Err ==> json@
            == "{\"error\": \"Критическая ошибка сериализации на стороне Rust: "@
            + written->Err_0@ + "\"}"@,
{
}

/// A list of strings in a text of the host is read as `serde_json` reads it.
pub proof fn list_is_the_one_in_the_text(json: &str, result: Result<Vec<String>, String>)
    requires
        call_ensures(deserialize_strings, (json,), result),
    ensures
        result is Ok <==> says_something(json@) && json_strings(json@) is Ok,
        result is Ok ==> result->Ok_0@.len() == json_strings(json@)->Ok_0.len(),
        result is Ok ==> forall|i: int|
            0 <= i < result->Ok_0@.len() ==> (#[trigger] result->Ok_0@[i])@ == json_strings(
                json@,
            )->Ok_0[i],
        !says_something(json@) ==> result->Err_0@
            == "1С передала пустую строку вместо JSON-данных"@,
        says_something(json@) && json_strings(json@) is Err ==> tells_of_place(
            result->Err_0@,
            json_strings(json@)->Err_0.0,
            json_strings(json@)->Err_0.1,
            json_strings(json@)->Err_0.2,
        ),
{
    if json_strings(json@) is Err {
        let fault = json_strings(json@)->Err_0;
        lemma_tells_of_place(fault.0, fault.1, fault.2);
    }
    if result is Ok {
        texts_are_those_of_the_strings(result->Ok_0@);
        assert forall|i: int| 0 <= i < result->Ok_0@.len() implies (
        #[trigger] result->Ok_0@[i])@ == json_strings(json@)->Ok_0[i] by {
            assert(texts(result->Ok_0@)[i] == result->Ok_0@[i]@);
        }
    }
}

/// A list of strings that was written and is read again is the same list.
pub proof fn written_list_is_read_back(
    list: &Vec<String>,
    json: String,
    text: &str,
    result: Result<Vec<String>, String>,
)
    requires
        call_ensures(serialize_strings, (list,), json),
        text@ == json@,
        call_ensures(deserialize_strings, (text,), result),
    ensures
        result is Ok,
        result->Ok_0@.len() == list@.len(),
        forall|i: int| 0 <= i < list@.len() ==> (#[trigger] result->Ok_0@[i])@ == list@[i]@,
{
    assert forall|i: int| 0 <= i < list@.len() implies (#[trigger] result->Ok_0@[i])@
        == list@[i]@ by {
        assert(texts(result->Ok_0@)[i] == texts(list@)[i]);
    }
}

/// A task without a method asks for `GET`; settings without numbers allow a thousand
/// waiting tasks and half a minute.
pub proof fn defaults_are_those_of_the_host(method: String, rows: usize, seconds: u64)
    requires
        call_ensures(default_method, (), method),
        call_ensures(default_max_rows, (), rows),
        call_ensures(default_timeout, (), seconds),
    ensures
        method@ == seq!['G', 'E', 'T'],
        rows == 1000,
        seconds == 30,
{
    reveal_strlit("GET");
}

/// A setup begins with what the settings ask for first: the check of the server, the
/// authority, the client.
pub proof fn setup_begins_with_the_first_demand(config: &SSLConfig, step: SslStep)
    requires
        call_ensures(first_step, (config,), step),
    ensures
        config.danger_accept_invalid_certs <==> step is AcceptInvalidCerts,
        step is ReadCa <==> !config.danger_accept_invalid_certs && config.ca_cert_path is Some,
        step is ReadCa ==> step->ReadCa_path == config.ca_cert_path->Some_0,
        step is ReadClientCert <==> !config.danger_accept_invalid_certs && config.ca_cert_path
            is None && config.client_cert_path is Some,
        step is ReadClientCert ==> step->ReadClientCert_path == config.client_cert_path->Some_0,
        step is Done <==> !config.danger_accept_invalid_certs && config.ca_cert_path is None
            && config.client_cert_path is None,
        !(step is Failed),
{
}

/// What was read is used for what it was read for: the authority's file for the
/// authority, the client's two files for its certificate and its key.
pub proof fn what_was_read_is_used(config: &SSLConfig, step: SslStep, event: SslEvent, next: SslStep)
    requires
        call_ensures(next_step, (config, step, event), next),
        fits(step, event),
        event is Contents,
    ensures
        step is ReadCa ==> next is AddCa && next->pem == event->0,
        step is ReadClientCert && config.client_key_path is Some ==> next is ReadClientKey
            && next->ReadClientKey_path == config.client_key_path->Some_0
            && next->ReadClientKey_cert_pem == event->0,
        step is ReadClientCert && config.client_key_path is None ==> next is Failed && next->message@
            == "Указан клиентский сертификат, но отсутствует закрытый ключ!"@,
        step is ReadClientKey ==> next is AddIdentity && next->AddIdentity_cert_pem
            == step->ReadClientKey_cert_pem && next->key_pem == event->0,
{
}

/// When the client has taken something, the next demand of the settings comes: first the
/// authority, then the client's certificate, then the end.
pub proof fn next_demand_follows(config: &SSLConfig, step: SslStep, event: SslEvent, next: SslStep)
    requires
        call_ensures(next_step, (config, step, event), next),
        fits(step, event),
        event is Installed,
    ensures
        step is AcceptInvalidCerts && config.ca_cert_path is Some ==> next is ReadCa
            && next->ReadCa_path == config.ca_cert_path->Some_0,
        (step is AddCa || (step is AcceptInvalidCerts && config.ca_cert_path is None))
            && config.client_cert_path is Some ==> next is ReadClientCert
            && next->ReadClientCert_path == config.client_cert_path->Some_0,
        (step is AddCa || (step is AcceptInvalidCerts && config.ca_cert_path is None))
            && config.client_cert_path is None ==> next is Done,
        step is AddIdentity ==> next is Done,
{
}

/// A file that cannot be read and a certificate or key that is none end the setup with a
/// message that names the file or the kind, and the reason.
pub proof fn setup_tells_why_it_fails(
    config: &SSLConfig,
    step: SslStep,
    event: SslEvent,
    next: SslStep,
)
    requires
        call_ensures(next_step, (config, step, event), next),
        fits(step, event),
        event is NotOpened || event is NotRead || event is Rejected,
    ensures
        next is Failed,
        event is NotOpened ==> next->message@ == "Не удалось открыть файл "@
            + event->NotOpened_path@ + ": "@ + event->NotOpened_reason@,
        event is NotRead ==> next->message@ == "Не удалось прочитать файл "@ + event->NotRead_path@
            + ": "@ + event->NotRead_reason@,
        event is Rejected && step is AddCa ==> next->message@
            == "Ошибка парсинга CA сертификата: "@ + event->Rejected_reason@,
        event is Rejected && step is AddIdentity ==> next->message@
            == "Ошибка создания Identity (mTLS): "@ + event->Rejected_reason@,
{
}

/// The certificate of an authority is what is read of these very bytes. Where it is one,
/// the client's turn comes; where it is none, the setup ends with the reason.
pub proof fn authority_is_read_of_its_bytes(
    config: &SSLConfig,
    pem: Vec<u8>,
    outcome: (CaReading, SslStep),
)
    requires
        call_ensures(read_ca, (config, pem), outcome),
    ensures
        outcome.0.pem() == pem@,
        outcome.0.refusal() is None && config.client_cert_path is None ==> outcome.1 is Done,
        outcome.0.refusal() is None && config.client_cert_path is Some ==> outcome.1
            is ReadClientCert && outcome.1->ReadClientCert_path
            == config.client_cert_path->Some_0,
        outcome.0.refusal() is Some ==> outcome.1 is Failed && outcome.1->message@
            == "Ошибка парсинга CA сертификата: "@ + outcome.0.refusal()->Some_0,
{
}

/// The identity of the client is what is read of these very bytes, those of the
/// certificate and those of the key. Where it is one, the setup is done; where it is none,
/// it ends with the reason.
pub proof fn identity_is_read_of_its_bytes(
    config: &SSLConfig,
    cert_pem: Vec<u8>,
    key_pem: Vec<u8>,
    outcome: (IdentityReading, SslStep),
)
    requires
        call_ensures(read_identity, (config, cert_pem, key_pem), outcome),
    ensures
        outcome.0.cert_pem() == cert_pem@,
        outcome.0.key_pem() == key_pem@,
        outcome.0.refusal() is None ==> outcome.1 is Done,
        outcome.0.refusal() is Some ==> outcome.1 is Failed && outcome.1->message@
            == "Ошибка создания Identity (mTLS): "@ + outcome.0.refusal()->Some_0,
{
}

/// A certificate is handed out exactly where the bytes were not refused.
pub proof fn certificate_comes_unless_refused(
    reading: CaReading,
    certificate: Option<reqwest::Certificate>,
    reason: Option<String>,
)
    requires
        call_ensures(CaReading::into_certificate, (reading,), certificate),
        call_ensures(CaReading::reason, (&reading,), reason),
    ensures
        certificate is Some <==> reason is None,
        certificate is Some <==> reading.refusal() is None,
        certificate is None ==> reason->Some_0@ == reading.refusal()->Some_0,
{
}

/// An identity is handed out exactly where the bytes were not refused.
pub proof fn identity_comes_unless_refused(
    reading: IdentityReading,
    identity: Option<reqwest::Identity>,
    reason: Option<String>,
)
    requires
        call_ensures(IdentityReading::into_identity, (reading,), identity),
        call_ensures(IdentityReading::reason, (&reading,), reason),
    ensures
        identity is Some <==> reason is None,
        identity is Some <==> reading.refusal() is None,
        identity is None ==> reason->Some_0@ == reading.refusal()->Some_0,
{
}

/// Bytes fit exactly where an `i32` counts them.
pub proof fn bytes_fit_where_they_can_be_counted(pem: &Vec<u8>, fits_all: bool)
    requires
        call_ensures(pem_fits, (pem,), fits_all),
    ensures
        fits_all <==> pem@.len() <= 2_147_483_647,
{
}

/// A payload goes to a file whose name is made of the task's identifier and the time, in
/// the directory that is asked for, if that says something, and is compressed so that it
/// can be had back.
pub proof fn payload_goes_where_it_belongs(
    task_id: &str,
    payload: &str,
    custom_dir: Option<&str>,
    clock_ms: Option<u128>,
    plan: SavePlan,
)
    requires
        call_ensures(plan_response_payload, (task_id, payload, custom_dir, clock_ms), plan),
    ensures
        exists|digits: Seq<char>|
            #![trigger number_read(digits)]
            plan.file_name@ == "1c_addin_"@ + task_id@ + "_"@ + digits + ".json.gz"@
                && number_read(digits) == match clock_ms {
                Some(millis) => millis as int,
                None => 0,
            },
        plan.directory is Some <==> custom_dir is Some && says_something(custom_dir->Some_0@),
        plan.directory is Some ==> plan.directory->Some_0@ == custom_dir->Some_0@,
        plan.contents is Ok ==> gunzip(plan.contents->Ok_0@) == Some(payload.spec_bytes()),
        plan.contents is Ok ==> gzip(payload.spec_bytes(), 1) == Ok::<Seq<u8>, Seq<char>>(
            plan.contents->Ok_0@,
        ),
        plan.contents is Err ==> gzip(payload.spec_bytes(), 1) == Err::<Seq<u8>, Seq<char>>(
            plan.contents->Err_0@,
        ),
{
    let millis: u128 = match clock_ms {
        Some(millis) => millis,
        None => 0,
    };
    lemma_decimal_reads_back(millis as nat);
    let digits = decimal_text(millis as nat);
    assert(number_read(digits) == millis);
    assert(plan.file_name@ == "1c_addin_"@ + task_id@ + "_"@ + digits + ".json.gz"@);
}

/// What is told of a payload: where it lies, or why it does not.
pub proof fn save_is_told_as_it_went(outcome: SaveOutcome, result: SavePayloadResult)
    requires
        call_ensures(save_result, (outcome,), result),
    ensures
        outcome is Saved ==> result.is_saved_to_disk && result.error is None
            && result.absolute_path is Some && result.absolute_path->Some_0@
            == outcome->Saved_path@,
        !(outcome is Saved) ==> !result.is_saved_to_disk && result.error is Some
            && result.absolute_path is None,
        outcome is NotCreated ==> result.error->Some_0@
            == "Кластер не смог создать файл по пути "@ + outcome->NotCreated_path@ + ": "@
            + outcome->NotCreated_reason@,
        outcome is NotWritten ==> result.error->Some_0@ == "Ошибка закрытия gzip-дескриптора: "@
            + outcome->NotWritten_reason@,
{
}

/// What is told of a host: it is alive where it answers with a status of 200 or above, no
/// error is told from 200 to 299, and the time is that of the answer.
pub proof fn ping_is_told_as_it_went(outcome: PingOutcome, result: PingResult)
    requires
        call_ensures(ping_result, (outcome,), result),
    ensures
        result.is_alive <==> outcome is Answered && outcome->status >= 200,
        result.error is None <==> outcome is Answered && 200 <= outcome->status <= 299,
        outcome is Answered ==> result.latency_ms == outcome->Answered_elapsed_ms
            % 0x1_0000_0000_0000_0000,
        outcome is Unreachable ==> result.latency_ms == outcome->Unreachable_elapsed_ms
            % 0x1_0000_0000_0000_0000,
        outcome is NoClient ==> result.latency_ms == 0,
        outcome is Answered && result.error is Some ==> exists|digits: Seq<char>|
            #![trigger number_read(digits)]
            number_read(digits) == outcome->status && result.error->Some_0@ == "Статус ответа: "@
                + digits + " "@ + reason_phrase(outcome->status),
        outcome is NoClient ==> result.error->Some_0@ == "Ошибка создания HTTP-клиента для пинга: "@
            + outcome->NoClient_reason@,
        outcome is Unreachable ==> result.error->Some_0@ == "Хост недоступен: "@
            + outcome->Unreachable_reason@,
{
    if outcome is Answered {
        let elapsed = outcome->Answered_elapsed_ms;
        assert(elapsed as u64 == elapsed % 0x1_0000_0000_0000_0000) by (bit_vector);
        let digits = decimal_text(outcome->status as nat);
        lemma_decimal_reads_back(outcome->status as nat);
        assert(number_read(digits) == outcome->status);
    }
    if outcome is Unreachable {
        let elapsed = outcome->Unreachable_elapsed_ms;
        assert(elapsed as u64 == elapsed % 0x1_0000_0000_0000_0000) by (bit_vector);
    }
}

/// A request is tried again three times, the first time after a tenth of a second, and
/// each time after twice the time before.
pub proof fn requests_are_tried_again(policy: RetryPolicy)
    requires
        call_ensures(retry_policy, (), policy),
    ensures
        policy.retries == 3,
        policy.first_delay_ms * 10 == 1000,
        policy.factor == 2,
{
}

/// A new component has its version and no settings.
pub proof fn component_starts_without_settings(addin: NetworkAddIn, by_default: NetworkAddIn)
    requires
        call_ensures(NetworkAddIn::new, (), addin),
        call_ensures(NetworkAddIn::default, (), by_default),
    ensures
        addin.cache is None,
        addin.version@ == seq!['1', '.', '0', '.', '0'],
        by_default.cache is None,
        by_default.version@ == addin.version@,
{
    reveal_strlit("1.0.0");
}

/// Whoever asks for the cache gets it, or is told that the settings are missing.
pub proof fn cache_is_had_once_settings_are_known(
    addin: &NetworkAddIn,
    result: Result<&AddInCache, String>,
)
    requires
        call_ensures(NetworkAddIn::get_cache, (addin,), result),
    ensures
        result is Ok <==> addin.cache is Some,
        result is Ok ==> *result->Ok_0 == addin.cache->Some_0,
        result is Err ==> result->Err_0@
            == "Критическая ошибка: Движок не инициализирован! Сначала необходимо вызвать метод Настроить()."@,
{
}

/// The cache holds these settings, each in the place of the same name.
pub open spec fn holds_settings(cache: AddInCache, settings: AddInSettingsManifest) -> bool {
    &&& cache.max_rows == settings.max_rows
    &&& cache.max_duration == settings.secs_timeouts
    &&& cache.ssl_config.danger_accept_invalid_certs == settings.danger_accept_invalid_certs
    &&& cache.ssl_config.ca_cert_path == settings.ca_cert_path
    &&& cache.ssl_config.client_cert_path == settings.client_cert_path
    &&& cache.ssl_config.client_key_path == settings.client_key_path
}

/// Settings that were read are taken over, each in its place, with an empty queue from
/// which nobody takes tasks yet and no results. Otherwise nothing changes, and the host
/// is told why.
pub proof fn settings_are_taken_over(
    addin: &mut NetworkAddIn,
    json: &str,
    parsed: Result<AddInSettingsManifest, JsonFault>,
    result: Result<(), String>,
)
    requires
        call_ensures(NetworkAddIn::ffi_configure, (addin, json, parsed), result),
    ensures
        result is Ok <==> says_something(json@) && parsed is Ok,
        result is Ok ==> {
            &&& final(addin).version == old(addin).version
            &&& final(addin).cache is Some
            &&& holds_settings(final(addin).cache->Some_0, parsed->Ok_0)
            &&& final(addin).cache->Some_0.wf()
            &&& final(addin).cache->Some_0.undisturbed()
            &&& final(addin).cache->Some_0.queue().len() == 0
            &&& forall|key: Seq<char>|
                !#[trigger] final(addin).cache->Some_0.results().contains_key(key)
        },
        result is Err ==> *final(addin) == *old(addin),
        !says_something(json@) ==> result->Err_0@
            == "1С передала пустую строку вместо JSON-данных"@,
        says_something(json@) && parsed is Err ==> tells_of_fault(
            result->Err_0@,
            parsed->Err_0,
        ),
{
    if parsed is Err {
        lemma_tells_of_fault(parsed->Err_0);
    }
}

/// The files that the settings name are the ones that a setup uses, each for what the
/// settings name it for.
pub proof fn setup_uses_the_files_of_the_settings(
    addin: &mut NetworkAddIn,
    json: &str,
    parsed: Result<AddInSettingsManifest, JsonFault>,
    steps: Seq<SslStep>,
    events: Seq<SslEvent>,
    at: int,
)
    requires
        call_ensures(NetworkAddIn::ffi_configure, (addin, json, parsed), Ok::<(), String>(())),
        setup_runs(final(addin).cache->Some_0.ssl_config, steps, events),
        0 <= at < steps.len(),
    ensures
        steps[at] is AddCa ==> at > 0 && parsed->Ok_0.ca_cert_path is Some && steps[at - 1] == (
        SslStep::ReadCa { path: parsed->Ok_0.ca_cert_path->Some_0 }) && events[at - 1]
            == SslEvent::Contents(steps[at]->pem),
        steps[at] is AddIdentity ==> at > 1 && parsed->Ok_0.client_cert_path is Some
            && parsed->Ok_0.client_key_path is Some && steps[at - 2] == (SslStep::ReadClientCert {
            path: parsed->Ok_0.client_cert_path->Some_0,
        }) && events[at - 2] == SslEvent::Contents(steps[at]->AddIdentity_cert_pem) && steps[at - 1]
            is ReadClientKey && steps[at - 1]->ReadClientKey_path
            == parsed->Ok_0.client_key_path->Some_0 && events[at - 1] == SslEvent::Contents(
            steps[at]->key_pem,
        ),
{
    let config = final(addin).cache->Some_0.ssl_config;
    if steps[at] is AddCa {
        authority_is_that_of_the_settings(config, steps, events, at);
    }
    if steps[at] is AddIdentity {
        identity_is_that_of_the_settings(config, steps, events, at);
    }
}

/// A batch that was read is offered whole: there is one answer for each description.
/// Otherwise nothing changes, and the host is told why.
pub proof fn every_task_of_a_batch_is_answered(
    addin: &mut NetworkAddIn,
    json: &str,
    parsed: Result<AddInBatchManifest, JsonFault>,
    result: Result<Vec<PushResult>, Refusal>,
)
    requires
        old(addin).wf(),
        call_ensures(NetworkAddIn::ffi_push_tasks, (addin, json, parsed), result),
    ensures
        final(addin).wf(),
        result is Ok <==> old(addin).cache is Some && says_something(json@) && parsed is Ok,
        result is Ok ==> {
            let before = old(addin).cache->Some_0;
            let after = final(addin).cache->Some_0;
            &&& final(addin).version == old(addin).version
            &&& final(addin).cache is Some
            &&& after == (AddInCache { tasks: after.tasks, ..before })
            &&& result->Ok_0@.len() == parsed->Ok_0.tasks@.len()
            &&& after.queue().len() <= before.max_rows
            &&& forall|i: int|
                0 <= i < result->Ok_0@.len() ==> #[trigger] result->Ok_0@[i] == PushResult::Accepted
                    || result->Ok_0@[i] == PushResult::QueueFull
            &&& before.queue().len() + parsed->Ok_0.tasks@.len() <= before.max_rows
                ==> forall|i: int|
                0 <= i < result->Ok_0@.len() ==> #[trigger] result->Ok_0@[i]
                    == PushResult::Accepted
        },
        result is Err ==> *final(addin) == *old(addin),
        old(addin).cache is None ==> result->Err_0 is NotConfigured && result->Err_0->NotConfigured_message@
            == "Критическая ошибка: Движок не инициализирован! Сначала необходимо вызвать метод Настроить()."@,
        old(addin).cache is Some && !says_something(json@) ==> result->Err_0 is Unreadable
            && result->Err_0->Unreadable_message@
            == "1С передала пустую строку вместо JSON-данных"@,
        old(addin).cache is Some && says_something(json@) && parsed is Err ==> result->Err_0
            is Unreadable && tells_of_fault(result->Err_0->Unreadable_message@, parsed->Err_0),
{
    if parsed is Err {
        lemma_tells_of_fault(parsed->Err_0);
    }
    if result is Ok {
        let before = old(addin).cache->Some_0;
        let after = final(addin).cache->Some_0;
        let tasks = described_tasks(parsed->Ok_0);
        let results = result->Ok_0@;
        let taken = choose|taken: Seq<int>| #[trigger]
            all_offered_after(
                before.queue(),
                taken,
                before.max_rows,
                tasks,
                results,
                after.queue(),
            );
        lemma_answers(before.queue(), taken, before.max_rows, tasks, results, after.queue());
        if before.queue().len() + tasks.len() <= before.max_rows {
            batch_with_room_is_taken_whole(
                before.queue(),
                before.max_rows,
                tasks,
                results,
                after.queue(),
            );
        }
    }
}

proof fn lemma_answers(
    before: Seq<NetworkTask>,
    taken: Seq<int>,
    capacity: usize,
    tasks: Seq<NetworkTask>,
    results: Seq<PushResult>,
    after: Seq<NetworkTask>,
)
    requires
        all_offered_after(before, taken, capacity, tasks, results, after),
    ensures
        results.len() == tasks.len(),
        forall|i: int|
            0 <= i < results.len() ==> #[trigger] results[i] == PushResult::Accepted || results[i]
                == PushResult::QueueFull,
    decreases tasks.len(),
{
    if tasks.len() > 0 {
        let between = choose|between: Seq<NetworkTask>|
            all_offered_after(
                before,
                taken.drop_last(),
                capacity,
                tasks.drop_last(),
                results.drop_last(),
                between,
            ) && #[trigger] offered_after(
                between,
                taken.last(),
                capacity,
                tasks.last(),
                results.last(),
                after,
            );
        lemma_answers(
            before,
            taken.drop_last(),
            capacity,
            tasks.drop_last(),
            results.drop_last(),
            between,
        );
        assert forall|i: int| 0 <= i < results.len() implies #[trigger] results[i]
            == PushResult::Accepted || results[i] == PushResult::QueueFull by {
            if i < results.len() - 1 {
                assert(results[i] == results.drop_last()[i]);
            } else {
                assert(results[i] == results.last());
            }
        }
    }
}

/// Where nobody takes tasks out of the queue, it holds after a batch what it held before
/// and behind that one task for each description, in the order of the batch, as far as
/// there is room; a description is answered accordingly.
pub proof fn batch_goes_to_an_undisturbed_queue(
    addin: &mut NetworkAddIn,
    json: &str,
    parsed: Result<AddInBatchManifest, JsonFault>,
    result: Result<Vec<PushResult>, Refusal>,
)
    requires
        old(addin).wf(),
        old(addin).cache is Some,
        old(addin).cache->Some_0.undisturbed(),
        says_something(json@),
        parsed is Ok,
        call_ensures(NetworkAddIn::ffi_push_tasks, (addin, json, parsed), result),
    ensures
        ({
            let batch = parsed->Ok_0.tasks@;
            let before = old(addin).cache->Some_0;
            let after = final(addin).cache->Some_0;
            let room = before.max_rows - before.queue().len();
            &&& result is Ok
            &&& after.undisturbed()
            &&& after.queue().len() == before.queue().len() + if batch.len() <= room {
                batch.len() as int
            } else {
                room
            }
            &&& forall|i: int|
                0 <= i < before.queue().len() ==> #[trigger] after.queue()[i] == before.queue()[i]
            &&& forall|i: int|
                before.queue().len() <= i < after.queue().len() ==> same_entries(
                    #[trigger] after.queue()[i],
                    batch[i - before.queue().len()],
                )
            &&& result->Ok_0@.len() == batch.len()
            &&& forall|i: int|
                0 <= i < batch.len() ==> (#[trigger] result->Ok_0@[i] == PushResult::Accepted <==> i
                    < room)
        }),
{
    let batch = parsed->Ok_0.tasks@;
    let before = old(addin).cache->Some_0;
    let after = final(addin).cache->Some_0;
    let tasks = described_tasks(parsed->Ok_0);
    assert(all_offered_alone(
        before.queue(),
        before.max_rows,
        tasks,
        result->Ok_0@,
        after.queue(),
    ));
    assert forall|i: int| before.queue().len() <= i < after.queue().len() implies same_entries(
        #[trigger] after.queue()[i],
        batch[i - before.queue().len()],
    ) by {
        assert(after.queue()[i] == tasks[i - before.queue().len()]);
    }
}

/// A list of identifiers that was read out of a text of the host has its results
/// forgotten, and no others; the host is told how many were named. Otherwise nothing
/// changes, and the host is told why.
pub proof fn named_results_are_confirmed(
    addin: &mut NetworkAddIn,
    task_ids: Result<Vec<String>, String>,
    result: Result<usize, Refusal>,
    key: Seq<char>,
)
    requires
        call_ensures(NetworkAddIn::ack_named_results, (addin, task_ids), result),
    ensures
        result is Ok <==> old(addin).cache is Some && task_ids is Ok,
        result is Ok ==> {
            let before = old(addin).cache->Some_0;
            let after = final(addin).cache->Some_0;
            &&& result->Ok_0 == task_ids->Ok_0@.len()
            &&& final(addin).version == old(addin).version
            &&& final(addin).cache is Some
            &&& after == (AddInCache { output_storage: after.output_storage, ..before })
            &&& after.results().contains_key(key) <==> before.results().contains_key(key)
                && !listed(task_ids->Ok_0@, key)
            &&& after.results().contains_key(key) ==> after.results()[key] == before.results()[key]
        },
        result is Err ==> *final(addin) == *old(addin),
        old(addin).cache is None ==> result->Err_0 is NotConfigured && result->Err_0->NotConfigured_message@
            == "Критическая ошибка: Движок не инициализирован! Сначала необходимо вызвать метод Настроить()."@,
        old(addin).cache is Some && task_ids is Err ==> result->Err_0 is Unreadable
            && result->Err_0->Unreadable_message@ == task_ids->Err_0@,
{
    if task_ids is Ok {
        lemma_listed(task_ids->Ok_0@, key);
    }
}

/// The host confirms results by a JSON list of their identifiers, as `serde_json` reads
/// it: these are forgotten and no others.
pub proof fn host_confirms_what_it_lists(
    addin: &mut NetworkAddIn,
    json: &str,
    result: Result<usize, Refusal>,
    key: Seq<char>,
)
    requires
        call_ensures(NetworkAddIn::ffi_ack_results, (addin, json), result),
    ensures
        result is Ok <==> old(addin).cache is Some && says_something(json@) && json_strings(json@)
            is Ok,
        result is Ok ==> {
            let before = old(addin).cache->Some_0;
            let after = final(addin).cache->Some_0;
            &&& result->Ok_0 == json_strings(json@)->Ok_0.len()
            &&& final(addin).version == old(addin).version
            &&& final(addin).cache is Some
            &&& after == (AddInCache { output_storage: after.output_storage, ..before })
            &&& after.results().contains_key(key) <==> before.results().contains_key(key)
                && !(exists|i: int|
                0 <= i < json_strings(json@)->Ok_0.len() && #[trigger] json_strings(json@)->Ok_0[i]
                    == key)
            &&& after.results().contains_key(key) ==> after.results()[key] == before.results()[key]
        },
        result is Err ==> *final(addin) == *old(addin),
        old(addin).cache is None ==> result->Err_0 is NotConfigured && result->Err_0->NotConfigured_message@
            == "Критическая ошибка: Движок не инициализирован! Сначала необходимо вызвать метод Настроить()."@,
        old(addin).cache is Some && !says_something(json@) ==> result->Err_0 is Unreadable
            && result->Err_0->Unreadable_message@
            == "1С передала пустую строку вместо JSON-данных"@,
        old(addin).cache is Some && says_something(json@) && json_strings(json@) is Err
            ==> result->Err_0 is Unreadable && tells_of_place(
            result->Err_0->Unreadable_message@,
            json_strings(json@)->Err_0.0,
            json_strings(json@)->Err_0.1,
            json_strings(json@)->Err_0.2,
        ),
{
    if json_strings(json@) is Err {
        let fault = json_strings(json@)->Err_0;
        lemma_tells_of_place(fault.0, fault.1, fault.2);
    }
}

/// A list that was written and comes back from the host confirms exactly its strings.
pub proof fn host_confirms_the_list_that_was_written(
    list: &Vec<String>,
    json: String,
    text: &str,
    addin: &mut NetworkAddIn,
    result: Result<usize, Refusal>,
    key: Seq<char>,
)
    requires
        old(addin).cache is Some,
        call_ensures(serialize_strings, (list,), json),
        text@ == json@,
        call_ensures(NetworkAddIn::ffi_ack_results, (addin, text), result),
    ensures
        result is Ok,
        result->Ok_0 == list@.len(),
        final(addin).cache is Some,
        final(addin).cache->Some_0.results().contains_key(key) <==> old(
            addin,
        ).cache->Some_0.results().contains_key(key) && !listed(list@, key),
{
    lemma_listed(list@, key);
}

} // verus!
