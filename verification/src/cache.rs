//! Tasks on their way to the network, and the results that wait to be fetched.
use crate::clock::{seconds_since_epoch, ClockReading};
#[allow(unused_imports)]
use crate::clock::unix_time;
use crate::https::SSLConfig;
use crate::queue::TaskQueue;
#[allow(unused_imports)]
use crate::queue::{channel_fits, offered, offered_alone, offers_keep_the_bound};
use crate::storage::{list_results, new_storage, remove_result, retain_fresh};
#[allow(unused_imports)]
use crate::storage::{lists, stored};
#[allow(unused_imports)]
use crate::text::texts;
use crossbeam_channel::Receiver;
use dashmap::DashMap;
use std::collections::HashMap;
use vstd::prelude::*;

verus! {

/// A request to be sent.
#[derive(Debug, Clone)]
pub struct NetworkTask {
    pub task_id: String,
    pub service_name: String,
    pub url: String,
    pub metod: String,
    pub headers: HashMap<String, String>,
    pub payload: String,
}

/// What came of a task.
#[derive(Debug)]
pub struct NetworkResult {
    pub task_id: String,
    pub service_name: String,
    pub status_code: u16,
    pub response_body: String,
    pub error: Option<String>,
    pub unix_timestamp: u64,
}

impl Clone for NetworkResult {
    fn clone(&self) -> (copy: Self)
        ensures
            copy == *self,
    {
        NetworkResult {
            task_id: self.task_id.clone(),
            service_name: self.service_name.clone(),
            status_code: self.status_code,
            response_body: self.response_body.clone(),
            error: self.error.clone(),
            unix_timestamp: self.unix_timestamp,
        }
    }
}

/// The answer to a caller who offered a task.
#[derive(Debug, PartialEq, Eq, Structural)]
pub enum PushResult {
    Accepted,
    QueueFull,
    RuntimeDisconnected,
}

/// Whether a result may stay at time `now`: it is not older than `max_age` seconds. One
/// from the future may.
pub open spec fn fresh(result: NetworkResult, now: u64, max_age: u64) -> bool {
    now - result.unix_timestamp <= max_age
}

/// The results that may stay at time `now`.
pub open spec fn fresh_results(
    results: Map<Seq<char>, NetworkResult>,
    now: u64,
    max_age: u64,
) -> Map<Seq<char>, NetworkResult> {
    Map::new(
        |key: Seq<char>| results.contains_key(key) && fresh(results[key], now, max_age),
        |key: Seq<char>| results[key],
    )
}

/// Tells whether a result may stay at time `now`.
pub fn is_fresh(result: &NetworkResult, now: u64, max_age: u64) -> (keep: bool)
    ensures
        keep == fresh(*result, now, max_age),
{
    if now >= result.unix_timestamp && (now - result.unix_timestamp) > max_age {
        false
    } else {
        true
    }
}

/// The text of a filter.
pub open spec fn filter_text(filter_service: Option<&str>) -> Option<Seq<char>> {
    match filter_service {
        Some(service) => Some(service@),
        None => None,
    }
}

/// Whether a result is of the service that is asked for, if one is.
pub open spec fn of_service(result: NetworkResult, service: Option<Seq<char>>) -> bool {
    service matches Some(name) ==> result.service_name@ == name
}

/// The results of a listing that are of the service, in the order of the listing.
pub open spec fn matching(
    listing: Seq<NetworkResult>,
    service: Option<Seq<char>>,
) -> Seq<NetworkResult> {
    listing.filter(|result: NetworkResult| of_service(result, service))
}

/// The first `limit` of the results that are of the service; all of them where `limit`
/// is zero.
pub open spec fn selected(
    listing: Seq<NetworkResult>,
    service: Option<Seq<char>>,
    limit: usize,
) -> Seq<NetworkResult> {
    let found = matching(listing, service);
    if 0 < limit < found.len() {
        found.take(limit as int)
    } else {
        found
    }
}

/// One more result at the end of a listing shows at the end of its matches, or not at
/// all.
proof fn lemma_matching_push(
    listing: Seq<NetworkResult>,
    result: NetworkResult,
    service: Option<Seq<char>>,
)
    ensures
        matching(listing.push(result), service) == if of_service(result, service) {
            matching(listing, service).push(result)
        } else {
            matching(listing, service)
        },
{
    reveal(Seq::filter);
    assert(listing.push(result).drop_last() =~= listing);
}

/// The matches of a listing are those of its first part, followed by those of the rest.
proof fn lemma_matching_split(listing: Seq<NetworkResult>, at: int, service: Option<Seq<char>>)
    requires
        0 <= at <= listing.len(),
    ensures
        matching(listing, service) == matching(listing.take(at), service) + matching(
            listing.skip(at),
            service,
        ),
{
    Seq::filter_distributes_over_add(
        listing.take(at),
        listing.skip(at),
        |result: NetworkResult| of_service(result, service),
    );
    assert(listing.take(at) + listing.skip(at) =~= listing);
}

/// Picks the first `limit` results of a service out of a listing; all of them where
/// `limit` is zero.
pub fn select_results(
    listing: Vec<NetworkResult>,
    filter_service: Option<&str>,
    limit: usize,
) -> (extracted: Vec<NetworkResult>)
    ensures
        extracted@ == selected(listing@, filter_text(filter_service), limit),
{
    let wanted = match filter_service {
        Some(service) => Some(service.to_owned()),
        None => None,
    };
    let ghost service = filter_text(filter_service);
    let ghost all = listing@;
    let mut extracted: Vec<NetworkResult> = Vec::new();
    for result in results: listing
        invariant
            results.seq() == all,
            service == filter_text(filter_service),
            wanted is Some <==> service is Some,
            wanted matches Some(name) ==> service == Some(name@),
            extracted@ == matching(all.take(results.index()), service),
            limit > 0 ==> extracted@.len() <= limit,
            all == listing@,
    {
        let ghost at = results.index();
        proof {
            assert(all.take(at + 1) =~= all.take(at).push(all[at]));
            lemma_matching_push(all.take(at), all[at], service);
        }
        if limit > 0 && extracted.len() >= limit {
            proof {
                lemma_matching_split(all, at, service);
                assert(matching(all, service).take(limit as int) =~= extracted@);
                assert(extracted@ =~= selected(all, service, limit));
            }
            return extracted;
        }
        let matches_filter = match &wanted {
            Some(name) => result.service_name == *name,
            None => true,
        };
        if matches_filter {
            extracted.push(result);
        }
    }
    proof {
        assert(all.take(all.len() as int) =~= all);
    }
    extracted
}

/// Tasks on their way to the network, and the results that wait to be fetched.
pub struct AddInCache {
    pub tasks: TaskQueue,
    pub output_storage: DashMap<String, NetworkResult>,
    pub max_rows: usize,
    /// In seconds: how long a request may take, and how long a result is kept.
    pub max_duration: u64,
    pub ssl_config: SSLConfig,
}

/// The results that are left when those with the identifiers of the list are gone.
pub open spec fn unacknowledged(
    results: Map<Seq<char>, NetworkResult>,
    task_ids: Seq<Seq<char>>,
) -> Map<Seq<char>, NetworkResult> {
    Map::new(
        |key: Seq<char>| results.contains_key(key) && !task_ids.contains(key),
        |key: Seq<char>| results[key],
    )
}

impl AddInCache {
    /// The tasks that wait for the engine, oldest first, as the last push left them.
    pub open spec fn queue(self) -> Seq<NetworkTask> {
        self.tasks.waiting()
    }

    /// The results that wait to be fetched, by task identifier.
    pub open spec fn results(self) -> Map<Seq<char>, NetworkResult> {
        stored(self.output_storage)
    }

    /// Nobody takes tasks out of the queue.
    pub open spec fn undisturbed(self) -> bool {
        self.tasks.undisturbed()
    }

    /// The queue has room for `max_rows` tasks and holds no more.
    pub open spec fn wf(self) -> bool {
        &&& self.tasks.wf()
        &&& self.tasks.capacity() == self.max_rows
        &&& self.queue().len() <= self.max_rows
    }

    /// Nothing but the queue differs.
    pub open spec fn same_but_queue(self, other: Self) -> bool {
        &&& self.output_storage == other.output_storage
        &&& self.max_rows == other.max_rows
        &&& self.max_duration == other.max_duration
        &&& self.ssl_config == other.ssl_config
    }

    /// Nothing but the stored results differs.
    pub open spec fn same_but_results(self, other: Self) -> bool {
        &&& self.tasks == other.tasks
        &&& self.max_rows == other.max_rows
        &&& self.max_duration == other.max_duration
        &&& self.ssl_config == other.ssl_config
    }

    /// An empty cache with room for `max_rows` waiting tasks.
    pub fn new(max_rows: usize, secs_timeouts: u64, ssl_config: SSLConfig) -> (cache: Self)
        requires
            channel_fits(max_rows),
        ensures
            cache.wf(),
            cache.undisturbed(),
            cache.queue() == Seq::<NetworkTask>::empty(),
            (cache.results() == Map::<Seq<char>, NetworkResult>::empty()),
            cache.max_rows == max_rows,
            cache.max_duration == secs_timeouts,
            cache.ssl_config == ssl_config,
    {
        AddInCache {
            tasks: TaskQueue::new(max_rows),
            output_storage: new_storage(),
            max_rows,
            max_duration: secs_timeouts,
            ssl_config,
        }
    }

    /// Forgets the results with these identifiers. An identifier without a result is
    /// passed over.
    pub fn ack_result(&mut self, task_ids: Vec<String>)
        ensures
            final(self).results() == unacknowledged(old(self).results(), texts(task_ids@)),
            final(self).same_but_results(*old(self)),
    {
        let ghost before = self.results();
        let ghost ids = texts(task_ids@);
        let mut next: usize = 0;
        proof {
            assert(unacknowledged(before, ids.take(0)) =~= before);
        }
        while next < task_ids.len()
            invariant
                next <= task_ids.len(),
                before == old(self).results(),
                ids == texts(task_ids@),
                self.results() == unacknowledged(before, ids.take(next as int)),
                self.same_but_results(*old(self)),
            decreases task_ids.len() - next,
        {
            remove_result(&mut self.output_storage, &task_ids[next]);
            proof {
                lemma_one_more_acknowledged(before, ids, next as int);
            }
            next += 1;
        }
        proof {
            assert(ids.take(task_ids.len() as int) =~= ids);
        }
    }

    /// Puts a task behind those that wait for the engine, or turns it away because
    /// `max_rows` tasks already wait. Where nobody takes tasks out, that is all there is
    /// to it.
    pub fn push_task(&mut self, task: NetworkTask) -> (result: PushResult)
        requires
            old(self).wf(),
        ensures
            final(self).wf(),
            final(self).same_but_queue(*old(self)),
            final(self).undisturbed() == old(self).undisturbed(),
            offered(old(self).queue(), old(self).max_rows, task, result, final(self).queue()),
            old(self).undisturbed() ==> offered_alone(
                old(self).queue(),
                old(self).max_rows,
                task,
                result,
                final(self).queue(),
            ),
            result != PushResult::RuntimeDisconnected,
            old(self).queue().len() < old(self).max_rows ==> result == PushResult::Accepted,
    {
        let result = self.tasks.offer(task);
        proof {
            offers_keep_the_bound(
                old(self).queue(),
                old(self).max_rows,
                task,
                result,
                self.queue(),
            );
        }
        result
    }

    /// Hands out a receiver of the tasks. From then on tasks may be taken out at any time.
    pub fn task_receiver(&mut self) -> (receiver: Receiver<NetworkTask>)
        requires
            old(self).wf(),
        ensures
            final(self).wf(),
            final(self).same_but_queue(*old(self)),
            final(self).queue() == old(self).queue(),
            final(self).tasks.feeds(receiver),
    {
        self.tasks.receiver()
    }

    /// Copies out the results of a service, or of all services, at most `limit` of them
    /// where that is not zero. They stay in the cache.
    pub fn pop_results(&self, filter_service: Option<&str>, limit: usize) -> (extracted: Vec<
        NetworkResult,
    >)
        ensures
            popped(self.results(), filter_text(filter_service), limit, extracted@),
    {
        let listing = list_results(&self.output_storage);
        let ghost listed = listing@;
        let extracted = select_results(listing, filter_service, limit);
        proof {
            assert(popped_from(
                self.results(),
                listed,
                filter_text(filter_service),
                limit,
                extracted@,
            ));
        }
        extracted
    }

    /// Forgets the results that are older than `max_duration` seconds at time `now`.
    pub fn clear_expired_at(&mut self, now: u64)
        ensures
            final(self).results() == fresh_results(
                old(self).results(),
                now,
                old(self).max_duration,
            ),
            final(self).same_but_results(*old(self)),
    {
        retain_fresh(&mut self.output_storage, now, self.max_duration);
    }

    /// Forgets the results that are older than `max_duration` seconds now, and gives the
    /// look at the clock by which they were judged.
    pub fn clear_expired(&mut self) -> (reading: ClockReading)
        ensures
            final(self).results() == fresh_results(
                old(self).results(),
                unix_time(reading.shown()),
                old(self).max_duration,
            ),
            final(self).same_but_results(*old(self)),
    {
        let reading = seconds_since_epoch();
        self.clear_expired_at(reading.time());
        reading
    }
}

/// `extracted` is what a reader gets out of this listing of `results`.
pub open spec fn popped_from(
    results: Map<Seq<char>, NetworkResult>,
    listing: Seq<NetworkResult>,
    service: Option<Seq<char>>,
    limit: usize,
    extracted: Seq<NetworkResult>,
) -> bool {
    lists(results, listing) && extracted == selected(listing, service, limit)
}

/// `extracted` is what a reader gets out of `results`, which may be listed in any order.
pub open spec fn popped(
    results: Map<Seq<char>, NetworkResult>,
    service: Option<Seq<char>>,
    limit: usize,
    extracted: Seq<NetworkResult>,
) -> bool {
    exists|listing: Seq<NetworkResult>| #[trigger]
        popped_from(results, listing, service, limit, extracted)
}

/// Taking out the result of one more identifier.
proof fn lemma_one_more_acknowledged(
    results: Map<Seq<char>, NetworkResult>,
    task_ids: Seq<Seq<char>>,
    at: int,
)
    requires
        0 <= at < task_ids.len(),
    ensures
        unacknowledged(results, task_ids.take(at)).remove(task_ids[at]) == unacknowledged(
            results,
            task_ids.take(at + 1),
        ),
{
    let done = task_ids.take(at);
    let more = task_ids.take(at + 1);
    assert(more =~= done.push(task_ids[at]));
    assert forall|key: Seq<char>| more.contains(key) <==> done.contains(key) || task_ids[at]
        == key by {
        if done.contains(key) {
            let i = done.index_of(key);
            assert(more[i] == key);
        }
        assert(more[at] == task_ids[at]);
        if more.contains(key) {
            let i = more.index_of(key);
            if i < at {
                assert(done[i] == key);
            }
        }
    }
    assert(unacknowledged(results, done).remove(task_ids[at]) =~= unacknowledged(results, more));
}

} // verus!
