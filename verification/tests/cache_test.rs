use network_engine::cache::{
    is_fresh, select_results, AddInCache, NetworkResult, NetworkTask, PushResult,
};
use network_engine::clock::unix_time_of;
use network_engine::http_engine::{finish_task, RequestOutcome};
use network_engine::https::SSLConfig;
use network_engine::queue::{push_result_of, queue_fits, SendOutcome};
use std::collections::HashMap;

fn cache(max_rows: usize, secs: u64) -> AddInCache {
    AddInCache::new(
        max_rows,
        secs,
        SSLConfig {
            danger_accept_invalid_certs: false,
            ca_cert_path: None,
            client_cert_path: None,
            client_key_path: None,
        },
    )
}

fn task(task_id: &str, service_name: &str) -> NetworkTask {
    NetworkTask {
        task_id: task_id.to_string(),
        service_name: service_name.to_string(),
        url: "https://example.org".to_string(),
        metod: "GET".to_string(),
        headers: HashMap::new(),
        payload: String::new(),
    }
}

fn result(task_id: &str, service_name: &str, unix_timestamp: u64) -> NetworkResult {
    NetworkResult {
        task_id: task_id.to_string(),
        service_name: service_name.to_string(),
        status_code: 200,
        response_body: "ok".to_string(),
        error: None,
        unix_timestamp,
    }
}

fn answered(body: &str) -> RequestOutcome {
    RequestOutcome::Answered { status: 201, body: body.to_string() }
}

fn ids(results: &[NetworkResult]) -> Vec<String> {
    let mut ids: Vec<String> = results.iter().map(|r| r.task_id.clone()).collect();
    ids.sort();
    ids
}

#[test]
fn full_queue_turns_tasks_away() {
    let mut cache = cache(2, 30);
    assert_eq!(cache.push_task(task("1", "S")), PushResult::Accepted);
    assert_eq!(cache.push_task(task("2", "S")), PushResult::Accepted);
    assert_eq!(cache.push_task(task("3", "S")), PushResult::QueueFull);
    assert_eq!(cache.task_receiver().recv().unwrap().task_id, "1");
    assert_eq!(cache.push_task(task("4", "S")), PushResult::Accepted);
    assert_eq!(cache.task_receiver().recv().unwrap().task_id, "2");
    assert_eq!(cache.task_receiver().recv().unwrap().task_id, "4");
    assert!(cache.task_receiver().try_recv().is_err());
}

#[test]
fn queue_without_room_needs_a_waiting_receiver() {
    let mut cache = cache(0, 30);
    assert_eq!(cache.push_task(task("1", "S")), PushResult::QueueFull);
}

#[test]
fn outcomes_of_a_push() {
    assert_eq!(push_result_of(SendOutcome::Sent), PushResult::Accepted);
    assert_eq!(push_result_of(SendOutcome::Full), PushResult::QueueFull);
    assert_eq!(
        push_result_of(SendOutcome::Disconnected),
        PushResult::RuntimeDisconnected
    );
}

#[test]
fn queue_must_fit_in_the_address_space() {
    let place: usize = if usize::BITS == 64 { 184 } else { 108 };
    assert!(queue_fits(0));
    assert!(queue_fits(1000));
    assert!(queue_fits(isize::MAX as usize / place));
    assert!(!queue_fits(isize::MAX as usize / place + 1));
    assert!(!queue_fits(usize::MAX));
}

#[test]
fn one_place_in_the_queue_takes_no_more_than_reckoned() {
    let place = std::mem::size_of::<NetworkTask>() + std::mem::size_of::<u64>();
    assert!(place <= if usize::BITS == 64 { 184 } else { 108 });
}

#[test]
fn new_cache_takes_its_settings() {
    let cache = cache(7, 45);
    assert_eq!(cache.max_rows, 7);
    assert_eq!(cache.max_duration, 45);
    assert!(!cache.ssl_config.danger_accept_invalid_certs);
    assert!(cache.pop_results(None, 0).is_empty());
}

#[test]
fn finished_tasks_are_delivered_by_service() {
    let mut cache = cache(10, 30);
    finish_task(&mut cache, task("1", "A"), answered("one"), Some(5));
    finish_task(&mut cache, task("2", "B"), answered("two"), Some(6));
    finish_task(&mut cache, task("3", "A"), answered("three"), None);
    assert_eq!(ids(&cache.pop_results(Some("A"), 0)), vec!["1", "3"]);
    assert_eq!(ids(&cache.pop_results(Some("B"), 0)), vec!["2"]);
    assert_eq!(ids(&cache.pop_results(Some("C"), 0)), Vec::<String>::new());
    assert_eq!(ids(&cache.pop_results(None, 0)), vec!["1", "2", "3"]);
    let two = cache.pop_results(Some("B"), 0);
    assert_eq!(two[0].response_body, "two");
    assert_eq!(two[0].status_code, 201);
    assert_eq!(two[0].unix_timestamp, 6);
    assert_eq!(two[0].error, None);
    let three = cache.pop_results(Some("A"), 0);
    assert!(three.iter().any(|r| r.task_id == "3" && r.unix_timestamp == 0));
}

#[test]
fn later_result_of_a_task_replaces_the_earlier() {
    let mut cache = cache(10, 30);
    finish_task(&mut cache, task("1", "A"), answered("old"), Some(5));
    finish_task(&mut cache, task("1", "A"), answered("new"), Some(6));
    let all = cache.pop_results(None, 0);
    assert_eq!(all.len(), 1);
    assert_eq!(all[0].response_body, "new");
}

#[test]
fn limit_bounds_the_number_of_results() {
    let mut cache = cache(10, 30);
    for id in ["1", "2", "3", "4"] {
        finish_task(&mut cache, task(id, "A"), answered("x"), Some(5));
    }
    finish_task(&mut cache, task("5", "B"), answered("x"), Some(5));
    assert_eq!(cache.pop_results(Some("A"), 3).len(), 3);
    assert_eq!(cache.pop_results(Some("A"), 4).len(), 4);
    assert_eq!(cache.pop_results(Some("A"), 100).len(), 4);
    assert_eq!(cache.pop_results(Some("A"), 0).len(), 4);
    assert_eq!(cache.pop_results(None, 0).len(), 5);
    assert!(cache.pop_results(Some("A"), 1).iter().all(|r| r.service_name == "A"));
}

#[test]
fn selection_keeps_the_order_of_the_listing() {
    let listing = vec![
        result("1", "A", 0),
        result("2", "B", 0),
        result("3", "A", 0),
        result("4", "A", 0),
    ];
    let picked = select_results(listing.clone(), Some("A"), 2);
    assert_eq!(picked.iter().map(|r| r.task_id.as_str()).collect::<Vec<_>>(), vec!["1", "3"]);
    let picked = select_results(listing.clone(), None, 3);
    assert_eq!(picked.iter().map(|r| r.task_id.as_str()).collect::<Vec<_>>(), vec!["1", "2", "3"]);
    let picked = select_results(listing.clone(), Some("A"), 0);
    assert_eq!(picked.iter().map(|r| r.task_id.as_str()).collect::<Vec<_>>(), vec!["1", "3", "4"]);
    assert_eq!(select_results(listing, Some(""), 0).len(), 0);
}

#[test]
fn confirming_removes_what_it_names_and_nothing_else() {
    let mut cache = cache(10, 30);
    for id in ["1", "2", "3"] {
        finish_task(&mut cache, task(id, "A"), answered("x"), Some(5));
    }
    cache.ack_result(vec!["2".to_string(), "unknown".to_string(), "2".to_string()]);
    assert_eq!(ids(&cache.pop_results(None, 0)), vec!["1", "3"]);
    cache.ack_result(vec!["2".to_string()]);
    cache.ack_result(vec![]);
    assert_eq!(ids(&cache.pop_results(None, 0)), vec!["1", "3"]);
    cache.ack_result(vec!["3".to_string(), "1".to_string()]);
    assert!(cache.pop_results(None, 0).is_empty());
}

#[test]
fn reading_twice_gives_the_same_results() {
    let mut cache = cache(10, 30);
    for id in ["1", "2", "3"] {
        finish_task(&mut cache, task(id, "A"), answered("x"), Some(5));
    }
    assert_eq!(ids(&cache.pop_results(None, 0)), ids(&cache.pop_results(None, 0)));
}

#[test]
fn old_results_are_cleared() {
    let mut cache = cache(10, 30);
    finish_task(&mut cache, task("old", "A"), answered("x"), Some(69));
    finish_task(&mut cache, task("edge", "A"), answered("x"), Some(70));
    finish_task(&mut cache, task("young", "A"), answered("x"), Some(99));
    finish_task(&mut cache, task("future", "A"), answered("x"), Some(u64::MAX));
    cache.clear_expired_at(100);
    assert_eq!(ids(&cache.pop_results(None, 0)), vec!["edge", "future", "young"]);
    cache.clear_expired_at(100);
    assert_eq!(cache.pop_results(None, 0).len(), 3);
    cache.clear_expired_at(130);
    assert_eq!(ids(&cache.pop_results(None, 0)), vec!["future"]);
}

#[test]
fn the_clock_clears_results_of_long_ago() {
    let mut cache = cache(10, 30);
    finish_task(&mut cache, task("past", "A"), answered("x"), Some(1700000000));
    finish_task(&mut cache, task("future", "A"), answered("x"), Some(u64::MAX));
    cache.clear_expired();
    assert_eq!(ids(&cache.pop_results(None, 0)), vec!["future"]);
}

#[test]
fn freshness_is_measured_in_whole_seconds() {
    assert!(is_fresh(&result("1", "A", 100), 100, 0));
    assert!(!is_fresh(&result("1", "A", 100), 101, 0));
    assert!(is_fresh(&result("1", "A", 101), 100, 0));
    assert!(is_fresh(&result("1", "A", 0), u64::MAX, u64::MAX));
}

#[test]
fn clock_before_the_epoch_counts_as_the_epoch() {
    assert_eq!(unix_time_of(Some(17)), 17);
    assert_eq!(unix_time_of(None), 0);
}

#[test]
fn result_survives_whatever_happens_to_others() {
    let mut cache = cache(10, 30);
    finish_task(&mut cache, task("mine", "A"), answered("kept"), Some(100));
    finish_task(&mut cache, task("other", "A"), answered("x"), Some(60));
    cache.ack_result(vec!["third".to_string()]);
    cache.clear_expired_at(130);
    finish_task(&mut cache, task("third", "A"), answered("y"), Some(130));
    cache.ack_result(vec!["third".to_string()]);
    cache.push_task(task("mine", "A"));
    let left = cache.pop_results(Some("A"), 0);
    assert_eq!(ids(&left), vec!["mine"]);
    assert_eq!(left[0].response_body, "kept");
    cache.ack_result(vec!["mine".to_string()]);
    cache.clear_expired_at(130);
    assert!(cache.pop_results(None, 0).is_empty());
}
