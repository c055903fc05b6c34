use network_engine::cache::{AddInCache, NetworkTask};
use network_engine::http_engine::{
    method_or_default, plan_client, plan_request, task_result, ClientPlan, RequestOutcome,
};
use network_engine::https::SSLConfig;
use std::collections::HashMap;

fn task(metod: &str, payload: &str) -> NetworkTask {
    NetworkTask {
        task_id: "id".to_string(),
        service_name: "S".to_string(),
        url: "https://example.org/x".to_string(),
        metod: metod.to_string(),
        headers: HashMap::new(),
        payload: payload.to_string(),
    }
}

#[test]
fn method_is_written_in_upper_case() {
    assert_eq!(plan_request(&task("post", "")).method, "POST");
    assert_eq!(plan_request(&task("PaTcH", "")).method, "PATCH");
    assert_eq!(plan_request(&task("purge", "")).method, "PURGE");
}

#[test]
fn wrong_method_becomes_get() {
    assert_eq!(plan_request(&task("", "")).method, "GET");
    assert_eq!(plan_request(&task("get it", "")).method, "GET");
    assert_eq!(plan_request(&task("получить", "")).method, "GET");
}

#[test]
fn method_characters() {
    let extra = "!#$%&'*+-.^_`|~";
    for code in 0u32..0x300 {
        let c = char::from_u32(code).unwrap();
        let text = c.to_string();
        let accepted = c.is_ascii_alphanumeric() || extra.contains(c);
        let expected = if accepted { text.clone() } else { "GET".to_string() };
        assert_eq!(method_or_default(&text), expected, "{:?}", c);
        let long = format!("ABCDEFGHIJKLMNOP{}", c);
        let expected = if accepted { long.clone() } else { "GET".to_string() };
        assert_eq!(method_or_default(&long), expected, "{:?}", c);
    }
}

#[test]
fn empty_payload_is_not_sent() {
    let silent = task("GET", "");
    let plan = plan_request(&silent);
    assert_eq!(plan.body, None);
    assert_eq!(plan.url, "https://example.org/x");
    assert_eq!(plan_request(&task("POST", " ")).body.as_deref(), Some(" "));
}

#[test]
fn headers_are_sent() {
    let mut with_headers = task("GET", "");
    with_headers.headers.insert("X-Key".to_string(), "v".to_string());
    with_headers.headers.insert("Accept".to_string(), "*/*".to_string());
    let plan = plan_request(&with_headers);
    assert_eq!(plan.headers.len(), 2);
    assert_eq!(plan.headers["X-Key"], "v");
    assert_eq!(plan.headers["Accept"], "*/*");
}

#[test]
fn client_without_certificates_has_no_settings() {
    let cache = AddInCache::new(
        1,
        12,
        SSLConfig {
            danger_accept_invalid_certs: false,
            ca_cert_path: None,
            client_cert_path: None,
            client_key_path: None,
        },
    );
    assert_eq!(
        plan_client(&cache, true),
        ClientPlan { timeout_secs: Some(12), max_idle_per_host: Some(10) }
    );
    assert_eq!(
        plan_client(&cache, false),
        ClientPlan { timeout_secs: None, max_idle_per_host: None }
    );
}

#[test]
fn result_of_an_answer() {
    let outcome = RequestOutcome::Answered { status: 404, body: "none".to_string() };
    let result = task_result(&task("GET", ""), outcome, 9);
    assert_eq!(result.task_id, "id");
    assert_eq!(result.service_name, "S");
    assert_eq!(result.status_code, 404);
    assert_eq!(result.response_body, "none");
    assert_eq!(result.error, None);
    assert_eq!(result.unix_timestamp, 9);
}

#[test]
fn result_of_an_unreadable_answer() {
    let outcome = RequestOutcome::Unreadable { status: 200, reason: "cut off".to_string() };
    let result = task_result(&task("GET", ""), outcome, 9);
    assert_eq!(result.status_code, 200);
    assert_eq!(result.response_body, "");
    assert_eq!(result.error.as_deref(), Some("Не удалось прочитать тело ответа: cut off"));
}

#[test]
fn result_of_a_failed_request() {
    let outcome = RequestOutcome::Failed { status: None, reason: "dns".to_string() };
    let result = task_result(&task("GET", ""), outcome, 9);
    assert_eq!(result.status_code, 0);
    assert_eq!(result.response_body, "");
    assert_eq!(result.error.as_deref(), Some("Ошибка сетевого запроса: dns"));
    let outcome = RequestOutcome::Failed { status: Some(502), reason: "bad".to_string() };
    assert_eq!(task_result(&task("GET", ""), outcome, 9).status_code, 502);
}
