use network_engine::addin::Refusal;
use network_engine::cache::{NetworkTask, PushResult};
use network_engine::http_engine::{finish_task, RequestOutcome};
use network_engine::json::{deserialize_strings, serialize_strings, JsonFault};
use network_engine::parser::{AddInBatchManifest, AddInSettingsManifest, AddInTaskManifest};
use network_engine::utils::safe_serialize_json;
use network_engine::NetworkAddIn;
use std::collections::HashMap;

const NOT_CONFIGURED: &str =
    "Критическая ошибка: Движок не инициализирован! Сначала необходимо вызвать метод Настроить().";
const EMPTY: &str = "1С передала пустую строку вместо JSON-данных";
const FAULTY: &str = "Ошибка парсинга JSON от 1С: m (Позиция: линия 1, колонка 2)";

fn settings(max_rows: usize) -> AddInSettingsManifest {
    AddInSettingsManifest {
        max_rows,
        secs_timeouts: 5,
        danger_accept_invalid_certs: true,
        ca_cert_path: Some("ca.pem".to_string()),
        client_cert_path: None,
        client_key_path: None,
    }
}

fn manifest(task_id: &str) -> AddInTaskManifest {
    AddInTaskManifest {
        task_id: task_id.to_string(),
        service_name: "S".to_string(),
        url: "u".to_string(),
        method: "GET".to_string(),
        headers: HashMap::new(),
        payload: String::new(),
    }
}

fn task(task_id: &str, service_name: &str) -> NetworkTask {
    NetworkTask {
        task_id: task_id.to_string(),
        service_name: service_name.to_string(),
        url: "u".to_string(),
        metod: "GET".to_string(),
        headers: HashMap::new(),
        payload: String::new(),
    }
}

fn batch(ids: &[&str]) -> AddInBatchManifest {
    AddInBatchManifest { tasks: ids.iter().map(|id| manifest(id)).collect() }
}

fn fault() -> JsonFault {
    JsonFault { message: "m".to_string(), line: 1, column: 2 }
}

fn complaint<T>(result: Result<T, Refusal>) -> String {
    match result {
        Err(Refusal::Unreadable { message }) => message,
        _ => panic!("the text was not complained of"),
    }
}

fn strings(list: &[&str]) -> Vec<String> {
    list.iter().map(|entry| entry.to_string()).collect()
}

fn configured(max_rows: usize) -> NetworkAddIn {
    let mut addin = NetworkAddIn::new();
    assert_eq!(addin.ffi_configure("{}", Ok(settings(max_rows))), Ok(()));
    addin
}

fn finish(addin: &mut NetworkAddIn, task_id: &str, service_name: &str) {
    finish_task(
        addin.cache.as_mut().unwrap(),
        task(task_id, service_name),
        RequestOutcome::Answered { status: 200, body: String::new() },
        Some(1),
    );
}

#[test]
fn component_starts_without_settings() {
    let addin = NetworkAddIn::default();
    assert_eq!(addin.version, "1.0.0");
    assert!(addin.cache.is_none());
    assert_eq!(addin.get_cache().err().unwrap(), NOT_CONFIGURED);
}

#[test]
fn nothing_is_taken_without_settings() {
    let mut addin = NetworkAddIn::new();
    let refusal = addin.ffi_push_tasks("{}", Ok(batch(&["1"]))).unwrap_err();
    assert!(matches!(refusal, Refusal::NotConfigured { message } if message == NOT_CONFIGURED));
    assert_eq!(
        addin.ffi_pop_results("S", 10).unwrap_err(),
        "\"Ошибка: Критическая ошибка: Движок не инициализирован! Сначала необходимо вызвать метод Настроить().\""
    );
    let refusal = addin.ffi_ack_results("[\"1\"]").unwrap_err();
    assert!(matches!(refusal, Refusal::NotConfigured { message } if message == NOT_CONFIGURED));
    assert!(addin.cache.is_none());
}

#[test]
fn settings_are_taken_over() {
    let addin = configured(50);
    let cache = addin.get_cache().unwrap();
    assert_eq!(cache.max_rows, 50);
    assert_eq!(cache.max_duration, 5);
    assert!(cache.ssl_config.danger_accept_invalid_certs);
    assert_eq!(cache.ssl_config.ca_cert_path.as_deref(), Some("ca.pem"));
    assert_eq!(cache.ssl_config.client_cert_path, None);
}

#[test]
fn wrong_settings_leave_the_component_as_it_was() {
    let mut addin = configured(50);
    finish(&mut addin, "1", "S");
    assert_eq!(addin.ffi_configure("  ", Ok(settings(1))), Err(EMPTY.to_string()));
    assert_eq!(addin.ffi_configure("x", Err(fault())), Err(FAULTY.to_string()));
    assert_eq!(addin.get_cache().unwrap().max_rows, 50);
    assert_eq!(addin.ffi_pop_results("", 0).unwrap().len(), 1);
}

#[test]
fn new_settings_come_with_a_new_cache() {
    let mut addin = configured(50);
    finish(&mut addin, "1", "S");
    assert_eq!(addin.ffi_configure("{}", Ok(settings(3))), Ok(()));
    assert_eq!(addin.ffi_pop_results("", 0).unwrap().len(), 0);
    assert_eq!(addin.get_cache().unwrap().max_rows, 3);
}

#[test]
fn batch_is_queued_in_order() {
    let mut addin = configured(50);
    let results = addin.ffi_push_tasks("{}", Ok(batch(&["1", "2", "3"]))).ok().unwrap();
    assert_eq!(results, [PushResult::Accepted, PushResult::Accepted, PushResult::Accepted]);
    let receiver = addin.cache.as_mut().unwrap().task_receiver();
    assert_eq!(receiver.try_recv().unwrap().task_id, "1");
    assert_eq!(receiver.try_recv().unwrap().task_id, "2");
    assert_eq!(receiver.try_recv().unwrap().task_id, "3");
    assert!(receiver.try_recv().is_err());
}

#[test]
fn batch_counts_as_taken_though_tasks_find_no_room() {
    let mut addin = configured(2);
    let results = addin.ffi_push_tasks("{}", Ok(batch(&["1", "2", "3"]))).ok().unwrap();
    assert_eq!(results, [PushResult::Accepted, PushResult::Accepted, PushResult::QueueFull]);
    let receiver = addin.cache.as_mut().unwrap().task_receiver();
    assert_eq!(receiver.len(), 2);
    assert_eq!(receiver.try_recv().unwrap().task_id, "1");
    assert_eq!(receiver.try_recv().unwrap().task_id, "2");
}

#[test]
fn second_task_finds_no_room_in_a_queue_of_one() {
    let mut addin = configured(1);
    let results = addin.ffi_push_tasks("{}", Ok(batch(&["a", "b"]))).ok().unwrap();
    assert_eq!(results, [PushResult::Accepted, PushResult::QueueFull]);
    let receiver = addin.cache.as_mut().unwrap().task_receiver();
    assert_eq!(receiver.try_recv().unwrap().task_id, "a");
    assert!(receiver.try_recv().is_err());
}

#[test]
fn batch_fills_the_room_that_is_left() {
    let mut addin = configured(3);
    assert!(addin.ffi_push_tasks("{}", Ok(batch(&["1", "2"]))).is_ok());
    let results = addin.ffi_push_tasks("{}", Ok(batch(&["3", "4"]))).ok().unwrap();
    assert_eq!(results, [PushResult::Accepted, PushResult::QueueFull]);
    let receiver = addin.cache.as_mut().unwrap().task_receiver();
    let waiting: Vec<String> = receiver.try_iter().map(|task| task.task_id).collect();
    assert_eq!(waiting, ["1", "2", "3"]);
}

#[test]
fn wrong_batch_is_not_taken() {
    let mut addin = configured(2);
    assert_eq!(complaint(addin.ffi_push_tasks("", Ok(batch(&["1"])))), EMPTY);
    assert_eq!(complaint(addin.ffi_push_tasks("x", Err(fault()))), FAULTY);
    assert_eq!(addin.cache.as_mut().unwrap().task_receiver().len(), 0);
}

#[test]
fn blank_filter_and_no_limit_give_everything() {
    let mut addin = configured(50);
    finish(&mut addin, "1", "A");
    finish(&mut addin, "2", "B");
    finish(&mut addin, "3", "B");
    assert_eq!(addin.ffi_pop_results("", 0).unwrap().len(), 3);
    assert_eq!(addin.ffi_pop_results(" \u{a0}", -7).unwrap().len(), 3);
    assert_eq!(addin.ffi_pop_results("B", 0).unwrap().len(), 2);
    assert_eq!(addin.ffi_pop_results("B", 1).unwrap().len(), 1);
    assert_eq!(addin.ffi_pop_results(" B", 0).unwrap().len(), 0);
}

#[test]
fn confirmed_results_are_forgotten() {
    let mut addin = configured(50);
    for id in ["1", "2", "3"] {
        finish(&mut addin, id, "A");
    }
    assert_eq!(
        complaint(addin.ffi_ack_results("not json")),
        "Ошибка парсинга JSON от 1С: expected ident at line 1 column 2 (Позиция: линия 1, колонка 2)"
    );
    assert_eq!(complaint(addin.ffi_ack_results("   ")), EMPTY);
    assert!(addin.ffi_ack_results("{\"1\": 2}").is_err());
    assert!(addin.ffi_ack_results("[1, 2]").is_err());
    assert_eq!(addin.ffi_pop_results("", 0).unwrap().len(), 3);
    assert_eq!(addin.ffi_ack_results("[\"1\", \"\\u0033\"]").ok(), Some(2));
    let left = addin.ffi_pop_results("", 0).unwrap();
    assert_eq!(left.len(), 1);
    assert_eq!(left[0].task_id, "2");
}

#[test]
fn list_that_could_not_be_read_confirms_nothing() {
    let mut addin = configured(50);
    finish(&mut addin, "1", "A");
    assert_eq!(complaint(addin.ack_named_results(Err("why".to_string()))), "why");
    assert_eq!(addin.ffi_pop_results("", 0).unwrap().len(), 1);
    assert_eq!(addin.ack_named_results(Ok(strings(&["1", "2"]))).ok(), Some(2));
    assert_eq!(addin.ffi_pop_results("", 0).unwrap().len(), 0);
}

#[test]
fn list_of_strings_is_written_as_json() {
    assert_eq!(serialize_strings(&vec![]), "[]");
    assert_eq!(serialize_strings(&strings(&["a"])), "[\"a\"]");
    assert_eq!(
        serialize_strings(&strings(&["", "\"\\/", "\u{8}\t\n\u{c}\r", "\u{0}\u{b}\u{1f}\u{7f}я"])),
        "[\"\",\"\\\"\\\\/\",\"\\b\\t\\n\\f\\r\",\"\\u0000\\u000b\\u001f\u{7f}я\"]"
    );
}

#[test]
fn written_list_of_strings_is_read_back() {
    let every: String = (0u32..0x500).filter_map(char::from_u32).collect();
    for list in [
        strings(&[]),
        strings(&[""]),
        strings(&["a", "b", "a"]),
        strings(&["\"", "\\", "line\nbreak\r\n", "[\",\"]", "\u{10ffff}"]),
        vec![every],
    ] {
        assert_eq!(deserialize_strings(&serialize_strings(&list)), Ok(list));
    }
}

#[test]
fn what_is_no_list_of_strings_is_complained_of() {
    assert_eq!(deserialize_strings(" \n"), Err(EMPTY.to_string()));
    assert_eq!(
        deserialize_strings("[1]"),
        Err("Ошибка парсинга JSON от 1С: invalid type: integer `1`, expected a string at line 1 column 2 (Позиция: линия 1, колонка 2)".to_string())
    );
}

#[test]
fn written_identifiers_are_confirmed() {
    let mut addin = configured(50);
    for id in ["a\"b", "c\\d", "e\nf", "g"] {
        finish(&mut addin, id, "A");
    }
    let json = serialize_strings(&strings(&["a\"b", "c\\d", "e\nf"]));
    assert_eq!(addin.ffi_ack_results(&json).ok(), Some(3));
    let left = addin.ffi_pop_results("", 0).unwrap();
    assert_eq!(left.len(), 1);
    assert_eq!(left[0].task_id, "g");
}

#[test]
fn unwritable_value_is_answered_with_an_error() {
    assert_eq!(safe_serialize_json(Ok("[]".to_string())), "[]");
    assert_eq!(
        safe_serialize_json(Err("depth".to_string())),
        "{\"error\": \"Критическая ошибка сериализации на стороне Rust: depth\"}"
    );
}
