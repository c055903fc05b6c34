use network_engine::cache::{AddInCache, NetworkResult, NetworkTask, PushResult};
use network_engine::https::SSLConfig;
use network_engine::json::JsonFault;
use network_engine::parser::{
    default_max_rows, default_method, default_timeout, process_incoming_json, AddInBatchManifest,
    AddInSettingsManifest, AddInTaskManifest,
};
use network_engine::utils::safe_deserialize_json;
use serde_json::Value;
use std::collections::HashMap;

fn fault(e: serde_json::Error) -> JsonFault {
    JsonFault { message: e.to_string(), line: e.line(), column: e.column() }
}

fn text(value: &Value, field: &str) -> String {
    value[field].as_str().unwrap().to_string()
}

fn optional_text(value: &Value, field: &str) -> Option<String> {
    value.get(field).map(|v| v.as_str().unwrap().to_string())
}

fn headers(value: &Value) -> HashMap<String, String> {
    match value.get("headers") {
        Some(entries) => entries
            .as_object()
            .unwrap()
            .iter()
            .map(|(key, entry)| (key.clone(), entry.as_str().unwrap().to_string()))
            .collect(),
        None => HashMap::new(),
    }
}

fn read_batch(json: &str) -> Result<AddInBatchManifest, JsonFault> {
    let root: Value = serde_json::from_str(json).map_err(fault)?;
    let tasks = root["tasks"]
        .as_array()
        .unwrap()
        .iter()
        .map(|task| AddInTaskManifest {
            task_id: text(task, "task_id"),
            service_name: text(task, "service_name"),
            url: text(task, "url"),
            method: optional_text(task, "method").unwrap_or_else(default_method),
            headers: headers(task),
            payload: optional_text(task, "payload").unwrap_or_default(),
        })
        .collect();
    Ok(AddInBatchManifest { tasks })
}

fn read_settings(json: &str) -> Result<AddInSettingsManifest, JsonFault> {
    let root: Value = serde_json::from_str(json).map_err(fault)?;
    Ok(AddInSettingsManifest {
        max_rows: root
            .get("max_rows")
            .map(|rows| rows.as_u64().unwrap() as usize)
            .unwrap_or_else(default_max_rows),
        secs_timeouts: root
            .get("secs_timeouts")
            .map(|seconds| seconds.as_u64().unwrap())
            .unwrap_or_else(default_timeout),
        danger_accept_invalid_certs: root
            .get("danger_accept_invalid_certs")
            .map(|flag| flag.as_bool().unwrap())
            .unwrap_or_default(),
        ca_cert_path: optional_text(&root, "ca_cert_path"),
        client_cert_path: optional_text(&root, "client_cert_path"),
        client_key_path: optional_text(&root, "client_key_path"),
    })
}

#[test]
fn test_cache_delivery_and_ack_pipeline() {
    let ssl_config = SSLConfig {
        danger_accept_invalid_certs: true,
        ca_cert_path: None,
        client_cert_path: None,
        client_key_path: None,
    };
    let mut cache = AddInCache::new(10, 30, ssl_config);
    let task = NetworkTask {
        task_id: "test_uuid_001".to_string(),
        service_name: "TestService".to_string(),
        url: "https://httpbin.org".to_string(),
        metod: "GET".to_string(),
        headers: HashMap::new(),
        payload: String::new(),
    };

    let push_res = cache.push_task(task);
    assert_eq!(push_res, PushResult::Accepted);

    // The engine stores the result of a task under its identifier.
    let mock_result = NetworkResult {
        task_id: "test_uuid_001".to_string(),
        service_name: "TestService".to_string(),
        status_code: 200,
        response_body: r#"{"status": "success"}"#.to_string(),
        error: None,
        unix_timestamp: 1700000000,
    };
    cache.output_storage.insert("test_uuid_001".to_string(), mock_result);

    let first_pop = cache.pop_results(Some("TestService"), 10);
    assert_eq!(first_pop.len(), 1, "Должен вернуться ровно 1 результат");
    assert_eq!(first_pop[0].status_code, 200);

    // Results stay until they are confirmed.
    let second_pop = cache.pop_results(Some("TestService"), 10);
    assert_eq!(second_pop.len(), 1, "Данные пропали из кэша до подтверждения 1С!");

    cache.ack_result(vec!["test_uuid_001".to_string()]);

    let third_pop = cache.pop_results(Some("TestService"), 10);
    assert_eq!(third_pop.len(), 0, "Кэш не очистился после команды ACK!");
}

#[test]
fn test_parser_resilience() {
    let broken_json = r#"[{"task_id": "1", "url": "broken..."#;
    let res = process_incoming_json(broken_json, read_batch(broken_json));
    assert!(res.is_err(), "Парсер должен был вернуть ошибку на кривой JSON");

    let err_msg = res.unwrap_err();
    assert!(
        err_msg.contains("Ошибка парсинга JSON от 1С"),
        "Ошибка должна быть информативной"
    );

    let minimal_json = r#"{
        "tasks": [
            {
                "task_id": "req_min_001",
                "service_name": "Test",
                "url": "https://ya.ru"
            }
        ]
    }"#;

    let tasks_res = process_incoming_json(minimal_json, read_batch(minimal_json));
    assert!(
        tasks_res.is_ok(),
        "Парсер должен прощать отсутствие необязательных полей"
    );

    let tasks = tasks_res.unwrap();
    assert_eq!(tasks.len(), 1);
    assert_eq!(tasks[0].metod, "GET", "Дефолтный метод должен быть GET");
    assert!(
        tasks[0].headers.is_empty(),
        "Заголовки по дефолту должны быть пустыми"
    );
    assert!(
        tasks[0].payload.is_empty(),
        "Тело по дефолту должно быть пустым"
    );
}

#[test]
fn test_settings_defaults() {
    let empty_settings_json = r#"{}"#;
    let res = safe_deserialize_json::<AddInSettingsManifest>(
        empty_settings_json,
        read_settings(empty_settings_json),
    );

    assert!(res.is_ok());
    let settings = res.unwrap();
    assert_eq!(settings.max_rows, 1000, "Дефолт очереди должен быть 1000");
    assert_eq!(settings.secs_timeouts, 30, "Дефолт таймаута должен быть 30 секунд");
    assert_eq!(
        settings.danger_accept_invalid_certs, false,
        "SSL-проверки по дефолту должны быть включены"
    );
}

#[test]
fn parsed_tasks_keep_their_fields_and_order() {
    let json = r#"{"tasks": [
        {"task_id": "a", "service_name": "S", "url": "u1", "method": "post",
         "headers": {"X-Key": "v"}, "payload": "body"},
        {"task_id": "b", "service_name": "T", "url": "u2"}
    ]}"#;
    let tasks = process_incoming_json(json, read_batch(json)).unwrap();
    assert_eq!(tasks.len(), 2);
    assert_eq!(tasks[0].task_id, "a");
    assert_eq!(tasks[0].service_name, "S");
    assert_eq!(tasks[0].url, "u1");
    assert_eq!(tasks[0].metod, "post");
    assert_eq!(tasks[0].headers["X-Key"], "v");
    assert_eq!(tasks[0].payload, "body");
    assert_eq!(tasks[1].task_id, "b");
    assert_eq!(tasks[1].url, "u2");
}

#[test]
fn blank_text_is_refused_whatever_was_read() {
    let told = process_incoming_json(" \t\n", Ok(AddInBatchManifest { tasks: vec![] })).unwrap_err();
    assert_eq!(told, "1С передала пустую строку вместо JSON-данных");
}

#[test]
fn fault_names_message_line_and_column() {
    let fault = JsonFault { message: "expected value".to_string(), line: 12, column: 305 };
    let told = safe_deserialize_json::<u8>("x", Err(fault)).unwrap_err();
    assert_eq!(
        told,
        "Ошибка парсинга JSON от 1С: expected value (Позиция: линия 12, колонка 305)"
    );
}
