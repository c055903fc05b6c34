use flate2::read::GzDecoder;
use network_engine::text::{decimal, is_blank};
use network_engine::utils::{
    ping_result, plan_response_payload, retry_policy, save_result, PingOutcome, SaveOutcome,
};
use std::io::Read;

fn unpacked(bytes: &[u8]) -> String {
    let mut text = String::new();
    GzDecoder::new(bytes).read_to_string(&mut text).unwrap();
    text
}

#[test]
fn payload_is_compressed() {
    let heavy_payload = "A".repeat(1024 * 1024);
    let plan = plan_response_payload("oom_test_id", &heavy_payload, None, Some(17));
    let packed = plan.contents.unwrap();
    assert!(packed.len() < 50 * 1024);
    assert_eq!(unpacked(&packed), heavy_payload);
}

#[test]
fn payload_comes_back_unchanged() {
    for payload in ["", "{}", "{\"имя\": \"значение\"}"] {
        let plan = plan_response_payload("id", payload, None, None);
        assert_eq!(unpacked(&plan.contents.unwrap()), payload);
    }
}

#[test]
fn file_is_named_after_task_and_time() {
    let plan = plan_response_payload("abc", "x", None, Some(1700000000123));
    assert_eq!(plan.file_name, "1c_addin_abc_1700000000123.json.gz");
    let plan = plan_response_payload("abc", "x", None, None);
    assert_eq!(plan.file_name, "1c_addin_abc_0.json.gz");
    let first = plan_response_payload("a_1", "x", None, Some(2)).file_name;
    let second = plan_response_payload("a", "x", None, Some(12)).file_name;
    assert_ne!(first, second);
}

#[test]
fn blank_directory_is_no_directory() {
    assert_eq!(plan_response_payload("a", "x", None, None).directory, None);
    assert_eq!(plan_response_payload("a", "x", Some(" \t"), None).directory, None);
    let plan = plan_response_payload("a", "x", Some("/tmp/here "), None);
    assert_eq!(plan.directory.as_deref(), Some("/tmp/here "));
}

#[test]
fn saving_is_told_of() {
    let result = save_result(SaveOutcome::Saved { path: "/tmp/f".to_string() });
    assert!(result.is_saved_to_disk);
    assert_eq!(result.absolute_path.as_deref(), Some("/tmp/f"));
    assert_eq!(result.error, None);

    let result = save_result(SaveOutcome::NotCreated {
        path: "\"/tmp/f\"".to_string(),
        reason: "denied".to_string(),
    });
    assert!(!result.is_saved_to_disk);
    assert_eq!(result.absolute_path, None);
    assert_eq!(
        result.error.as_deref(),
        Some("Кластер не смог создать файл по пути \"/tmp/f\": denied")
    );

    let result = save_result(SaveOutcome::NotWritten { reason: "full".to_string() });
    assert!(!result.is_saved_to_disk);
    assert_eq!(result.absolute_path, None);
    assert_eq!(result.error.as_deref(), Some("Ошибка закрытия gzip-дескриптора: full"));
}

#[test]
fn ping_of_answering_hosts() {
    let result = ping_result(PingOutcome::Answered { status: 200, elapsed_ms: 35 });
    assert!(result.is_alive);
    assert_eq!(result.latency_ms, 35);
    assert_eq!(result.error, None);

    let result = ping_result(PingOutcome::Answered { status: 404, elapsed_ms: 1 });
    assert!(result.is_alive);
    assert_eq!(result.error.as_deref(), Some("Статус ответа: 404 Not Found"));

    let result = ping_result(PingOutcome::Answered { status: 301, elapsed_ms: 1 });
    assert!(result.is_alive);
    assert_eq!(result.error.as_deref(), Some("Статус ответа: 301 Moved Permanently"));

    let result = ping_result(PingOutcome::Answered { status: 101, elapsed_ms: 1 });
    assert!(!result.is_alive);
    assert_eq!(result.error.as_deref(), Some("Статус ответа: 101 Switching Protocols"));

    let result = ping_result(PingOutcome::Answered { status: 799, elapsed_ms: 1 });
    assert!(result.is_alive);
    assert_eq!(result.error.as_deref(), Some("Статус ответа: 799 <unknown status code>"));
}

#[test]
fn ping_without_answer() {
    let result = ping_result(PingOutcome::Unreachable {
        elapsed_ms: (1u128 << 64) + 5,
        reason: "timeout".to_string(),
    });
    assert!(!result.is_alive);
    assert_eq!(result.latency_ms, 5);
    assert_eq!(result.error.as_deref(), Some("Хост недоступен: timeout"));

    let result = ping_result(PingOutcome::NoClient { reason: "tls".to_string() });
    assert!(!result.is_alive);
    assert_eq!(result.latency_ms, 0);
    assert_eq!(
        result.error.as_deref(),
        Some("Ошибка создания HTTP-клиента для пинга: tls")
    );
}

#[test]
fn three_repetitions_from_a_tenth_of_a_second() {
    let policy = retry_policy();
    assert_eq!(policy.first_delay_ms, 100);
    assert_eq!(policy.factor, 2);
    assert_eq!(policy.retries, 3);
}

#[test]
fn white_space_is_that_of_unicode() {
    let white: Vec<u32> = [
        vec![0x09, 0x0a, 0x0b, 0x0c, 0x0d, 0x20, 0x85, 0xa0, 0x1680],
        (0x2000..=0x200a).collect(),
        vec![0x2028, 0x2029, 0x202f, 0x205f, 0x3000],
    ]
    .concat();
    for code in 0u32..=0x10ffff {
        if let Some(c) = char::from_u32(code) {
            assert_eq!(is_blank(&c.to_string()), white.contains(&code), "{:x}", code);
        }
    }
}

#[test]
fn blank_means_nothing_left_after_trimming() {
    assert!(is_blank(""));
    assert!(is_blank(" \r\n"));
    assert!(!is_blank(" x "));
}

#[test]
fn numbers_are_written_in_decimal() {
    for number in [0u128, 7, 10, 99, 100, 1700000000123, u128::MAX] {
        assert_eq!(decimal(number), number.to_string());
    }
}
