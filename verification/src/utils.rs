//! Payloads on disk, pings and retries.
pub use crate::json::{safe_deserialize_json, safe_serialize_json};
use crate::text::{decimal, is_blank, joined};
#[allow(unused_imports)]
use crate::text::{blank, decimal_text, decimal_text_is_digits, decimal_text_is_injective};
use flate2::write::GzEncoder;
use flate2::Compression;
use std::io::Write;
use vstd::prelude::*;
use vstd::string::*;

verus! {

/// What is told of a host that was pinged.
pub struct PingResult {
    pub is_alive: bool,
    pub latency_ms: u64,
    pub error: Option<String>,
}

/// What is told of a payload that was to be saved.
pub struct SavePayloadResult {
    pub is_saved_to_disk: bool,
    pub absolute_path: Option<String>,
    pub error: Option<String>,
}

/// How often and after what time a request is tried again.
pub struct RetryPolicy {
    /// The time, in milliseconds, before the first repetition.
    pub first_delay_ms: u64,
    /// Each further time is this many times the one before.
    pub factor: u32,
    /// How many repetitions follow the first try, whatever the failure was.
    pub retries: usize,
}

/// How often and after what time a request is tried again.
pub fn retry_policy() -> (policy: RetryPolicy)
    ensures
        policy == (RetryPolicy { first_delay_ms: 100, factor: 2, retries: 3 }),
{
    RetryPolicy { first_delay_ms: 100, factor: 2, retries: 3 }
}

/// The bytes that `flate2` compresses these to, in gzip format and at this level, or the
/// message of its error.
pub uninterp spec fn gzip(data: Seq<u8>, level: u32) -> Result<Seq<u8>, Seq<char>>;

/// The bytes that `flate2::read::GzDecoder` reads out of these up to the end; none where
/// they are not in gzip format.
pub uninterp spec fn gunzip(packed: Seq<u8>) -> Option<Seq<u8>>;

/// The level at which a payload is compressed: the fastest that compresses.
pub const PAYLOAD_LEVEL: u32 = 1;

/// The bytes of what was compressed, or the text of why it could not be.
pub open spec fn packed_bytes(packed: Result<Vec<u8>, String>) -> Result<Seq<u8>, Seq<char>> {
    match packed {
        Ok(bytes) => Ok(bytes@),
        Err(reason) => Err(reason@),
    }
}

/// `flate2::write::GzEncoder` over a vector, at a level of `Compression`. The header that
/// it writes names neither a time nor a system, so the bytes depend on the data and the
/// level alone; they are named [`gzip`]. They are a whole gzip stream, out of which the
/// reader of `flate2` gets the data again. Whether the compressor can fail is left open.
#[verifier::external_body]
fn compress(data: &[u8], level: u32) -> (packed: Result<Vec<u8>, String>)
    requires
        level <= 9,
    ensures
        packed_bytes(packed) == gzip(data@, level),
        packed is Ok ==> gunzip(packed->Ok_0@) == Some(data@),
{
    let mut encoder = GzEncoder::new(Vec::new(), Compression::new(level));
    encoder.write_all(data).and_then(|_| encoder.finish()).map_err(|e| e.to_string())
}

/// The name of the file for the payload of a task.
pub open spec fn payload_file_name(task_id: Seq<char>, millis: u128) -> Seq<char> {
    "1c_addin_"@ + task_id + "_"@ + decimal_text(millis as nat) + ".json.gz"@
}

/// The time that a clock reading stands for, in milliseconds: that of the epoch where the
/// clock stands before it.
pub open spec fn unix_millis(reading: Option<u128>) -> u128 {
    match reading {
        Some(millis) => millis,
        None => 0,
    }
}

/// What is to be written where.
pub struct SavePlan {
    /// The directory; that for temporary files where there is none.
    pub directory: Option<String>,
    pub file_name: String,
    /// The compressed payload, or why it could not be compressed.
    pub contents: Result<Vec<u8>, String>,
}

/// The directory that was asked for, unless it is blank.
pub open spec fn wanted_directory(custom_dir: Option<&str>) -> Option<Seq<char>> {
    match custom_dir {
        Some(directory) if !blank(directory@) => Some(directory@),
        _ => None,
    }
}

/// Plans how the payload of a task is saved: compressed, in a file that is named after
/// the task and the time. Whoever unpacks the contents gets the payload.
pub fn plan_response_payload(
    task_id: &str,
    payload: &str,
    custom_dir: Option<&str>,
    clock_ms: Option<u128>,
) -> (plan: SavePlan)
    ensures
        plan.file_name@ == payload_file_name(task_id@, unix_millis(clock_ms)),
        wanted_directory(custom_dir) == match plan.directory {
            Some(directory) => Some(directory@),
            None => None,
        },
        packed_bytes(plan.contents) == gzip(payload.spec_bytes(), PAYLOAD_LEVEL),
        plan.contents is Ok ==> gunzip(plan.contents->Ok_0@) == Some(payload.spec_bytes()),
{
    let directory = match custom_dir {
        Some(directory) => if is_blank(directory) {
            None
        } else {
            Some(directory.to_owned())
        },
        None => None,
    };
    let mut file_name = joined("1c_addin_", task_id);
    file_name.append("_");
    file_name.append(&decimal(clock_ms.unwrap_or(0)));
    file_name.append(".json.gz");
    SavePlan { directory, file_name, contents: compress(payload.as_bytes(), PAYLOAD_LEVEL) }
}

/// What came of writing a payload to disk.
pub enum SaveOutcome {
    /// The file could not be created. `path` is its path as it is shown to people.
    NotCreated { path: String, reason: String },
    /// The payload could not be compressed or written.
    NotWritten { reason: String },
    Saved { path: String },
}

/// `result` tells of what came of writing a payload to disk.
pub open spec fn tells_of_save(outcome: SaveOutcome, result: SavePayloadResult) -> bool {
    match outcome {
        SaveOutcome::NotCreated { path, reason } => {
            &&& !result.is_saved_to_disk
            &&& result.absolute_path is None
            &&& result.error matches Some(told) && told@
                == "Кластер не смог создать файл по пути "@ + path@ + ": "@ + reason@
        },
        SaveOutcome::NotWritten { reason } => {
            &&& !result.is_saved_to_disk
            &&& result.absolute_path is None
            &&& result.error matches Some(told) && told@ == "Ошибка закрытия gzip-дескриптора: "@
                + reason@
        },
        SaveOutcome::Saved { path } => {
            &&& result.is_saved_to_disk
            &&& result.absolute_path == Some(path)
            &&& result.error is None
        },
    }
}

/// Tells of what came of writing a payload to disk.
pub fn save_result(outcome: SaveOutcome) -> (result: SavePayloadResult)
    ensures
        tells_of_save(outcome, result),
{
    match outcome {
        SaveOutcome::NotCreated { path, reason } => {
            let mut told = joined("Кластер не смог создать файл по пути ", &path);
            told.append(": ");
            told.append(&reason);
            SavePayloadResult { is_saved_to_disk: false, absolute_path: None, error: Some(told) }
        },
        SaveOutcome::NotWritten { reason } => SavePayloadResult {
            is_saved_to_disk: false,
            absolute_path: None,
            error: Some(joined("Ошибка закрытия gzip-дескриптора: ", &reason)),
        },
        SaveOutcome::Saved { path } => SavePayloadResult {
            is_saved_to_disk: true,
            absolute_path: Some(path),
            error: None,
        },
    }
}

/// The codes that an HTTP response can have.
pub open spec fn status_code(code: u16) -> bool {
    100 <= code <= 999
}

/// The words that stand for a status code behind its number.
pub uninterp spec fn reason_phrase(code: u16) -> Seq<char>;

/// `Display` of `reqwest::StatusCode`: the code, a blank and the words that stand for it,
/// which depend on the code alone and are named [`reason_phrase`].
#[verifier::external_body]
fn status_line(code: u16) -> (line: String)
    requires
        status_code(code),
    ensures
        line@ == decimal_text(code as nat) + " "@ + reason_phrase(code),
{
    reqwest::StatusCode::from_u16(code).unwrap().to_string()
}

/// What came of a ping.
pub enum PingOutcome {
    /// There is no client to ping with.
    NoClient { reason: String },
    /// The host answered with this status, after this time.
    Answered { status: u16, elapsed_ms: u128 },
    /// The host did not answer.
    Unreachable { elapsed_ms: u128, reason: String },
}

/// Whether a status means that the request succeeded.
pub open spec fn success(status: u16) -> bool {
    200 <= status < 300
}

/// Whether a status means that the request is to go elsewhere.
pub open spec fn redirection(status: u16) -> bool {
    300 <= status < 400
}

/// `result` tells of what came of a ping.
pub open spec fn tells_of_ping(outcome: PingOutcome, result: PingResult) -> bool {
    match outcome {
        PingOutcome::NoClient { reason } => {
            &&& !result.is_alive
            &&& result.latency_ms == 0
            &&& result.error matches Some(told) && told@
                == "Ошибка создания HTTP-клиента для пинга: "@ + reason@
        },
        PingOutcome::Answered { status, elapsed_ms } => {
            &&& result.is_alive == (success(status) || redirection(status) || status >= 400)
            &&& result.latency_ms == elapsed_ms as u64
            &&& if success(status) {
                result.error is None
            } else {
                result.error matches Some(told) && told@ == "Статус ответа: "@ + decimal_text(
                    status as nat,
                ) + " "@ + reason_phrase(status)
            }
        },
        PingOutcome::Unreachable { elapsed_ms, reason } => {
            &&& !result.is_alive
            &&& result.latency_ms == elapsed_ms as u64
            &&& result.error matches Some(told) && told@ == "Хост недоступен: "@ + reason@
        },
    }
}

/// Tells of what came of a ping.
pub fn ping_result(outcome: PingOutcome) -> (result: PingResult)
    requires
        outcome matches PingOutcome::Answered { status, .. } ==> status_code(status),
    ensures
        tells_of_ping(outcome, result),
{
    match outcome {
        PingOutcome::NoClient { reason } => PingResult {
            is_alive: false,
            latency_ms: 0,
            error: Some(joined("Ошибка создания HTTP-клиента для пинга: ", &reason)),
        },
        PingOutcome::Answered { status, elapsed_ms } => {
            let succeeded = 200 <= status && status < 300;
            let redirected = 300 <= status && status < 400;
            let error = if succeeded {
                None
            } else {
                let line = status_line(status);
                let told = joined("Статус ответа: ", &line);
                proof {
                    assert(told@ =~= "Статус ответа: "@ + decimal_text(status as nat) + " "@
                        + reason_phrase(status));
                }
                Some(told)
            };
            PingResult {
                is_alive: succeeded || redirected || status >= 400,
                latency_ms: #[verifier::truncate] (elapsed_ms as u64),
                error,
            }
        },
        PingOutcome::Unreachable { elapsed_ms, reason } => PingResult {
            is_alive: false,
            latency_ms: #[verifier::truncate] (elapsed_ms as u64),
            error: Some(joined("Хост недоступен: ", &reason)),
        },
    }
}

/// Payloads of different tasks, or saved at different times, go to different files.
pub proof fn file_names_differ(
    task_id: Seq<char>,
    millis: u128,
    other_id: Seq<char>,
    other_millis: u128,
)
    requires
        payload_file_name(task_id, millis) == payload_file_name(other_id, other_millis),
    ensures
        task_id == other_id,
        millis == other_millis,
{
    reveal_strlit("1c_addin_");
    reveal_strlit("_");
    reveal_strlit(".json.gz");
    let digits = decimal_text(millis as nat);
    let other_digits = decimal_text(other_millis as nat);
    decimal_text_is_digits(millis as nat);
    decimal_text_is_digits(other_millis as nat);
    let name = payload_file_name(task_id, millis);
    let end = name.len() - 8;
    let bar = end - digits.len() - 1;
    let other_bar = end - other_digits.len() - 1;
    assert(name[bar] == '_');
    assert(name[other_bar] == '_');
    assert forall|i: int| bar < i < end implies '0' <= #[trigger] name[i] <= '9' by {
        assert(name[i] == digits[i - bar - 1]);
    }
    assert forall|i: int| other_bar < i < end implies '0' <= #[trigger] name[i] <= '9' by {
        assert(name[i] == other_digits[i - other_bar - 1]);
    }
    assert(bar == other_bar);
    assert(digits =~= name.subrange(bar + 1, end));
    assert(other_digits =~= name.subrange(bar + 1, end));
    decimal_text_is_injective(millis as nat, other_millis as nat);
    assert(task_id =~= name.subrange(9, bar));
    assert(other_id =~= name.subrange(9, bar));
}

/// A payload is on disk, or an error is told; never both.
pub proof fn save_is_told_of(outcome: SaveOutcome, result: SavePayloadResult)
    requires
        tells_of_save(outcome, result),
    ensures
        result.is_saved_to_disk <==> outcome is Saved,
        result.is_saved_to_disk <==> result.absolute_path is Some,
        result.is_saved_to_disk <==> result.error is None,
{
}

/// A host counts as alive exactly where it answers with a status of 200 or above, and no
/// error is told exactly where that means success.
pub proof fn host_is_alive_if_it_answers(outcome: PingOutcome, result: PingResult)
    requires
        tells_of_ping(outcome, result),
    ensures
        result.is_alive <==> (outcome matches PingOutcome::Answered { status, .. } && status
            >= 200),
        result.error is None <==> (outcome matches PingOutcome::Answered { status, .. }
            && success(status)),
        result.error is None ==> result.is_alive,
{
}

} // verus!
