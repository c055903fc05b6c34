//! What is sent for a task, and what is kept of the answer.
use crate::cache::{AddInCache, NetworkResult, NetworkTask};
use crate::clock::unix_time_of;
#[allow(unused_imports)]
use crate::clock::unix_time;
use crate::storage::insert_result;
use crate::text::joined;
use std::collections::HashMap;
use vstd::prelude::*;
use vstd::string::*;

verus! {

/// The characters that the name of an HTTP method may hold.
pub open spec fn method_char(c: char) -> bool {
    ||| '0' <= c <= '9'
    ||| 'A' <= c <= 'Z'
    ||| 'a' <= c <= 'z'
    ||| c == '!' || c == '#' || c == '$' || c == '%' || c == '&' || c == '\'' || c == '*'
    ||| c == '+' || c == '-' || c == '.' || c == '^' || c == '_' || c == '`' || c == '|'
    ||| c == '~'
}

/// A text that names an HTTP method.
pub open spec fn method_name(text: Seq<char>) -> bool {
    &&& text.len() > 0
    &&& forall|i: int| 0 <= i < text.len() ==> method_char(#[trigger] text[i])
}

/// `FromStr` of `reqwest::Method`: accepts a text that is not empty and holds nothing but
/// the characters of [`method_char`], and takes it over as it is.
#[verifier::external_body]
fn parse_method(text: &str) -> (method: Option<String>)
    ensures
        method is Some <==> method_name(text@),
        method matches Some(name) ==> name@ == text@,
{
    text.parse::<reqwest::Method>().ok().map(|method| method.as_str().to_owned())
}

/// A text in upper case, as `str::to_uppercase` writes it.
pub uninterp spec fn uppercase(text: Seq<char>) -> Seq<char>;

/// `str::to_uppercase` follows the Unicode tables; what it writes depends on the text
/// alone and is named [`uppercase`].
pub assume_specification[ str::to_uppercase ](text: &str) -> (upper: String)
    ensures
        upper@ == uppercase(text@),
;

/// The text itself where it names a method, else `GET`.
pub open spec fn method_or_get(text: Seq<char>) -> Seq<char> {
    if method_name(text) {
        text
    } else {
        "GET"@
    }
}

/// Takes a text for the method where it names one, else `GET`.
pub fn method_or_default(text: &str) -> (method: String)
    ensures
        method@ == method_or_get(text@),
{
    match parse_method(text) {
        Some(method) => method,
        None => "GET".to_owned(),
    }
}

/// What is sent for a task, at each try.
pub struct RequestPlan<'a> {
    pub method: String,
    pub url: String,
    /// Every one of them is sent.
    pub headers: &'a HashMap<String, String>,
    /// Nothing where the payload is empty.
    pub body: Option<String>,
}

/// Plans the request for a task.
pub fn plan_request(task: &NetworkTask) -> (plan: RequestPlan<'_>)
    ensures
        plan.method@ == method_or_get(uppercase(task.metod@)),
        plan.url == task.url,
        *plan.headers == task.headers,
        plan.body == if task.payload@.len() == 0 {
            None
        } else {
            Some(task.payload)
        },
{
    let upper = task.metod.to_uppercase();
    RequestPlan {
        method: method_or_default(&upper),
        url: task.url.clone(),
        headers: &task.headers,
        body: if task.payload.as_str().is_empty() {
            None
        } else {
            Some(task.payload.clone())
        },
    }
}

/// How the client for a task is built.
#[derive(Debug, Clone, Copy, PartialEq, Eq, Structural)]
pub struct ClientPlan {
    /// The time limit for a request, in seconds; none where there is none.
    pub timeout_secs: Option<u64>,
    /// How many idle connections to one host are kept; as many as the client likes where
    /// there is no number.
    pub max_idle_per_host: Option<usize>,
}

/// How the client for a task is built. Where the certificates could not be set up, the
/// client is built without any setting.
pub fn plan_client(cache: &AddInCache, ssl_ready: bool) -> (plan: ClientPlan)
    ensures
        plan == if ssl_ready {
            ClientPlan { timeout_secs: Some(cache.max_duration), max_idle_per_host: Some(10) }
        } else {
            ClientPlan { timeout_secs: None, max_idle_per_host: None }
        },
{
    if ssl_ready {
        ClientPlan { timeout_secs: Some(cache.max_duration), max_idle_per_host: Some(10) }
    } else {
        ClientPlan { timeout_secs: None, max_idle_per_host: None }
    }
}

/// What came of the last try to send a request.
pub enum RequestOutcome {
    /// A response whose body was read.
    Answered { status: u16, body: String },
    /// A response whose body could not be read.
    Unreadable { status: u16, reason: String },
    /// No response. The failure may name a status.
    Failed { status: Option<u16>, reason: String },
}

/// `result` is what is kept of a task.
pub open spec fn tells_of_task(
    task: NetworkTask,
    outcome: RequestOutcome,
    timestamp: u64,
    result: NetworkResult,
) -> bool {
    &&& result.task_id == task.task_id
    &&& result.service_name == task.service_name
    &&& result.unix_timestamp == timestamp
    &&& match outcome {
        RequestOutcome::Answered { status, body } => {
            &&& result.status_code == status
            &&& result.response_body == body
            &&& result.error is None
        },
        RequestOutcome::Unreadable { status, reason } => {
            &&& result.status_code == status
            &&& result.response_body@.len() == 0
            &&& result.error matches Some(told) && told@ == "Не удалось прочитать тело ответа: "@
                + reason@
        },
        RequestOutcome::Failed { status, reason } => {
            &&& result.status_code == match status {
                Some(code) => code,
                None => 0,
            }
            &&& result.response_body@.len() == 0
            &&& result.error matches Some(told) && told@ == "Ошибка сетевого запроса: "@ + reason@
        },
    }
}

/// Puts together what is kept of a task.
pub fn task_result(task: &NetworkTask, outcome: RequestOutcome, timestamp: u64) -> (result:
    NetworkResult)
    ensures
        tells_of_task(*task, outcome, timestamp, result),
{
    let (status_code, response_body, error) = match outcome {
        RequestOutcome::Answered { status, body } => (status, body, None),
        RequestOutcome::Unreadable { status, reason } => (
            status,
            String::new(),
            Some(joined("Не удалось прочитать тело ответа: ", &reason)),
        ),
        RequestOutcome::Failed { status, reason } => (
            status.unwrap_or(0),
            String::new(),
            Some(joined("Ошибка сетевого запроса: ", &reason)),
        ),
    };
    NetworkResult {
        task_id: task.task_id.clone(),
        service_name: task.service_name.clone(),
        status_code,
        response_body,
        error,
        unix_timestamp: timestamp,
    }
}

/// Puts what is kept of a task into the cache, under its identifier. `clock` is the
/// reading of the clock when the request was over.
pub fn finish_task(
    cache: &mut AddInCache,
    task: NetworkTask,
    outcome: RequestOutcome,
    clock: Option<u64>,
)
    ensures
        final(cache).same_but_results(*old(cache)),
        final(cache).results().contains_key(task.task_id@),
        tells_of_task(
            task,
            outcome,
            unix_time(clock),
            final(cache).results()[task.task_id@],
        ),
        final(cache).results() == old(cache).results().insert(
            task.task_id@,
            final(cache).results()[task.task_id@],
        ),
{
    let result = task_result(&task, outcome, unix_time_of(clock));
    insert_result(&mut cache.output_storage, task.task_id, result);
}

/// Whatever a task asks for, the request has a valid method.
pub proof fn method_is_always_valid(text: Seq<char>)
    ensures
        method_name(method_or_get(text)),
{
    reveal_strlit("GET");
}

} // verus!
