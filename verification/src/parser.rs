//! Batches of tasks and settings as the host describes them.
use crate::cache::NetworkTask;
use crate::json::{safe_deserialize_json, JsonFault};
#[allow(unused_imports)]
use crate::json::complaint;
use std::collections::HashMap;
use vstd::prelude::*;

verus! {

/// The method of a task that names none.
pub fn default_method() -> (method: String)
    ensures
        method@ == "GET"@,
{
    "GET".to_owned()
}

/// The number of tasks that may wait where the settings name none.
pub fn default_max_rows() -> (rows: usize)
    ensures
        rows == 1000,
{
    1000
}

/// The time limit, in seconds, where the settings name none.
pub fn default_timeout() -> (seconds: u64)
    ensures
        seconds == 30,
{
    30
}

/// A task as the host describes it.
#[derive(Debug, Clone)]
pub struct AddInTaskManifest {
    pub task_id: String,
    pub service_name: String,
    pub url: String,
    pub method: String,
    pub headers: HashMap<String, String>,
    pub payload: String,
}

/// A batch of tasks as the host describes it.
#[derive(Debug)]
pub struct AddInBatchManifest {
    pub tasks: Vec<AddInTaskManifest>,
}

/// The settings as the host describes them.
#[derive(Debug)]
pub struct AddInSettingsManifest {
    pub max_rows: usize,
    pub secs_timeouts: u64,
    pub danger_accept_invalid_certs: bool,
    pub ca_cert_path: Option<String>,
    pub client_cert_path: Option<String>,
    pub client_key_path: Option<String>,
}

/// The task that a description stands for.
pub open spec fn described_task(manifest: AddInTaskManifest) -> NetworkTask {
    NetworkTask {
        task_id: manifest.task_id,
        service_name: manifest.service_name,
        url: manifest.url,
        metod: manifest.method,
        headers: manifest.headers,
        payload: manifest.payload,
    }
}

/// The tasks that a batch stands for, in its order.
pub open spec fn described_tasks(batch: AddInBatchManifest) -> Seq<NetworkTask> {
    batch.tasks@.map_values(|manifest: AddInTaskManifest| described_task(manifest))
}

/// `result` is what the host's text gives when the JSON reader has made `parsed` of it.
pub open spec fn incoming(
    json: Seq<char>,
    parsed: Result<AddInBatchManifest, JsonFault>,
    result: Result<Vec<NetworkTask>, String>,
) -> bool {
    match complaint(json, parsed) {
        Some(text) => result matches Err(told) && told@ == text,
        None => result matches Ok(tasks) && tasks@ == described_tasks(parsed->Ok_0),
    }
}

/// Turns what the JSON reader has made of a text of the host into tasks, or into a
/// message for people.
pub fn process_incoming_json(
    json_from_1c: &str,
    parsed: Result<AddInBatchManifest, JsonFault>,
) -> (result: Result<Vec<NetworkTask>, String>)
    ensures
        incoming(json_from_1c@, parsed, result),
{
    let batch = match safe_deserialize_json(json_from_1c, parsed) {
        Ok(batch) => batch,
        Err(told) => return Err(told),
    };
    let ghost all = batch.tasks@;
    let ghost wanted = described_tasks(batch);
    let mut network_tasks: Vec<NetworkTask> = Vec::new();
    for manifest in manifests: batch.tasks
        invariant
            manifests.seq() == all,
            wanted == all.map_values(|manifest: AddInTaskManifest| described_task(manifest)),
            network_tasks@ == wanted.take(manifests.index()),
    {
        proof {
            let at = manifests.index();
            assert(wanted.take(at + 1) =~= wanted.take(at).push(described_task(all[at])));
        }
        network_tasks.push(
            NetworkTask {
                task_id: manifest.task_id,
                service_name: manifest.service_name,
                url: manifest.url,
                metod: manifest.method,
                headers: manifest.headers,
                payload: manifest.payload,
            },
        );
    }
    proof {
        assert(wanted.take(wanted.len() as int) =~= wanted);
    }
    Ok(network_tasks)
}

} // verus!
