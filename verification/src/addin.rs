//! The component that the host talks to.
use crate::cache::{AddInCache, NetworkResult, NetworkTask, PushResult};
#[allow(unused_imports)]
use crate::cache::{popped, unacknowledged};
use crate::https::SSLConfig;
use crate::json::{
    deserialize_strings, safe_deserialize_json, safe_serialize_json, write_json_string, JsonFault,
};
#[allow(unused_imports)]
use crate::json::{
    complaint, expected_strings, json_list, json_string, json_strings, plain_text_is_quoted,
    read_texts,
};
use crate::parser::{process_incoming_json, AddInBatchManifest, AddInSettingsManifest};
#[allow(unused_imports)]
use crate::parser::described_tasks;
#[allow(unused_imports)]
use crate::queue::{
    all_offered, all_offered_after, all_offered_alone, channel_fits, offered_after,
    nothing_offered_alone, one_more_offered_alone,
};
#[allow(unused_imports)]
use crate::text::blank;
use crate::text::{is_blank, joined};
use vstd::prelude::*;

verus! {

/// The component that the host talks to.
pub struct NetworkAddIn {
    pub version: String,
    /// Nothing until the settings are known.
    pub cache: Option<AddInCache>,
}

/// What is told where the settings are not known yet.
pub open spec fn not_configured_text() -> Seq<char> {
    "Критическая ошибка: Движок не инициализирован! Сначала необходимо вызвать метод Настроить()."@
}

fn not_configured() -> (message: String)
    ensures
        message@ == not_configured_text(),
{
    "Критическая ошибка: Движок не инициализирован! Сначала необходимо вызвать метод Настроить().".to_owned()
}

/// Why a request of the host came to nothing.
pub enum Refusal {
    /// The settings are not known yet.
    NotConfigured { message: String },
    /// The text of the host could not be read.
    Unreadable { message: String },
    /// The engine has left the queue.
    Disconnected,
}

/// The request is refused because the settings are not known yet.
pub open spec fn refused_for_settings(refusal: Refusal) -> bool {
    refusal matches Refusal::NotConfigured { message } && message@ == not_configured_text()
}

/// The request is refused because of its text, with these words.
pub open spec fn refused_for_text(refusal: Refusal, text: Seq<char>) -> bool {
    refusal matches Refusal::Unreadable { message } && message@ == text
}

/// `cache` is a new one with these settings.
pub open spec fn set_up(cache: AddInCache, settings: AddInSettingsManifest) -> bool {
    &&& cache.wf()
    &&& cache.undisturbed()
    &&& cache.queue() == Seq::<NetworkTask>::empty()
    &&& cache.results() == Map::<Seq<char>, NetworkResult>::empty()
    &&& cache.max_rows == settings.max_rows
    &&& cache.max_duration == settings.secs_timeouts
    &&& cache.ssl_config == (SSLConfig {
        danger_accept_invalid_certs: settings.danger_accept_invalid_certs,
        ca_cert_path: settings.ca_cert_path,
        client_cert_path: settings.client_cert_path,
        client_key_path: settings.client_key_path,
    })
}

/// The service that a filter asks for: none in particular where it is blank.
pub open spec fn wanted_service(filter_service: Seq<char>) -> Option<Seq<char>> {
    if blank(filter_service) {
        None
    } else {
        Some(filter_service)
    }
}

/// The number of results that a limit allows, zero for any number.
pub open spec fn allowed(limit: i64) -> usize {
    if limit <= 0 {
        0
    } else {
        limit as usize
    }
}

impl Default for NetworkAddIn {
    fn default() -> (addin: Self)
        ensures
            addin.version@ == "1.0.0"@,
            addin.cache is None,
    {
        NetworkAddIn::new()
    }
}

impl NetworkAddIn {
    /// The cache, if there is one, is in order.
    pub open spec fn wf(self) -> bool {
        self.cache matches Some(cache) ==> cache.wf()
    }

    /// A component that does not know its settings yet.
    pub fn new() -> (addin: Self)
        ensures
            addin.version@ == "1.0.0"@,
            addin.cache is None,
    {
        NetworkAddIn { version: "1.0.0".to_owned(), cache: None }
    }

    /// The cache, or a message for people where the settings are not known yet.
    pub fn get_cache(&self) -> (result: Result<&AddInCache, String>)
        ensures
            match self.cache {
                Some(cache) => result matches Ok(found) && *found == cache,
                None => result matches Err(told) && told@ == not_configured_text(),
            },
    {
        match &self.cache {
            Some(cache) => Ok(cache),
            None => Err(not_configured()),
        }
    }

    /// Takes the settings, with a new cache in place of the one that was there. `parsed`
    /// is what the JSON reader has made of the text. Where the text does not give
    /// settings, nothing changes, and people are told why.
    pub fn ffi_configure(
        &mut self,
        json_settings: &str,
        parsed: Result<AddInSettingsManifest, JsonFault>,
    ) -> (result: Result<(), String>)
        requires
            complaint(json_settings@, parsed) is None ==> channel_fits(parsed->Ok_0.max_rows),
        ensures
            match complaint(json_settings@, parsed) {
                Some(text) => *final(self) == *old(self) && result is Err && result->Err_0@
                    == text,
                None => result is Ok && final(self).version == old(self).version
                    && final(self).cache is Some && set_up(
                    final(self).cache->Some_0,
                    parsed->Ok_0,
                ),
            },
    {
        let settings = match safe_deserialize_json(json_settings, parsed) {
            Ok(settings) => settings,
            Err(told) => return Err(told),
        };
        let ssl_config = SSLConfig {
            danger_accept_invalid_certs: settings.danger_accept_invalid_certs,
            ca_cert_path: settings.ca_cert_path,
            client_cert_path: settings.client_cert_path,
            client_key_path: settings.client_key_path,
        };
        self.cache = Some(AddInCache::new(settings.max_rows, settings.secs_timeouts, ssl_config));
        Ok(())
    }

    /// Offers the tasks of a batch to the engine, and gives the answer for each. `parsed`
    /// is what the JSON reader has made of the text. Tasks that find no room are dropped.
    /// Where the settings are not known or the text gives no tasks, nothing changes.
    pub fn ffi_push_tasks(
        &mut self,
        json_task: &str,
        parsed: Result<AddInBatchManifest, JsonFault>,
    ) -> (result: Result<Vec<PushResult>, Refusal>)
        requires
            old(self).wf(),
        ensures
            final(self).wf(),
            result is Ok <==> old(self).cache is Some && complaint(json_task@, parsed) is None,
            result is Err ==> *final(self) == *old(self),
            old(self).cache is None ==> result is Err && refused_for_settings(result->Err_0),
            old(self).cache is Some ==> (complaint(json_task@, parsed) matches Some(text) ==> result
                is Err && refused_for_text(result->Err_0, text)),
            result is Ok ==> final(self).version == old(self).version && final(self).cache is Some
                && final(self).cache->Some_0.same_but_queue(old(self).cache->Some_0)
                && all_offered(
                old(self).cache->Some_0.queue(),
                old(self).cache->Some_0.max_rows,
                described_tasks(parsed->Ok_0),
                result->Ok_0@,
                final(self).cache->Some_0.queue(),
            ),
            result is Ok && old(self).cache->Some_0.undisturbed()
                ==> final(self).cache->Some_0.undisturbed() && all_offered_alone(
                old(self).cache->Some_0.queue(),
                old(self).cache->Some_0.max_rows,
                described_tasks(parsed->Ok_0),
                result->Ok_0@,
                final(self).cache->Some_0.queue(),
            ),
    {
        let cache = match &mut self.cache {
            Some(cache) => cache,
            None => return Err(Refusal::NotConfigured { message: not_configured() }),
        };
        let tasks = match process_incoming_json(json_task, parsed) {
            Ok(tasks) => tasks,
            Err(message) => return Err(Refusal::Unreadable { message }),
        };
        push_all(cache, tasks)
    }

    /// Copies out the results of a service, of all services where the filter is blank, at
    /// most `limit` of them where that is positive. Where the settings are not known, the
    /// JSON text to be answered is given instead.
    pub fn ffi_pop_results(&self, filter_service: &str, limit: i64) -> (result: Result<
        Vec<NetworkResult>,
        String,
    >)
        ensures
            match self.cache {
                Some(cache) => result matches Ok(extracted) && popped(
                    cache.results(),
                    wanted_service(filter_service@),
                    allowed(limit),
                    extracted@,
                ),
                None => result matches Err(json) && json@ == json_string(
                    "Ошибка: "@ + not_configured_text(),
                ),
            },
    {
        let cache = match self.get_cache() {
            Ok(cache) => cache,
            Err(told) => return Err(
                safe_serialize_json(write_json_string(&joined("Ошибка: ", &told))),
            ),
        };
        let filter = if is_blank(filter_service) {
            None
        } else {
            Some(filter_service)
        };
        let max_limit: usize = if limit <= 0 {
            0
        } else {
            #[verifier::truncate]
            (limit as usize)
        };
        Ok(cache.pop_results(filter, max_limit))
    }

    /// Forgets the results whose identifiers the JSON list names, and tells how many
    /// identifiers that are. Nothing changes where the settings are not known or the text
    /// is no list of strings.
    pub fn ffi_ack_results(&mut self, json_task_ids: &str) -> (result: Result<usize, Refusal>)
        ensures
            final(self).version == old(self).version,
            acknowledged(
                old(self).cache,
                expected_strings(json_task_ids@, json_strings(json_task_ids@)),
                result,
                final(self).cache,
            ),
            forall|task_ids: Seq<Seq<char>>|
                json_task_ids@ == #[trigger] json_list(task_ids) ==> acknowledged(
                    old(self).cache,
                    Ok(task_ids),
                    result,
                    final(self).cache,
                ),
    {
        let task_ids = deserialize_strings(json_task_ids);
        self.ack_named_results(task_ids)
    }

    /// Forgets the results with the identifiers that the host has named, and tells how
    /// many identifiers that are. Nothing changes where the settings are not known or
    /// there is a complaint in place of the identifiers.
    pub fn ack_named_results(&mut self, task_ids: Result<Vec<String>, String>) -> (result: Result<
        usize,
        Refusal,
    >)
        ensures
            final(self).version == old(self).version,
            acknowledged(old(self).cache, read_texts(task_ids), result, final(self).cache),
    {
        let cache = match &mut self.cache {
            Some(cache) => cache,
            None => return Err(Refusal::NotConfigured { message: not_configured() }),
        };
        match task_ids {
            Ok(task_ids) => {
                let named = task_ids.len();
                cache.ack_result(task_ids);
                Ok(named)
            },
            Err(message) => Err(Refusal::Unreadable { message }),
        }
    }
}

/// `before` became `after`, and `result` was given, when the host named these
/// identifiers. Nothing changes where there is a complaint in their place or no cache.
pub open spec fn acknowledged(
    before: Option<AddInCache>,
    task_ids: Result<Seq<Seq<char>>, Seq<char>>,
    result: Result<usize, Refusal>,
    after: Option<AddInCache>,
) -> bool {
    match (before, task_ids) {
        (None, _) => after is None && result is Err && refused_for_settings(result->Err_0),
        (Some(_), Err(text)) => after == before && result is Err && refused_for_text(
            result->Err_0,
            text,
        ),
        (Some(cache), Ok(ids)) => after is Some && after->Some_0.same_but_results(cache)
            && after->Some_0.results() == unacknowledged(cache.results(), ids) && result is Ok
            && result->Ok_0 == ids.len(),
    }
}

/// Offers tasks to the engine, one after the other, and gives the answer for each. Those
/// that find no room are dropped.
fn push_all(cache: &mut AddInCache, tasks: Vec<NetworkTask>) -> (result: Result<
    Vec<PushResult>,
    Refusal,
>)
    requires
        old(cache).wf(),
    ensures
        final(cache).wf(),
        final(cache).same_but_queue(*old(cache)),
        result is Ok,
        all_offered(
            old(cache).queue(),
            old(cache).max_rows,
            tasks@,
            result->Ok_0@,
            final(cache).queue(),
        ),
        old(cache).undisturbed() ==> final(cache).undisturbed() && all_offered_alone(
            old(cache).queue(),
            old(cache).max_rows,
            tasks@,
            result->Ok_0@,
            final(cache).queue(),
        ),
{
    let ghost all = tasks@;
    let mut results: Vec<PushResult> = Vec::new();
    let ghost mut taken: Seq<int> = Seq::empty();
    proof {
        nothing_offered_alone(cache.queue(), cache.max_rows);
        assert(all.take(0) =~= Seq::<NetworkTask>::empty());
        assert(results@ =~= Seq::<PushResult>::empty());
    }
    for task in pushed: tasks
        invariant
            pushed.seq() == all,
            cache.wf(),
            cache.same_but_queue(*old(cache)),
            all_offered_after(
                old(cache).queue(),
                taken,
                old(cache).max_rows,
                all.take(pushed.index()),
                results@,
                cache.queue(),
            ),
            old(cache).wf(),
            cache.undisturbed() == old(cache).undisturbed(),
            cache.undisturbed() ==> all_offered_alone(
                old(cache).queue(),
                old(cache).max_rows,
                all.take(pushed.index()),
                results@,
                cache.queue(),
            ),
    {
        let ghost between = cache.queue();
        let ghost earlier = results@;
        match cache.push_task(task) {
            PushResult::RuntimeDisconnected => {
                return Err(Refusal::Disconnected);
            },
            answer => {
                results.push(answer);
            },
        }
        proof {
            let at = pushed.index();
            let received = choose|received: int| #[trigger]
                offered_after(
                    between,
                    received,
                    cache.max_rows,
                    task,
                    results@.last(),
                    cache.queue(),
                );
            assert(taken.push(received).drop_last() =~= taken);
            taken = taken.push(received);
            assert(results@.drop_last() =~= earlier);
            assert(all.take(at + 1).drop_last() =~= all.take(at));
            assert(all.take(at + 1).last() == task);
            assert(offered_after(
                between,
                taken.last(),
                old(cache).max_rows,
                all.take(at + 1).last(),
                results@.last(),
                cache.queue(),
            ));
            if cache.undisturbed() {
                assert(all.take(at).push(task) =~= all.take(at + 1));
                one_more_offered_alone(
                    old(cache).queue(),
                    old(cache).max_rows,
                    all.take(at),
                    earlier,
                    between,
                    task,
                    results@.last(),
                    cache.queue(),
                );
                assert(earlier.push(results@.last()) =~= results@);
            }
        }
    }
    proof {
        assert(all.take(all.len() as int) =~= all);
    }
    Ok(results)
}

/// What a reader is answered while the settings are not known: a JSON string that says so.
pub proof fn answer_without_settings()
    ensures
        json_string("Ошибка: "@ + not_configured_text())
            == "\"Ошибка: Критическая ошибка: Движок не инициализирован! Сначала необходимо вызвать метод Настроить().\""@,
{
    reveal_strlit("Ошибка: ");
    reveal_strlit(
        "Критическая ошибка: Движок не инициализирован! Сначала необходимо вызвать метод Настроить().",
    );
    reveal_strlit(
        "\"Ошибка: Критическая ошибка: Движок не инициализирован! Сначала необходимо вызвать метод Настроить().\"",
    );
    plain_text_is_quoted("Ошибка: "@ + not_configured_text());
}

} // verus!
