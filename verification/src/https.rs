//! The order in which certificates and keys are read and handed to the HTTP client.
use crate::pem::{read_certificate_pem, read_identity_pem, CaReading, IdentityReading};
#[allow(unused_imports)]
use crate::pem::{pkcs8_pem, short_enough};
use crate::text::joined;
use vstd::prelude::*;
use vstd::string::*;

verus! {

/// How the client proves who it is and whom it trusts.
pub struct SSLConfig {
    pub danger_accept_invalid_certs: bool,
    pub ca_cert_path: Option<String>,
    pub client_cert_path: Option<String>,
    pub client_key_path: Option<String>,
}

/// What is to be done next to set up the client.
pub enum SslStep {
    /// Switch the check of the server's certificate off.
    AcceptInvalidCerts,
    /// Read the file with the certificate of the trusted authority.
    ReadCa { path: String },
    /// Trust the authority with this certificate.
    AddCa { pem: Vec<u8> },
    /// Read the file with the certificate of the client.
    ReadClientCert { path: String },
    /// Read the file with the private key of the client.
    ReadClientKey { path: String, cert_pem: Vec<u8> },
    /// Let the client prove who it is with this certificate and this key.
    AddIdentity { cert_pem: Vec<u8>, key_pem: Vec<u8> },
    /// The client is set up.
    Done,
    /// The client cannot be set up.
    Failed { message: String },
}

/// What came of a step.
pub enum SslEvent {
    /// The file was read.
    Contents(Vec<u8>),
    /// The file could not be opened. `path` is the path as it is shown to people.
    NotOpened { path: String, reason: String },
    /// The file could be opened but not read.
    NotRead { path: String, reason: String },
    /// The client took the setting, certificate or key.
    Installed,
    /// The certificate or key is not one.
    Rejected { reason: String },
}

/// Whether an event can come of a step.
pub open spec fn fits(step: SslStep, event: SslEvent) -> bool {
    match step {
        SslStep::AcceptInvalidCerts => event is Installed,
        SslStep::AddCa { .. } | SslStep::AddIdentity { .. } => event is Installed
            || event is Rejected,
        SslStep::Done | SslStep::Failed { .. } => false,
        _ => event is Contents || event is NotOpened || event is NotRead,
    }
}

/// `step` gives up with this message.
pub open spec fn fails_with(step: SslStep, message: Seq<char>) -> bool {
    step matches SslStep::Failed { message: told } && told@ == message
}

/// `step` turns to the certificate of the client, if there is one.
pub open spec fn turns_to_client(config: SSLConfig, step: SslStep) -> bool {
    match config.client_cert_path {
        Some(path) => step == SslStep::ReadClientCert { path },
        None => step is Done,
    }
}

/// `step` turns to the certificate of the authority, if there is one.
pub open spec fn turns_to_ca(config: SSLConfig, step: SslStep) -> bool {
    match config.ca_cert_path {
        Some(path) => step == SslStep::ReadCa { path },
        None => turns_to_client(config, step),
    }
}

/// `step` is the first.
pub open spec fn begins(config: SSLConfig, step: SslStep) -> bool {
    if config.danger_accept_invalid_certs {
        step is AcceptInvalidCerts
    } else {
        turns_to_ca(config, step)
    }
}

/// `next` is what is to be done when `event` has come of `step`.
pub open spec fn follows(config: SSLConfig, step: SslStep, event: SslEvent, next: SslStep) -> bool {
    match event {
        SslEvent::NotOpened { path, reason } => fails_with(
            next,
            "Не удалось открыть файл "@ + path@ + ": "@ + reason@,
        ),
        SslEvent::NotRead { path, reason } => fails_with(
            next,
            "Не удалось прочитать файл "@ + path@ + ": "@ + reason@,
        ),
        SslEvent::Rejected { reason } => if step is AddCa {
            fails_with(next, "Ошибка парсинга CA сертификата: "@ + reason@)
        } else {
            fails_with(next, "Ошибка создания Identity (mTLS): "@ + reason@)
        },
        SslEvent::Contents(bytes) => match step {
            SslStep::ReadCa { .. } => next == SslStep::AddCa { pem: bytes },
            SslStep::ReadClientCert { .. } => match config.client_key_path {
                Some(path) => next == SslStep::ReadClientKey { path, cert_pem: bytes },
                None => fails_with(
                    next,
                    "Указан клиентский сертификат, но отсутствует закрытый ключ!"@,
                ),
            },
            SslStep::ReadClientKey { cert_pem, .. } => next == SslStep::AddIdentity {
                cert_pem,
                key_pem: bytes,
            },
            _ => false,
        },
        SslEvent::Installed => match step {
            SslStep::AcceptInvalidCerts => turns_to_ca(config, next),
            SslStep::AddCa { .. } => turns_to_client(config, next),
            _ => next is Done,
        },
    }
}

fn client_step(config: &SSLConfig) -> (step: SslStep)
    ensures
        turns_to_client(*config, step),
{
    match &config.client_cert_path {
        Some(path) => SslStep::ReadClientCert { path: path.clone() },
        None => SslStep::Done,
    }
}

fn ca_step(config: &SSLConfig) -> (step: SslStep)
    ensures
        turns_to_ca(*config, step),
{
    match &config.ca_cert_path {
        Some(path) => SslStep::ReadCa { path: path.clone() },
        None => client_step(config),
    }
}

/// What is to be done first to set up the client.
pub fn first_step(config: &SSLConfig) -> (step: SslStep)
    ensures
        begins(*config, step),
{
    if config.danger_accept_invalid_certs {
        SslStep::AcceptInvalidCerts
    } else {
        ca_step(config)
    }
}

fn file_failure(intro: &str, path: &str, reason: &str) -> (step: SslStep)
    ensures
        fails_with(step, intro@ + path@ + ": "@ + reason@),
{
    let mut message = joined(intro, path);
    message.append(": ");
    message.append(reason);
    SslStep::Failed { message }
}

/// What is to be done when `event` has come of `step`.
pub fn next_step(config: &SSLConfig, step: SslStep, event: SslEvent) -> (next: SslStep)
    requires
        fits(step, event),
    ensures
        follows(*config, step, event, next),
{
    match event {
        SslEvent::NotOpened { path, reason } => file_failure(
            "Не удалось открыть файл ",
            &path,
            &reason,
        ),
        SslEvent::NotRead { path, reason } => file_failure(
            "Не удалось прочитать файл ",
            &path,
            &reason,
        ),
        SslEvent::Rejected { reason } => match step {
            SslStep::AddCa { .. } => SslStep::Failed {
                message: joined("Ошибка парсинга CA сертификата: ", &reason),
            },
            _ => SslStep::Failed {
                message: joined("Ошибка создания Identity (mTLS): ", &reason),
            },
        },
        SslEvent::Contents(bytes) => match step {
            SslStep::ReadCa { .. } => SslStep::AddCa { pem: bytes },
            SslStep::ReadClientKey { cert_pem, .. } => SslStep::AddIdentity {
                cert_pem,
                key_pem: bytes,
            },
            _ => match &config.client_key_path {
                Some(path) => SslStep::ReadClientKey { path: path.clone(), cert_pem: bytes },
                None => SslStep::Failed {
                    message: "Указан клиентский сертификат, но отсутствует закрытый ключ!".to_owned(),
                },
            },
        },
        SslEvent::Installed => match step {
            SslStep::AcceptInvalidCerts => ca_step(config),
            SslStep::AddCa { .. } => client_step(config),
            _ => SslStep::Done,
        },
    }
}

/// Does the step that adds the certificate of an authority: what the reading holds is to
/// be handed to the client.
pub fn read_ca(config: &SSLConfig, pem: Vec<u8>) -> (outcome: (CaReading, SslStep))
    requires
        short_enough(pem@),
    ensures
        outcome.0.pem() == pem@,
        match outcome.0.refusal() {
            None => turns_to_client(*config, outcome.1),
            Some(reason) => fails_with(
                outcome.1,
                "Ошибка парсинга CA сертификата: "@ + reason,
            ),
        },
{
    let reading = read_certificate_pem(&pem);
    let event = match reading.reason() {
        None => SslEvent::Installed,
        Some(reason) => SslEvent::Rejected { reason },
    };
    let next = next_step(config, SslStep::AddCa { pem }, event);
    (reading, next)
}

/// Does the step that adds the identity of the client: what the reading holds is to be
/// handed to the client. It holds none where the key has not the header of a PKCS#8 key.
pub fn read_identity(config: &SSLConfig, cert_pem: Vec<u8>, key_pem: Vec<u8>) -> (outcome: (
    IdentityReading,
    SslStep,
))
    requires
        short_enough(cert_pem@),
        short_enough(key_pem@),
    ensures
        outcome.0.cert_pem() == cert_pem@,
        outcome.0.key_pem() == key_pem@,
        outcome.0.refusal() is None ==> pkcs8_pem(key_pem@),
        match outcome.0.refusal() {
            None => outcome.1 is Done,
            Some(reason) => fails_with(
                outcome.1,
                "Ошибка создания Identity (mTLS): "@ + reason,
            ),
        },
{
    let reading = read_identity_pem(&cert_pem, &key_pem);
    let event = match reading.reason() {
        None => SslEvent::Installed,
        Some(reason) => SslEvent::Rejected { reason },
    };
    let next = next_step(config, SslStep::AddIdentity { cert_pem, key_pem }, event);
    (reading, next)
}

/// The steps and events of a setup up to now: `steps[i + 1]` is what was to be done when
/// `events[i]` had come of `steps[i]`.
pub open spec fn setup_runs(
    config: SSLConfig,
    steps: Seq<SslStep>,
    events: Seq<SslEvent>,
) -> bool {
    &&& steps.len() == events.len() + 1
    &&& begins(config, steps[0])
    &&& forall|i: int|
        0 <= i < events.len() ==> fits(steps[i], #[trigger] events[i]) && follows(
            config,
            steps[i],
            events[i],
            steps[i + 1],
        )
}

/// How many steps may still come.
pub open spec fn steps_left(step: SslStep) -> nat {
    match step {
        SslStep::AcceptInvalidCerts => 6,
        SslStep::ReadCa { .. } => 5,
        SslStep::AddCa { .. } => 4,
        SslStep::ReadClientCert { .. } => 3,
        SslStep::ReadClientKey { .. } => 2,
        SslStep::AddIdentity { .. } => 1,
        SslStep::Done | SslStep::Failed { .. } => 0,
    }
}

/// Every step leaves fewer to come.
pub proof fn setup_ends(config: SSLConfig, step: SslStep, event: SslEvent, next: SslStep)
    requires
        fits(step, event),
        follows(config, step, event, next),
    ensures
        steps_left(next) < steps_left(step),
{
}

/// A setup takes no more than six steps.
pub proof fn setup_is_short(config: SSLConfig, steps: Seq<SslStep>, events: Seq<SslEvent>)
    requires
        setup_runs(config, steps, events),
    ensures
        events.len() + steps_left(steps.last()) <= 6,
    decreases events.len(),
{
    if events.len() > 0 {
        let last = events.len() - 1;
        lemma_shorter_run(config, steps, events);
        setup_is_short(config, steps.drop_last(), events.drop_last());
        setup_ends(config, steps[last], events[last], steps[last + 1]);
    }
}

proof fn lemma_shorter_run(config: SSLConfig, steps: Seq<SslStep>, events: Seq<SslEvent>)
    requires
        setup_runs(config, steps, events),
        events.len() > 0,
    ensures
        setup_runs(config, steps.drop_last(), events.drop_last()),
{
    let fewer = events.drop_last();
    assert forall|i: int| 0 <= i < fewer.len() implies fits(
        steps.drop_last()[i],
        #[trigger] fewer[i],
    ) && follows(config, steps.drop_last()[i], fewer[i], steps.drop_last()[i + 1]) by {
        assert(fewer[i] == events[i]);
    }
}

/// What a step tells of the settings and of what has been read.
spec fn step_tells(config: SSLConfig, step: SslStep) -> bool {
    match step {
        SslStep::ReadCa { path } => config.ca_cert_path == Some(path),
        SslStep::AddCa { .. } => config.ca_cert_path is Some,
        SslStep::ReadClientCert { path } => config.client_cert_path == Some(path),
        SslStep::ReadClientKey { path, .. } => config.client_cert_path is Some
            && config.client_key_path == Some(path),
        SslStep::AddIdentity { .. } => config.client_cert_path is Some
            && config.client_key_path is Some,
        SslStep::Done => config.client_cert_path is Some ==> config.client_key_path is Some,
        _ => true,
    }
}

proof fn lemma_steps_tell(config: SSLConfig, steps: Seq<SslStep>, events: Seq<SslEvent>)
    requires
        setup_runs(config, steps, events),
    ensures
        step_tells(config, steps.last()),
    decreases events.len(),
{
    if events.len() > 0 {
        let last = events.len() - 1;
        lemma_shorter_run(config, steps, events);
        lemma_steps_tell(config, steps.drop_last(), events.drop_last());
        assert(steps.drop_last().last() == steps[last]);
        assert(fits(steps[last], events[last]));
    }
}

/// A client certificate without a key is never accepted, whatever the files hold.
pub proof fn certificate_needs_key(
    config: SSLConfig,
    steps: Seq<SslStep>,
    events: Seq<SslEvent>,
)
    requires
        setup_runs(config, steps, events),
        config.client_cert_path is Some,
        config.client_key_path is None,
    ensures
        !(steps.last() is Done),
{
    lemma_steps_tell(config, steps, events);
}

/// Where every file is read and every setting taken, the setup does not fail, unless the
/// key of a client certificate is missing.
pub proof fn setup_succeeds(config: SSLConfig, steps: Seq<SslStep>, events: Seq<SslEvent>)
    requires
        setup_runs(config, steps, events),
        forall|i: int|
            0 <= i < events.len() ==> #[trigger] events[i] is Contents || events[i] is Installed,
        config.client_cert_path is Some ==> config.client_key_path is Some,
    ensures
        !(steps.last() is Failed),
    decreases events.len(),
{
    if events.len() > 0 {
        let last = events.len() - 1;
        assert(fits(steps[last], events[last]));
        assert(events[last] is Contents || events[last] is Installed);
        lemma_shorter_run(config, steps, events);
        lemma_steps_tell(config, steps.drop_last(), events.drop_last());
        assert(steps.drop_last().last() == steps[last]);
    }
}

/// A setup that is done has switched the check off, trusted the authority and installed
/// the identity, each as far as the settings ask for it.
pub proof fn done_setup_used_every_file(
    config: SSLConfig,
    steps: Seq<SslStep>,
    events: Seq<SslEvent>,
)
    requires
        setup_runs(config, steps, events),
        steps.last() is Done,
    ensures
        config.danger_accept_invalid_certs ==> exists|i: int|
            0 <= i < events.len() && #[trigger] steps[i] is AcceptInvalidCerts
                && events[i] is Installed,
        config.ca_cert_path is Some ==> exists|i: int|
            0 <= i < events.len() && #[trigger] steps[i] is AddCa && events[i] is Installed,
        config.client_cert_path is Some ==> exists|i: int|
            0 <= i < events.len() && #[trigger] steps[i] is AddIdentity && events[i] is Installed,
{
    lemma_files_used(config, steps, events);
}

/// The settings that have been dealt with when a step is reached.
spec fn dealt_with(
    config: SSLConfig,
    steps: Seq<SslStep>,
    events: Seq<SslEvent>,
) -> bool {
    let step = steps.last();
    &&& config.danger_accept_invalid_certs && !(step is AcceptInvalidCerts) && !(step is Failed)
        ==> exists|i: int|
        0 <= i < events.len() && #[trigger] steps[i] is AcceptInvalidCerts
            && events[i] is Installed
    &&& config.ca_cert_path is Some && (step is ReadClientCert || step is ReadClientKey
        || step is AddIdentity || step is Done) ==> exists|i: int|
        0 <= i < events.len() && #[trigger] steps[i] is AddCa && events[i] is Installed
    &&& config.client_cert_path is Some && step is Done ==> exists|i: int|
        0 <= i < events.len() && #[trigger] steps[i] is AddIdentity && events[i] is Installed
}

proof fn lemma_files_used(config: SSLConfig, steps: Seq<SslStep>, events: Seq<SslEvent>)
    requires
        setup_runs(config, steps, events),
    ensures
        dealt_with(config, steps, events),
    decreases events.len(),
{
    if events.len() > 0 {
        let last = events.len() - 1;
        let fewer_steps = steps.drop_last();
        let fewer = events.drop_last();
        lemma_shorter_run(config, steps, events);
        lemma_files_used(config, fewer_steps, fewer);
        assert(fewer_steps.last() == steps[last]);
        assert(fits(steps[last], events[last]));
        assert forall|i: int| 0 <= i < fewer.len() implies #[trigger] fewer_steps[i] == steps[i]
            && fewer[i] == events[i] by {}
        assert(steps[last] == fewer_steps.last());
    }
}

/// The first steps and events of a setup are those of a setup.
proof fn lemma_first_part_of_run(
    config: SSLConfig,
    steps: Seq<SslStep>,
    events: Seq<SslEvent>,
    at: int,
)
    requires
        setup_runs(config, steps, events),
        0 <= at < steps.len(),
    ensures
        setup_runs(config, steps.take(at + 1), events.take(at)),
        steps.take(at + 1).last() == steps[at],
{
    let first = events.take(at);
    assert forall|i: int| 0 <= i < first.len() implies fits(
        steps.take(at + 1)[i],
        #[trigger] first[i],
    ) && follows(config, steps.take(at + 1)[i], first[i], steps.take(at + 1)[i + 1]) by {
        assert(first[i] == events[i]);
    }
}

/// A setup switches the check off only where the settings ask for it.
pub proof fn check_is_switched_off_only_on_demand(
    config: SSLConfig,
    steps: Seq<SslStep>,
    events: Seq<SslEvent>,
    at: int,
)
    requires
        setup_runs(config, steps, events),
        0 <= at < steps.len(),
        steps[at] is AcceptInvalidCerts,
    ensures
        config.danger_accept_invalid_certs,
{
    if at > 0 {
        assert(fits(steps[at - 1], events[at - 1]));
    }
}

/// A setup trusts an authority only where the settings name one, and its certificate is
/// what was read from the file that they name.
pub proof fn authority_is_that_of_the_settings(
    config: SSLConfig,
    steps: Seq<SslStep>,
    events: Seq<SslEvent>,
    at: int,
)
    requires
        setup_runs(config, steps, events),
        0 <= at < steps.len(),
        steps[at] is AddCa,
    ensures
        at > 0,
        config.ca_cert_path is Some,
        steps[at - 1] == (SslStep::ReadCa { path: config.ca_cert_path->Some_0 }),
        events[at - 1] == SslEvent::Contents(steps[at]->pem),
{
    assert(at > 0);
    assert(fits(steps[at - 1], events[at - 1]));
    lemma_first_part_of_run(config, steps, events, at - 1);
    lemma_steps_tell(config, steps.take(at), events.take(at - 1));
}

/// A setup gives the client an identity only where the settings name its certificate and
/// its key, and the two are what was read from the files that they name.
pub proof fn identity_is_that_of_the_settings(
    config: SSLConfig,
    steps: Seq<SslStep>,
    events: Seq<SslEvent>,
    at: int,
)
    requires
        setup_runs(config, steps, events),
        0 <= at < steps.len(),
        steps[at] is AddIdentity,
    ensures
        at > 1,
        config.client_cert_path is Some,
        config.client_key_path is Some,
        steps[at - 2] == (SslStep::ReadClientCert { path: config.client_cert_path->Some_0 }),
        events[at - 2] == SslEvent::Contents(steps[at]->AddIdentity_cert_pem),
        steps[at - 1] is ReadClientKey,
        steps[at - 1]->ReadClientKey_path == config.client_key_path->Some_0,
        events[at - 1] == SslEvent::Contents(steps[at]->key_pem),
{
    assert(at > 0);
    assert(fits(steps[at - 1], events[at - 1]));
    assert(steps[at - 1] is ReadClientKey);
    assert(at > 1);
    assert(fits(steps[at - 2], events[at - 2]));
    lemma_first_part_of_run(config, steps, events, at - 1);
    lemma_steps_tell(config, steps.take(at), events.take(at - 1));
    lemma_first_part_of_run(config, steps, events, at - 2);
    lemma_steps_tell(config, steps.take(at - 1), events.take(at - 2));
}

} // verus!
