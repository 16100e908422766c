//! The orchestrator: a state machine through `Starting`, `Extracting`,
//! `Fetching`, `Querying`, the notifying pair `NotifyReady`/`NotifySent`,
//! and the terminal `Done` and `Aborted`. Each step takes the current
//! state and one outside event (a fetched page, a fetched asset, a store
//! scan, one relay outcome) and returns the next state and the one
//! outside action to perform. Any failure before notifying aborts the
//! whole run; a relay failure only records a `Failure` result for its
//! recipient and moves to the next.

use crate::errors::{ErrorV, PipelineError};
use crate::extract::{extract, extraction_of};
use crate::message::{build_message, header_safe, message_bytes, subject_bytes, subject_line};
use crate::metadata::{
    code_day, code_month, code_year, is_release_code, parse_release_code, ReleaseMetadata,
};
use crate::store::{find_subscribers, missing_email_detail, subscriber_emails, StoreItem};
use vstd::prelude::*;
use vstd::string::StrSliceExecFns;
use vstd::utf8::encode_utf8;

verus! {

/// The configuration one pipeline instance runs with: where the source
/// page lives, who the mails come from, and which category of subscriber
/// records they go to.
pub struct Config {
    pub source_url: String,
    pub sender: String,
    pub category: String,
}

/// The mathematical value of a `Config`.
#[verifier::ext_equal]
pub ghost struct ConfigV {
    pub source_url: Seq<char>,
    pub sender: Seq<char>,
    pub category: Seq<char>,
}

impl View for Config {
    type V = ConfigV;

    open spec fn view(&self) -> ConfigV {
        ConfigV {
            source_url: self.source_url@,
            sender: self.sender@,
            category: self.category@,
        }
    }
}

/// How one relay submission ended for one recipient.
pub enum Outcome {
    Success,
    Failure { reason: String },
}

/// One notification result: the recipient and how the attempt ended.
/// Used only for the run's log; never persisted.
pub struct NotificationResult {
    pub recipient: String,
    pub outcome: Outcome,
}

/// The mathematical value of an `Outcome`.
#[verifier::ext_equal]
pub ghost enum OutcomeV {
    Success,
    Failure { reason: Seq<char> },
}

/// The mathematical value of a `NotificationResult`.
#[verifier::ext_equal]
pub ghost struct NotificationResultV {
    pub recipient: Seq<char>,
    pub outcome: OutcomeV,
}

impl View for Outcome {
    type V = OutcomeV;

    open spec fn view(&self) -> OutcomeV {
        match self {
            Outcome::Success => OutcomeV::Success,
            Outcome::Failure { reason } => OutcomeV::Failure { reason: reason@ },
        }
    }
}

impl View for NotificationResult {
    type V = NotificationResultV;

    open spec fn view(&self) -> NotificationResultV {
        NotificationResultV { recipient: self.recipient@, outcome: self.outcome@ }
    }
}

impl DeepView for NotificationResult {
    type V = NotificationResultV;

    open spec fn deep_view(&self) -> NotificationResultV {
        self@
    }
}

/// Where one run stands. `NotifyReady` is about to dispatch the
/// recipient at `next`; `NotifySent` awaits that recipient's relay
/// outcome.
pub enum RunState {
    Starting,
    Extracting,
    Fetching { meta: ReleaseMetadata },
    Querying { asset: Vec<u8>, subject: Vec<u8> },
    NotifyReady {
        asset: Vec<u8>,
        subject: Vec<u8>,
        recipients: Vec<String>,
        next: usize,
        results: Vec<NotificationResult>,
    },
    NotifySent {
        asset: Vec<u8>,
        subject: Vec<u8>,
        recipients: Vec<String>,
        next: usize,
        results: Vec<NotificationResult>,
    },
    Done { results: Vec<NotificationResult> },
    Aborted { error: PipelineError },
}

/// The mathematical value of a `RunState`.
#[verifier::ext_equal]
pub ghost enum StateV {
    Starting,
    Extracting,
    Fetching { meta: crate::metadata::MetaV },
    Querying { asset: Seq<u8>, subject: Seq<u8> },
    NotifyReady {
        asset: Seq<u8>,
        subject: Seq<u8>,
        recipients: Seq<Seq<char>>,
        next: int,
        results: Seq<NotificationResultV>,
    },
    NotifySent {
        asset: Seq<u8>,
        subject: Seq<u8>,
        recipients: Seq<Seq<char>>,
        next: int,
        results: Seq<NotificationResultV>,
    },
    Done { results: Seq<NotificationResultV> },
    Aborted { error: ErrorV },
}

impl View for RunState {
    type V = StateV;

    open spec fn view(&self) -> StateV {
        match self {
            RunState::Starting => StateV::Starting,
            RunState::Extracting => StateV::Extracting,
            RunState::Fetching { meta } => StateV::Fetching { meta: meta@ },
            RunState::Querying { asset, subject } => StateV::Querying {
                asset: asset@,
                subject: subject@,
            },
            RunState::NotifyReady { asset, subject, recipients, next, results } => StateV::NotifyReady {
                asset: asset@,
                subject: subject@,
                recipients: recipients.deep_view(),
                next: *next as int,
                results: results.deep_view(),
            },
            RunState::NotifySent { asset, subject, recipients, next, results } => StateV::NotifySent {
                asset: asset@,
                subject: subject@,
                recipients: recipients.deep_view(),
                next: *next as int,
                results: results.deep_view(),
            },
            RunState::Done { results } => StateV::Done { results: results.deep_view() },
            RunState::Aborted { error } => StateV::Aborted { error: error@ },
        }
    }
}

/// One outside action the driver of the machine performs: an HTTP fetch,
/// a store scan, one relay submission, another step at once (`Proceed`),
/// or nothing more (`Stop`).
pub enum Action {
    FetchPage { url: String },
    FetchAsset { url: String },
    QueryStore { category: String },
    Send { recipient: String, message: Vec<u8> },
    Proceed,
    Stop,
}

/// The mathematical value of an `Action`.
#[verifier::ext_equal]
pub ghost enum ActionV {
    FetchPage { url: Seq<char> },
    FetchAsset { url: Seq<char> },
    QueryStore { category: Seq<char> },
    Send { recipient: Seq<char>, message: Seq<u8> },
    Proceed,
    Stop,
}

impl View for Action {
    type V = ActionV;

    open spec fn view(&self) -> ActionV {
        match self {
            Action::FetchPage { url } => ActionV::FetchPage { url: url@ },
            Action::FetchAsset { url } => ActionV::FetchAsset { url: url@ },
            Action::QueryStore { category } => ActionV::QueryStore { category: category@ },
            Action::Send { recipient, message } => ActionV::Send {
                recipient: recipient@,
                message: message@,
            },
            Action::Proceed => ActionV::Proceed,
            Action::Stop => ActionV::Stop,
        }
    }
}

/// One outside event the driver hands back: what the last action
/// yielded. An `Err` carries the outside failure's wording.
#[allow(inconsistent_fields)]
pub enum Event {
    Start,
    PageFetched { result: Result<String, String> },
    AssetFetched { result: Result<Vec<u8>, String> },
    StoreScanned { result: Result<Vec<StoreItem>, String> },
    SendCompleted { result: Result<(), String> },
    Advance,
}

/// The mathematical value of an `Event`.
#[verifier::ext_equal]
#[allow(inconsistent_fields)]
pub ghost enum EventV {
    Start,
    PageFetched { result: Result<Seq<char>, Seq<char>> },
    AssetFetched { result: Result<Seq<u8>, Seq<char>> },
    StoreScanned { result: Result<Seq<StoreItem>, Seq<char>> },
    SendCompleted { result: Result<(), Seq<char>> },
    Advance,
}

impl View for Event {
    type V = EventV;

    open spec fn view(&self) -> EventV {
        match self {
            Event::Start => EventV::Start,
            Event::PageFetched { result } => EventV::PageFetched {
                result: match result {
                    Ok(page) => Ok(page@),
                    Err(detail) => Err(detail@),
                },
            },
            Event::AssetFetched { result } => EventV::AssetFetched {
                result: match result {
                    Ok(bytes) => Ok(bytes@),
                    Err(detail) => Err(detail@),
                },
            },
            Event::StoreScanned { result } => EventV::StoreScanned {
                result: match result {
                    Ok(items) => Ok(items@),
                    Err(detail) => Err(detail@),
                },
            },
            Event::SendCompleted { result } => EventV::SendCompleted {
                result: match result {
                    Ok(_) => Ok(()),
                    Err(detail) => Err(detail@),
                },
            },
            Event::Advance => EventV::Advance,
        }
    }
}

/// The detail wording of the one parse failure the orchestrator itself
/// raises, on a release code that is not a date.
pub open spec fn bad_code_detail() -> Seq<char> {
    "release code is not a date"@
}

/// Whether the three header fields of the message to `recipient` can
/// stand in header lines.
pub open spec fn sendable(sender: Seq<char>, subject: Seq<u8>, recipient: Seq<char>) -> bool {
    &&& header_safe(encode_utf8(recipient))
    &&& header_safe(encode_utf8(sender))
    &&& header_safe(subject)
}

/// The raw message submitted for `recipient`.
pub open spec fn message_for(
    sender: Seq<char>,
    subject: Seq<u8>,
    asset: Seq<u8>,
    recipient: Seq<char>,
) -> Seq<u8> {
    message_bytes(encode_utf8(recipient), encode_utf8(sender), subject, asset)
}

/// The transition relation of the run, one deterministic step: from a
/// state and the event it awaited, the next state and next action. A
/// pair the protocol never produces (an event in a state that does not
/// await it) changes nothing and stops.
pub open spec fn transition(config: ConfigV, state: StateV, event: EventV) -> (StateV, ActionV) {
    match (state, event) {
        (StateV::Starting, EventV::Start) => (
            StateV::Extracting,
            ActionV::FetchPage { url: config.source_url },
        ),
        (StateV::Extracting, EventV::PageFetched { result }) => match result {
            Ok(page) => match extraction_of(page) {
                Ok(meta) => (
                    StateV::Fetching { meta },
                    ActionV::FetchAsset { url: meta.asset_url },
                ),
                Err(detail) => (
                    StateV::Aborted { error: ErrorV::ParseError { detail } },
                    ActionV::Stop,
                ),
            },
            Err(detail) => (
                StateV::Aborted { error: ErrorV::FetchError { detail } },
                ActionV::Stop,
            ),
        },
        (StateV::Fetching { meta }, EventV::AssetFetched { result }) => match result {
            Ok(asset) => if is_release_code(meta.release_code) {
                (
                    StateV::Querying {
                        asset,
                        subject: subject_bytes(
                            code_day(meta.release_code) as u16,
                            code_month(meta.release_code) as u16,
                            code_year(meta.release_code) as u16,
                        ),
                    },
                    ActionV::QueryStore { category: config.category },
                )
            } else {
                (
                    StateV::Aborted { error: ErrorV::ParseError { detail: bad_code_detail() } },
                    ActionV::Stop,
                )
            },
            Err(detail) => (
                StateV::Aborted { error: ErrorV::FetchError { detail } },
                ActionV::Stop,
            ),
        },
        (StateV::Querying { asset, subject }, EventV::StoreScanned { result }) => match result {
            Ok(items) => match subscriber_emails(items, config.category) {
                Some(recipients) => (
                    StateV::NotifyReady {
                        asset,
                        subject,
                        recipients,
                        next: 0,
                        results: Seq::empty(),
                    },
                    ActionV::Proceed,
                ),
                None => (
                    StateV::Aborted {
                        error: ErrorV::StoreError { detail: missing_email_detail() },
                    },
                    ActionV::Stop,
                ),
            },
            Err(detail) => (
                StateV::Aborted { error: ErrorV::StoreError { detail } },
                ActionV::Stop,
            ),
        },
        (
            StateV::NotifyReady { asset, subject, recipients, next, results },
            EventV::Advance,
        ) => {
            if next >= recipients.len() {
                (StateV::Done { results }, ActionV::Stop)
            } else if sendable(config.sender, subject, recipients[next]) {
                (
                    StateV::NotifySent { asset, subject, recipients, next, results },
                    ActionV::Send {
                        recipient: recipients[next],
                        message: message_for(config.sender, subject, asset, recipients[next]),
                    },
                )
            } else {
                (
                    StateV::NotifyReady {
                        asset,
                        subject,
                        recipients,
                        next: next + 1,
                        results: results.push(
                            NotificationResultV {
                                recipient: recipients[next],
                                outcome: OutcomeV::Failure {
                                    reason: "message header field holds a line break"@,
                                },
                            },
                        ),
                    },
                    ActionV::Proceed,
                )
            }
        },
        (
            StateV::NotifySent { asset, subject, recipients, next, results },
            EventV::SendCompleted { result },
        ) => {
            if next < recipients.len() {
                (
                    StateV::NotifyReady {
                        asset,
                        subject,
                        recipients,
                        next: next + 1,
                        results: results.push(
                            NotificationResultV {
                                recipient: recipients[next],
                                outcome: match result {
                                    Ok(_) => OutcomeV::Success,
                                    Err(reason) => OutcomeV::Failure { reason },
                                },
                            },
                        ),
                    },
                    ActionV::Proceed,
                )
            } else {
                (
                    StateV::NotifySent { asset, subject, recipients, next, results },
                    ActionV::Stop,
                )
            }
        },
        (s, _) => (s, ActionV::Stop),
    }
}

/// One step of the run, exactly the transition relation: performs the
/// extraction, date parse, subscriber filter or message build that the
/// arriving event calls for, and hands the driver the next action.
pub fn step(config: &Config, state: RunState, event: Event) -> (r: (RunState, Action))
    ensures
        r.0@ == transition(config@, state@, event@).0,
        r.1@ == transition(config@, state@, event@).1,
{
    let ghost e0 = event@;
    match (state, event) {
        (RunState::Starting, Event::Start) => {
            let url = clone_string(&config.source_url);
            (RunState::Extracting, Action::FetchPage { url })
        },
        (RunState::Extracting, Event::PageFetched { result }) => match result {
            Ok(page) => match extract(page.as_str()) {
                Ok(meta) => {
                    let url = clone_string(&meta.asset_url);
                    (RunState::Fetching { meta }, Action::FetchAsset { url })
                },
                Err(error) => (RunState::Aborted { error }, Action::Stop),
            },
            Err(detail) => (
                RunState::Aborted { error: PipelineError::FetchError { detail } },
                Action::Stop,
            ),
        },
        (RunState::Fetching { meta }, Event::AssetFetched { result }) => match result {
            Ok(asset) => match parse_release_code(meta.release_code.as_str()) {
                Some((year, month, day)) => {
                    let subject = subject_line(day, month, year);
                    let category = clone_string(&config.category);
                    (RunState::Querying { asset, subject }, Action::QueryStore { category })
                },
                None => (
                    RunState::Aborted {
                        error: PipelineError::ParseError {
                            detail: "release code is not a date".to_owned(),
                        },
                    },
                    Action::Stop,
                ),
            },
            Err(detail) => (
                RunState::Aborted { error: PipelineError::FetchError { detail } },
                Action::Stop,
            ),
        },
        (RunState::Querying { asset, subject }, Event::StoreScanned { result }) => match result {
            Ok(items) => match find_subscribers(&config.category, &items) {
                Ok(recipients) => {
                    let results: Vec<NotificationResult> = Vec::new();
                    proof {
                        assert(results.deep_view() =~= Seq::<NotificationResultV>::empty());
                    }
                    (
                        RunState::NotifyReady { asset, subject, recipients, next: 0, results },
                        Action::Proceed,
                    )
                },
                Err(error) => (RunState::Aborted { error }, Action::Stop),
            },
            Err(detail) => (
                RunState::Aborted { error: PipelineError::StoreError { detail } },
                Action::Stop,
            ),
        },
        (RunState::NotifyReady { asset, subject, recipients, next, results }, Event::Advance) => {
            if next >= recipients.len() {
                (RunState::Done { results }, Action::Stop)
            } else {
                proof {
                    assert(recipients.deep_view()[next as int] == recipients@[next as int]@);
                }
                let recipient_bytes = recipients[next].as_str().as_bytes_vec();
                let sender_bytes = config.sender.as_str().as_bytes_vec();
                match build_message(&recipient_bytes, &sender_bytes, &subject, &asset) {
                    Ok(message) => {
                        let recipient = clone_string(&recipients[next]);
                        (
                            RunState::NotifySent { asset, subject, recipients, next, results },
                            Action::Send { recipient, message },
                        )
                    },
                    Err(reason) => {
                        let ghost rs0 = results.deep_view();
                        let recipient = clone_string(&recipients[next]);
                        let mut results = results;
                        results.push(
                            NotificationResult { recipient, outcome: Outcome::Failure { reason } },
                        );
                        proof {
                            assert(results.deep_view() =~= rs0.push(
                                NotificationResultV {
                                    recipient: recipients.deep_view()[next as int],
                                    outcome: OutcomeV::Failure {
                                        reason: "message header field holds a line break"@,
                                    },
                                },
                            ));
                        }
                        (
                            RunState::NotifyReady {
                                asset,
                                subject,
                                recipients,
                                next: next + 1,
                                results,
                            },
                            Action::Proceed,
                        )
                    },
                }
            }
        },
        (
            RunState::NotifySent { asset, subject, recipients, next, results },
            Event::SendCompleted { result },
        ) => {
            if next < recipients.len() {
                proof {
                    assert(recipients.deep_view()[next as int] == recipients@[next as int]@);
                }
                let ghost rs0 = results.deep_view();
                let ghost outcome_v = match e0 {
                    EventV::SendCompleted { result } => match result {
                        Ok(_) => OutcomeV::Success,
                        Err(reason) => OutcomeV::Failure { reason },
                    },
                    _ => OutcomeV::Success,
                };
                let recipient = clone_string(&recipients[next]);
                let outcome = match result {
                    Ok(_) => Outcome::Success,
                    Err(reason) => Outcome::Failure { reason },
                };
                let mut results = results;
                results.push(NotificationResult { recipient, outcome });
                proof {
                    assert(results.deep_view() =~= rs0.push(
                        NotificationResultV {
                            recipient: recipients.deep_view()[next as int],
                            outcome: outcome_v,
                        },
                    ));
                }
                (
                    RunState::NotifyReady {
                        asset,
                        subject,
                        recipients,
                        next: next + 1,
                        results,
                    },
                    Action::Proceed,
                )
            } else {
                (
                    RunState::NotifySent { asset, subject, recipients, next, results },
                    Action::Stop,
                )
            }
        },
        (s, _) => (s, Action::Stop),
    }
}

/// An owned copy of a string.
fn clone_string(s: &String) -> (r: String)
    ensures
        r@ == s@,
{
    s.clone()
}

/// The result the machine records for one recipient, given how the relay
/// submission for it ended.
pub open spec fn expected_result(recipient: Seq<char>, outcome: Result<(), Seq<char>>) -> NotificationResultV {
    NotificationResultV {
        recipient,
        outcome: match outcome {
            Ok(_) => OutcomeV::Success,
            Err(reason) => OutcomeV::Failure { reason },
        },
    }
}

/// Drives the notify phase to its end: from `NotifyReady` at `next`, the
/// machine is fed one `Advance` per recipient and, for each message it
/// submits, the relay outcome at that recipient's index.
pub open spec fn drive_notify(
    config: ConfigV,
    asset: Seq<u8>,
    subject: Seq<u8>,
    recipients: Seq<Seq<char>>,
    next: int,
    results: Seq<NotificationResultV>,
    outcomes: Seq<Result<(), Seq<char>>>,
) -> StateV
    decreases recipients.len() - next,
{
    let ready = StateV::NotifyReady { asset, subject, recipients, next, results };
    if next < 0 {
        StateV::Done { results }
    } else if next >= recipients.len() {
        transition(config, ready, EventV::Advance).0
    } else {
        let s1 = transition(config, ready, EventV::Advance).0;
        match s1 {
            StateV::NotifySent { .. } => {
                let s2 = transition(
                    config,
                    s1,
                    EventV::SendCompleted { result: outcomes[next] },
                ).0;
                match s2 {
                    StateV::NotifyReady { results: r2, .. } => drive_notify(
                        config,
                        asset,
                        subject,
                        recipients,
                        next + 1,
                        r2,
                        outcomes,
                    ),
                    _ => s2,
                }
            },
            StateV::NotifyReady { results: r2, .. } => drive_notify(
                config,
                asset,
                subject,
                recipients,
                next + 1,
                r2,
                outcomes,
            ),
            _ => s1,
        }
    }
}

/// Once notifying, every recipient is attempted, whatever the relay
/// does: from `NotifyReady` the machine reaches `Done` having appended
/// exactly one result per remaining recipient, in order, each recording
/// its recipient's own relay outcome. One submission's failure never
/// stops the ones after it.
pub proof fn lemma_notify_attempts_all(
    config: ConfigV,
    asset: Seq<u8>,
    subject: Seq<u8>,
    recipients: Seq<Seq<char>>,
    next: int,
    results: Seq<NotificationResultV>,
    outcomes: Seq<Result<(), Seq<char>>>,
)
    requires
        0 <= next <= recipients.len(),
        outcomes.len() == recipients.len(),
        header_safe(encode_utf8(config.sender)),
        header_safe(subject),
        forall|i: int| next <= i < recipients.len() ==> header_safe(encode_utf8(recipients[i])),
    ensures
        drive_notify(config, asset, subject, recipients, next, results, outcomes) == (StateV::Done {
            results: results + Seq::new(
                (recipients.len() - next) as nat,
                |i: int| expected_result(recipients[next + i], outcomes[next + i]),
            ),
        }),
    decreases recipients.len() - next,
{
    let tail = Seq::new(
        (recipients.len() - next) as nat,
        |i: int| expected_result(recipients[next + i], outcomes[next + i]),
    );
    if next == recipients.len() {
        assert(results + tail =~= results);
    } else {
        let pushed = results.push(expected_result(recipients[next], outcomes[next]));
        lemma_notify_attempts_all(config, asset, subject, recipients, next + 1, pushed, outcomes);
        assert(pushed + Seq::new(
            (recipients.len() - (next + 1)) as nat,
            |i: int| expected_result(recipients[next + 1 + i], outcomes[next + 1 + i]),
        ) =~= results + tail);
    }
}

/// The shape of a whole notify phase: started at the first recipient
/// with no results yet, the machine ends `Done` with one result per
/// recipient, in order, `Failure` exactly for the recipients whose relay
/// submission failed.
pub proof fn lemma_notify_results_shape(
    config: ConfigV,
    asset: Seq<u8>,
    subject: Seq<u8>,
    recipients: Seq<Seq<char>>,
    outcomes: Seq<Result<(), Seq<char>>>,
)
    requires
        outcomes.len() == recipients.len(),
        header_safe(encode_utf8(config.sender)),
        header_safe(subject),
        forall|i: int| 0 <= i < recipients.len() ==> header_safe(encode_utf8(recipients[i])),
    ensures
        (drive_notify(config, asset, subject, recipients, 0, Seq::empty(), outcomes)
            matches StateV::Done { results } && results.len() == recipients.len() && (forall|
            i: int,
        |
            0 <= i < recipients.len() ==> (#[trigger] results[i]).recipient == recipients[i] && (
            results[i].outcome is Failure <==> outcomes[i] is Err))),
{
    lemma_notify_attempts_all(config, asset, subject, recipients, 0, Seq::empty(), outcomes);
    let tail = Seq::new(
        recipients.len(),
        |i: int| expected_result(recipients[i], outcomes[i]),
    );
    assert(Seq::<NotificationResultV>::empty() + tail =~= tail);
}

/// A store failure aborts the run before any notification: the scan's
/// error turns `Querying` into `Aborted`, and the run stops there.
pub proof fn lemma_store_error_aborts(
    config: ConfigV,
    asset: Seq<u8>,
    subject: Seq<u8>,
    detail: Seq<char>,
)
    ensures
        transition(
            config,
            StateV::Querying { asset, subject },
            EventV::StoreScanned { result: Err(detail) },
        ) == (StateV::Aborted { error: ErrorV::StoreError { detail } }, ActionV::Stop),
{
}

/// A page without the expected structure aborts the run at once: the
/// extraction failure turns `Extracting` into `Aborted`, and no asset
/// fetch is requested.
pub proof fn lemma_parse_error_aborts(config: ConfigV, page: Seq<char>)
    requires
        extraction_of(page) is Err,
    ensures
        transition(
            config,
            StateV::Extracting,
            EventV::PageFetched { result: Ok(page) },
        ) == (
            StateV::Aborted { error: ErrorV::ParseError { detail: extraction_of(page)->Err_0 } },
            ActionV::Stop,
        ),
{
}

/// A message is submitted only while notifying: no state but
/// `NotifyReady`, and `Aborted` in particular never, emits a `Send`.
pub proof fn lemma_send_only_while_notifying(config: ConfigV, state: StateV, event: EventV)
    ensures
        transition(config, state, event).1 is Send ==> state is NotifyReady,
{
}

/// Once notifying, the run never aborts: no event takes `NotifyReady` or
/// `NotifySent` to `Aborted`. Failures abort the run only before the
/// first notification is attempted; after that they are recorded per
/// recipient.
pub proof fn lemma_notifying_never_aborts(config: ConfigV, state: StateV, event: EventV)
    requires
        state is NotifyReady || state is NotifySent,
    ensures
        !(transition(config, state, event).0 is Aborted),
{
}

/// The terminal states stand still: an event arriving in `Done` or
/// `Aborted` changes nothing and stops the run.
pub proof fn lemma_terminal_states_stop(config: ConfigV, state: StateV, event: EventV)
    requires
        state is Done || state is Aborted,
    ensures
        transition(config, state, event) == (state, ActionV::Stop),
{
}

} // verus!
