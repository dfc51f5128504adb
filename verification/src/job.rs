//! One run of a job: submit it, poll until it ends, fetch its records, and
//! fold them into export items and the next state.
//!
//! The run is a state machine. [`JobRun::start`] checks the request and asks
//! for the submission; [`JobRun::step`] takes what came of the last action and
//! says what to do next. The caller performs the actions: it talks to the
//! platform and sleeps between two polls. Every status that is not final, and
//! every status that could not be had, uses up one of
//! [`MAX_POLL_ATTEMPTS`] attempts.

use vstd::prelude::*;
use crate::client::{DatasetId, State};
use crate::dto::{
    ArbitraryActorJob, ExportItem, ExportItemView, JobCreation, KeyMapping, KeyMappingView, Response, RunId,
    StateMapping, StateMappingView, views,
};
use crate::extraction::{extract_all, extract_export_items, record_views, RawRecord};
use crate::json::{parsed_object, JsonObject, JsonView};
use crate::mapping_utils::{
    owned_rules, rules_of, update_state_core, updated_state, Context, StateError,
};

verus! {

/// The polls that a run may spend on a job that has not ended.
pub const MAX_POLL_ATTEMPTS: u32 = 300;

/// The seconds to sleep before a poll that follows another.
pub const POLL_INTERVAL_SECS: u64 = 1;

/// The request payload with the values of the previous state written into
/// it: in the order of the rules, each rule whose `from` the state holds
/// copies that value to the key `to` of the payload.
pub open spec fn merged_body(
    body: Map<Seq<char>, JsonView>,
    state: Map<Seq<char>, JsonView>,
    rules: Seq<StateMappingView>,
) -> Map<Seq<char>, JsonView>
    decreases rules.len(),
{
    if rules.len() == 0 {
        body
    } else if state.contains_key(rules.last().from) {
        merged_body(body, state, rules.drop_last()).insert(
            rules.last().to,
            state[rules.last().from],
        )
    } else {
        merged_body(body, state, rules.drop_last())
    }
}

/// The body of the request that starts a run: the payload, with the values of
/// the previous state that the rules name. There is none where the previous
/// state is not the text of a JSON object.
pub open spec fn request_body(
    payload: Map<Seq<char>, JsonView>,
    state_str: Seq<char>,
    rules: Seq<StateMappingView>,
) -> Option<Map<Seq<char>, JsonView>> {
    match parsed_object(state_str) {
        Some(state) => Some(merged_body(payload, state, rules)),
        None => None,
    }
}

/// Writes the values of the state that the rules name into the payload.
pub fn merge_state(body: JsonObject, state: &JsonObject, rules: &[StateMapping]) -> (r: JsonObject)
    ensures
        r@ == merged_body(body@, state@, views(rules@)),
{
    let ghost all = views(rules@);
    let mut merged = body;
    let mut i: usize = 0;
    while i < rules.len()
        invariant
            i <= rules.len(),
            all == views(rules@),
            merged@ == merged_body(body@, state@, all.take(i as int)),
        decreases rules.len() - i,
    {
        proof {
            assert(all.take(i + 1).drop_last() =~= all.take(i as int));
            assert(all.take(i + 1).last() == rules[i as int]@);
        }
        match state.get(rules[i].from.as_str()) {
            Some(value) => {
                merged.insert(rules[i].to.clone(), value.clone());
            },
            None => {},
        }
        i += 1;
    }
    assert(all.take(i as int) =~= all);
    merged
}

/// The body of the request that starts a run with the payload `payload`.
fn body_with_state(
    payload: JsonObject,
    state_str: &str,
    state_mapping: Option<&Vec<StateMapping>>,
) -> (r: Result<JsonObject, StateError>)
    ensures
        match r {
            Ok(body) => request_body(payload@, state_str@, rules_of(state_mapping)) == Some(body@),
            Err(error) => error == StateError::InvalidState && request_body(
                payload@,
                state_str@,
                rules_of(state_mapping),
            ) is None,
        },
{
    let state = match JsonObject::parse(state_str) {
        Ok(state) => state,
        Err(_) => {
            return Err(StateError::InvalidState);
        },
    };
    match state_mapping {
        Some(rules) => Ok(merge_state(payload, &state, rules.as_slice())),
        None => Ok(payload),
    }
}

/// The body of the request that starts a run of `job`, from the body that the
/// actor's configuration gives.
pub fn prepare_body(config_body: JsonObject, job: &JobCreation) -> (r: Result<
    JsonObject,
    StateError,
>)
    ensures
        match r {
            Ok(body) => request_body(
                config_body@,
                job.state@,
                owned_rules(job.settings.state_mapping),
            ) == Some(body@),
            Err(error) => error == StateError::InvalidState && request_body(
                config_body@,
                job.state@,
                owned_rules(job.settings.state_mapping),
            ) is None,
        },
{
    body_with_state(config_body, job.state.as_str(), job.settings.state_mapping.as_ref())
}

/// The payload of a job on an actor named by its identifier: the actor's
/// input where that is an object, else nothing.
pub open spec fn arbitrary_payload(job: &ArbitraryActorJob) -> Map<Seq<char>, JsonView> {
    match job.settings.actor_input {
        Some(input) => input@,
        None => Map::empty(),
    }
}

/// The body of the request that starts a run of `job`.
pub fn prepare_arbitrary_body(job: &ArbitraryActorJob) -> (r: Result<JsonObject, StateError>)
    ensures
        match r {
            Ok(body) => request_body(
                arbitrary_payload(job),
                job.state@,
                owned_rules(job.settings.state_mapping),
            ) == Some(body@),
            Err(error) => error == StateError::InvalidState && request_body(
                arbitrary_payload(job),
                job.state@,
                owned_rules(job.settings.state_mapping),
            ) is None,
        },
{
    let payload = match &job.settings.actor_input {
        Some(input) => input.clone(),
        None => JsonObject::new(),
    };
    body_with_state(payload, job.state.as_str(), job.settings.state_mapping.as_ref())
}

/// Checks the rules of the state mapper before anything is submitted: the
/// state of a run without records must be computable.
pub fn validate_state_mapping(job: &JobCreation, ctx: Context) -> (r: Result<(), StateError>)
    ensures
        match r {
            Ok(_) => updated_state(job.state@, owned_rules(job.settings.state_mapping), ctx) is Ok,
            Err(error) => updated_state(job.state@, owned_rules(job.settings.state_mapping), ctx)
                == Err::<Seq<char>, StateError>(error),
        },
{
    let none: Vec<ExportItem> = Vec::new();
    match update_state_core(&none, job.state.as_str(), job.settings.state_mapping.as_ref(), ctx) {
        Ok(_) => Ok(()),
        Err(error) => Err(error),
    }
}

/// What a run is asked to do.
#[derive(Debug)]
pub struct JobRequest {
    /// The actor to run, by its identifier on the platform.
    pub target: String,
    /// The payload of the request that starts the run.
    pub payload: JsonObject,
    /// The rules of the field extractor.
    pub key_mapping: Vec<KeyMapping>,
    /// The rules of the state mapper.
    pub state_mapping: Option<Vec<StateMapping>>,
    /// The state that the last run left, as the text of a JSON object.
    pub state: String,
}

impl JobRequest {
    /// The request of a job on one of the known actors: `target` is the actor's
    /// identifier and `payload` the body that its configuration gives.
    pub fn for_actor(target: String, payload: JsonObject, job: JobCreation) -> (r: JobRequest)
        ensures
            r.target == target,
            r.payload == payload,
            r.key_mapping == job.settings.key_mapping,
            r.state_mapping == job.settings.state_mapping,
            r.state == job.state,
    {
        JobRequest {
            target,
            payload,
            key_mapping: job.settings.key_mapping,
            state_mapping: job.settings.state_mapping,
            state: job.state,
        }
    }

    /// The request of a job on an actor named by its identifier.
    pub fn for_arbitrary_actor(job: ArbitraryActorJob) -> (r: JobRequest)
        ensures
            r.target == job.settings.actor_id,
            r.payload@ == arbitrary_payload(&job),
            r.key_mapping == job.settings.key_mapping,
            r.state_mapping == job.settings.state_mapping,
            r.state == job.state,
    {
        let payload = match job.settings.actor_input {
            Some(input) => input,
            None => JsonObject::new(),
        };
        JobRequest {
            target: job.settings.actor_id,
            payload,
            key_mapping: job.settings.key_mapping,
            state_mapping: job.settings.state_mapping,
            state: job.state,
        }
    }
}

/// What the platform hands back for a run that it has accepted.
#[derive(Debug)]
pub struct RunHandle {
    pub run_id: RunId,
    pub dataset_id: DatasetId,
}

/// A [`RunHandle`] in contracts.
pub struct RunHandleView {
    pub run_id: Seq<char>,
    pub dataset_id: Seq<char>,
}

impl View for RunHandle {
    type V = RunHandleView;

    open spec fn view(&self) -> RunHandleView {
        RunHandleView { run_id: self.run_id.0@, dataset_id: self.dataset_id.0@ }
    }
}

/// Where a run stands.
#[derive(Clone, Copy, Debug, PartialEq, Eq, Structural)]
pub enum Phase {
    /// The job is being submitted.
    Submitted,
    /// The platform runs the job; its status is being asked for.
    Polling,
    /// The job has succeeded; its records are being fetched.
    Succeeded,
    /// The platform has reported that the job failed.
    RemoteFailed,
    /// The job did not end within the attempts that a run may spend.
    TimedOut,
    /// The run is over: its response is out, or an error has ended it.
    Closed,
}

/// Why a run ended without a response.
#[derive(Clone, Copy, Debug, PartialEq, Eq)]
pub enum JobError {
    /// The request was refused before anything was submitted: its previous
    /// state or one of its state rules is not in order.
    Validation(StateError),
    /// The platform did not accept the job.
    RemoteSubmit,
    /// The platform reported that the job failed.
    RemoteFailed,
    /// The job did not end in time.
    Timeout,
    /// The records of the job could not be fetched.
    RemoteFetch,
    /// The next state could not be computed once the records were there.
    Expression,
    /// Something was reported that the run was not waiting for.
    Unexpected,
}

/// What came of the last action.
#[derive(Debug)]
pub enum Event {
    /// The platform accepted the job.
    SubmitSucceeded(RunHandle),
    /// The submission failed.
    SubmitFailed,
    /// The platform gave the status of the job.
    Status(State),
    /// The status could not be had, or could not be read.
    StatusUnavailable,
    /// The records of the job.
    Fetched(Vec<RawRecord>),
    /// The records could not be fetched.
    FetchFailed,
}

/// An [`Event`] in contracts.
pub enum EventView {
    SubmitSucceeded(RunHandleView),
    SubmitFailed,
    Status(State),
    StatusUnavailable,
    Fetched(Seq<Option<Map<Seq<char>, JsonView>>>),
    FetchFailed,
}

impl View for Event {
    type V = EventView;

    open spec fn view(&self) -> EventView {
        match self {
            Event::SubmitSucceeded(handle) => EventView::SubmitSucceeded(handle@),
            Event::SubmitFailed => EventView::SubmitFailed,
            Event::Status(state) => EventView::Status(*state),
            Event::StatusUnavailable => EventView::StatusUnavailable,
            Event::Fetched(records) => EventView::Fetched(record_views(records@)),
            Event::FetchFailed => EventView::FetchFailed,
        }
    }
}

/// What the caller is to do next.
#[derive(Debug, PartialEq)]
pub enum Action {
    /// Submit the job: start the target with the body of the run.
    Submit,
    /// Ask for the status of the job.
    Poll,
    /// Sleep for [`POLL_INTERVAL_SECS`], then ask for the status of the job.
    PollAfterDelay,
    /// Fetch the records of the job.
    Fetch,
    /// Hand the response to whoever asked for the run.
    Finish(Response),
    /// Give up with this error.
    Abort(JobError),
}

/// An [`Action`] in contracts.
pub enum ActionView {
    Submit,
    Poll,
    PollAfterDelay,
    Fetch,
    Finish { state: Seq<char>, result: Seq<ExportItemView> },
    Abort(JobError),
}

impl View for Action {
    type V = ActionView;

    open spec fn view(&self) -> ActionView {
        match self {
            Action::Submit => ActionView::Submit,
            Action::Poll => ActionView::Poll,
            Action::PollAfterDelay => ActionView::PollAfterDelay,
            Action::Fetch => ActionView::Fetch,
            Action::Finish(response) => ActionView::Finish {
                state: response.state@,
                result: views(response.result@),
            },
            Action::Abort(error) => ActionView::Abort(*error),
        }
    }
}

/// A run in contracts.
pub struct RunView {
    pub phase: Phase,
    /// The polls that found the job not ended, or found nothing.
    pub attempts: nat,
    pub target: Seq<char>,
    /// The body of the request that starts the run.
    pub body: Map<Seq<char>, JsonView>,
    pub handle: Option<RunHandleView>,
    pub key_mapping: Seq<KeyMappingView>,
    pub state_mapping: Seq<StateMappingView>,
    pub state: Seq<char>,
    pub ctx: Context,
}

/// What a run that has its records ends with: the response, or the error of
/// the state mapper.
pub open spec fn conclusion(run: RunView, records: Seq<Option<Map<Seq<char>, JsonView>>>) -> ActionView {
    match updated_state(run.state, run.state_mapping, run.ctx) {
        Ok(state) => ActionView::Finish { state, result: extract_all(records, run.key_mapping) },
        Err(_) => ActionView::Abort(JobError::Expression),
    }
}

/// The run after an event, and what is to be done next.
///
/// A submitted run waits for the platform's handle and then polls. A polling
/// run fetches once the job has succeeded and gives up once it has failed; a
/// job that still runs, or a status that could not be had, costs an attempt,
/// and the run gives up where that was the last one. A run whose job has
/// succeeded waits for the records and ends with them. An event that the run
/// does not wait for changes nothing.
pub open spec fn step_spec(run: RunView, event: EventView) -> (RunView, ActionView) {
    match (run.phase, event) {
        (Phase::Submitted, EventView::SubmitSucceeded(handle)) => (
            RunView { phase: Phase::Polling, handle: Some(handle), ..run },
            ActionView::Poll,
        ),
        (Phase::Submitted, EventView::SubmitFailed) => (
            RunView { phase: Phase::Closed, ..run },
            ActionView::Abort(JobError::RemoteSubmit),
        ),
        (Phase::Polling, EventView::Status(State::Succeeded)) => (
            RunView { phase: Phase::Succeeded, ..run },
            ActionView::Fetch,
        ),
        (Phase::Polling, EventView::Status(State::Failed)) => (
            RunView { phase: Phase::RemoteFailed, ..run },
            ActionView::Abort(JobError::RemoteFailed),
        ),
        (Phase::Polling, EventView::Status(State::Running))
        | (Phase::Polling, EventView::StatusUnavailable) => if run.attempts + 1
            >= MAX_POLL_ATTEMPTS {
            (
                RunView { phase: Phase::TimedOut, attempts: run.attempts + 1, ..run },
                ActionView::Abort(JobError::Timeout),
            )
        } else {
            (RunView { attempts: run.attempts + 1, ..run }, ActionView::PollAfterDelay)
        },
        (Phase::Succeeded, EventView::Fetched(records)) => (
            RunView { phase: Phase::Closed, ..run },
            conclusion(run, records),
        ),
        (Phase::Succeeded, EventView::FetchFailed) => (
            RunView { phase: Phase::Closed, ..run },
            ActionView::Abort(JobError::RemoteFetch),
        ),
        _ => (run, ActionView::Abort(JobError::Unexpected)),
    }
}

/// The run after a sequence of events, and the actions that it asked for on
/// the way, one for each event.
pub open spec fn run_spec(run: RunView, events: Seq<EventView>) -> (RunView, Seq<ActionView>)
    decreases events.len(),
{
    if events.len() == 0 {
        (run, Seq::empty())
    } else {
        let before = run_spec(run, events.drop_last());
        let last = step_spec(before.0, events.last());
        (last.0, before.1.push(last.1))
    }
}

/// The status checks among the actions.
pub open spec fn polls(actions: Seq<ActionView>) -> nat
    decreases actions.len(),
{
    if actions.len() == 0 {
        0
    } else if actions.last() is Poll || actions.last() is PollAfterDelay {
        polls(actions.drop_last()) + 1
    } else {
        polls(actions.drop_last())
    }
}

/// The fetches among the actions.
pub open spec fn fetches(actions: Seq<ActionView>) -> nat
    decreases actions.len(),
{
    if actions.len() == 0 {
        0
    } else if actions.last() is Fetch {
        fetches(actions.drop_last()) + 1
    } else {
        fetches(actions.drop_last())
    }
}

/// The event tells that the job has not ended, or tells nothing of it.
pub open spec fn pending(event: EventView) -> bool {
    event == EventView::Status(State::Running) || event is StatusUnavailable
}

/// Every event of the sequence is pending.
pub open spec fn all_pending(events: Seq<EventView>) -> bool {
    forall|i: int| 0 <= i < events.len() ==> pending(#[trigger] events[i])
}

/// The phase is one that no event leads out of.
pub open spec fn is_final(phase: Phase) -> bool {
    phase is RemoteFailed || phase is TimedOut || phase is Closed
}

/// The actions of a run that was accepted and then polled `waits` times
/// without an end in sight: the first poll, then a poll after a delay for
/// each wait.
pub open spec fn polling_actions(waits: nat) -> Seq<ActionView> {
    seq![ActionView::Poll] + Seq::new(waits, |i: int| ActionView::PollAfterDelay)
}

/// The events of a run that was accepted with `handle` and then saw `waits`.
pub open spec fn accepted_then(handle: RunHandleView, waits: Seq<EventView>) -> Seq<EventView> {
    seq![EventView::SubmitSucceeded(handle)] + waits
}

/// A fresh run that is accepted and then sees fewer pending events than it
/// has attempts is still polling, has spent one attempt for each, and has
/// asked for one status check at once and one more after each pending event.
pub proof fn lemma_pending_events_cost_attempts(
    run: RunView,
    handle: RunHandleView,
    waits: Seq<EventView>,
)
    requires
        run.phase is Submitted,
        run.attempts == 0,
        all_pending(waits),
        waits.len() < MAX_POLL_ATTEMPTS,
    ensures
        run_spec(run, accepted_then(handle, waits)) == (
            RunView { phase: Phase::Polling, attempts: waits.len(), handle: Some(handle), ..run },
            polling_actions(waits.len()),
        ),
        polls(polling_actions(waits.len())) == waits.len() + 1,
        fetches(polling_actions(waits.len())) == 0,
    decreases waits.len(),
{
    let events = accepted_then(handle, waits);
    if waits.len() == 0 {
        assert(events.drop_last() =~= Seq::<EventView>::empty());
        assert(run_spec(run, events.drop_last()) == (run, Seq::<ActionView>::empty()));
        assert(polling_actions(0) =~= Seq::<ActionView>::empty().push(ActionView::Poll));
        assert(polling_actions(0).drop_last() =~= Seq::<ActionView>::empty());
        assert(polling_actions(0).last() is Poll);
        assert(polls(Seq::<ActionView>::empty()) == 0);
        assert(fetches(Seq::<ActionView>::empty()) == 0);
    } else {
        let shorter = waits.drop_last();
        assert(all_pending(shorter)) by {
            assert forall|i: int| 0 <= i < shorter.len() implies pending(#[trigger] shorter[i]) by {
                assert(pending(waits[i]));
            }
        }
        lemma_pending_events_cost_attempts(run, handle, shorter);
        assert(events.drop_last() =~= accepted_then(handle, shorter));
        assert(events.last() == waits.last());
        assert(pending(waits[waits.len() - 1]));
        assert(polling_actions(waits.len()) =~= polling_actions(shorter.len()).push(
            ActionView::PollAfterDelay,
        ));
        assert(polling_actions(waits.len()).drop_last() =~= polling_actions(shorter.len()));
        assert(polling_actions(waits.len()).last() is PollAfterDelay);
    }
}

/// A job that succeeds after `n` polls that found it running, or found
/// nothing, is asked for its status `n + 1` times and fetched once: the run
/// goes on to fetch with the status check that finds the success.
pub proof fn lemma_success_ends_polling(
    run: RunView,
    handle: RunHandleView,
    waits: Seq<EventView>,
)
    requires
        run.phase is Submitted,
        run.attempts == 0,
        all_pending(waits),
        waits.len() < MAX_POLL_ATTEMPTS,
    ensures
        ({
            let end = run_spec(
                run,
                accepted_then(handle, waits).push(EventView::Status(State::Succeeded)),
            );
            &&& end.0.phase is Succeeded
            &&& end.1 == polling_actions(waits.len()).push(ActionView::Fetch)
            &&& polls(end.1) == waits.len() + 1
            &&& fetches(end.1) == 1
        }),
{
    lemma_pending_events_cost_attempts(run, handle, waits);
    let events = accepted_then(handle, waits).push(EventView::Status(State::Succeeded));
    assert(events.drop_last() =~= accepted_then(handle, waits));
    let actions = polling_actions(waits.len()).push(ActionView::Fetch);
    assert(actions.drop_last() =~= polling_actions(waits.len()));
}

/// A job that is reported as failed ends the run at once: the run gives up
/// with [`JobError::RemoteFailed`] in answer to that status, after as many
/// status checks as it took to hear of it, and without a fetch.
pub proof fn lemma_failure_ends_run(run: RunView, handle: RunHandleView, waits: Seq<EventView>)
    requires
        run.phase is Submitted,
        run.attempts == 0,
        all_pending(waits),
        waits.len() < MAX_POLL_ATTEMPTS,
    ensures
        ({
            let end = run_spec(
                run,
                accepted_then(handle, waits).push(EventView::Status(State::Failed)),
            );
            &&& end.0.phase is RemoteFailed
            &&& end.1 == polling_actions(waits.len()).push(
                ActionView::Abort(JobError::RemoteFailed),
            )
            &&& polls(end.1) == waits.len() + 1
            &&& fetches(end.1) == 0
        }),
{
    lemma_pending_events_cost_attempts(run, handle, waits);
    let events = accepted_then(handle, waits).push(EventView::Status(State::Failed));
    assert(events.drop_last() =~= accepted_then(handle, waits));
    let actions = polling_actions(waits.len()).push(ActionView::Abort(JobError::RemoteFailed));
    assert(actions.drop_last() =~= polling_actions(waits.len()));
}

/// A job that has not ended after [`MAX_POLL_ATTEMPTS`] status checks, each
/// of which found it running or found nothing, ends the run: the run gives up
/// with [`JobError::Timeout`] in answer to the last of them, and has fetched
/// nothing.
pub proof fn lemma_attempts_run_out(run: RunView, handle: RunHandleView, waits: Seq<EventView>)
    requires
        run.phase is Submitted,
        run.attempts == 0,
        all_pending(waits),
        waits.len() == MAX_POLL_ATTEMPTS,
    ensures
        ({
            let end = run_spec(run, accepted_then(handle, waits));
            &&& end.0.phase is TimedOut
            &&& end.1 == polling_actions((MAX_POLL_ATTEMPTS - 1) as nat).push(
                ActionView::Abort(JobError::Timeout),
            )
            &&& polls(end.1) == MAX_POLL_ATTEMPTS
            &&& fetches(end.1) == 0
        }),
{
    let shorter = waits.drop_last();
    assert(all_pending(shorter)) by {
        assert forall|i: int| 0 <= i < shorter.len() implies pending(#[trigger] shorter[i]) by {
            assert(pending(waits[i]));
        }
    }
    lemma_pending_events_cost_attempts(run, handle, shorter);
    let events = accepted_then(handle, waits);
    assert(events.drop_last() =~= accepted_then(handle, shorter));
    assert(events.last() == waits.last());
    assert(pending(waits[waits.len() - 1]));
    let actions = polling_actions(shorter.len()).push(ActionView::Abort(JobError::Timeout));
    assert(actions.drop_last() =~= polling_actions(shorter.len()));
}

/// A run that has ended stays as it is: whatever is reported to it, it asks
/// for no status and no records any more.
pub proof fn lemma_ended_run_stays_ended(run: RunView, events: Seq<EventView>)
    requires
        is_final(run.phase),
    ensures
        run_spec(run, events).0 == run,
        polls(run_spec(run, events).1) == 0,
        fetches(run_spec(run, events).1) == 0,
        forall|i: int|
            0 <= i < events.len() ==> #[trigger] run_spec(run, events).1[i] == ActionView::Abort(
                JobError::Unexpected,
            ),
        run_spec(run, events).1.len() == events.len(),
    decreases events.len(),
{
    if events.len() > 0 {
        lemma_ended_run_stays_ended(run, events.drop_last());
        let before = run_spec(run, events.drop_last());
        assert(run_spec(run, events).1.drop_last() =~= before.1);
    }
}

/// Each event is answered with one action.
pub proof fn lemma_one_action_per_event(run: RunView, events: Seq<EventView>)
    ensures
        run_spec(run, events).1.len() == events.len(),
    decreases events.len(),
{
    if events.len() > 0 {
        lemma_one_action_per_event(run, events.drop_last());
    }
}

/// The run that a request starts, or the error that refuses the request.
pub open spec fn start_spec(
    target: Seq<char>,
    payload: Map<Seq<char>, JsonView>,
    key_mapping: Seq<KeyMappingView>,
    state_mapping: Seq<StateMappingView>,
    state: Seq<char>,
    ctx: Context,
) -> Result<RunView, JobError> {
    match updated_state(state, state_mapping, ctx) {
        Err(error) => Err(JobError::Validation(error)),
        Ok(_) => Ok(
            RunView {
                phase: Phase::Submitted,
                attempts: 0,
                target,
                body: request_body(payload, state, state_mapping)->0,
                handle: None,
                key_mapping,
                state_mapping,
                state,
                ctx,
            },
        ),
    }
}

/// No event changes what a run was asked for: its target, its body, its
/// rules, its previous state and its context.
pub proof fn lemma_step_keeps_the_request(run: RunView, event: EventView)
    ensures
        step_spec(run, event).0.target == run.target,
        step_spec(run, event).0.body == run.body,
        step_spec(run, event).0.key_mapping == run.key_mapping,
        step_spec(run, event).0.state_mapping == run.state_mapping,
        step_spec(run, event).0.state == run.state,
        step_spec(run, event).0.ctx == run.ctx,
{
}

/// A request that was accepted at the start has a state to end with: once
/// the records are there, the run ends with a response, whatever they are.
pub proof fn lemma_started_run_ends_with_a_response(
    target: Seq<char>,
    payload: Map<Seq<char>, JsonView>,
    key_mapping: Seq<KeyMappingView>,
    state_mapping: Seq<StateMappingView>,
    state: Seq<char>,
    ctx: Context,
    records: Seq<Option<Map<Seq<char>, JsonView>>>,
)
    requires
        start_spec(target, payload, key_mapping, state_mapping, state, ctx) is Ok,
    ensures
        ({
            let run = start_spec(target, payload, key_mapping, state_mapping, state, ctx)->Ok_0;
            &&& run.phase is Submitted
            &&& run.attempts == 0
            &&& request_body(payload, state, state_mapping) == Some(run.body)
            &&& conclusion(run, records) == (ActionView::Finish {
                state: updated_state(state, state_mapping, ctx)->Ok_0,
                result: extract_all(records, key_mapping),
            })
        }),
{
}

/// One run of a job.
#[derive(Debug)]
pub struct JobRun {
    phase: Phase,
    attempts: u32,
    target: String,
    body: JsonObject,
    handle: Option<RunHandle>,
    key_mapping: Vec<KeyMapping>,
    state_mapping: Option<Vec<StateMapping>>,
    state: String,
    ctx: Context,
}

impl View for JobRun {
    type V = RunView;

    closed spec fn view(&self) -> RunView {
        RunView {
            phase: self.phase,
            attempts: self.attempts as nat,
            target: self.target@,
            body: self.body@,
            handle: match self.handle {
                Some(handle) => Some(handle@),
                None => None,
            },
            key_mapping: views(self.key_mapping@),
            state_mapping: owned_rules(self.state_mapping),
            state: self.state@,
            ctx: self.ctx,
        }
    }
}

impl JobRun {
    #[verifier::type_invariant]
    spec fn inv(self) -> bool {
        &&& self.attempts <= MAX_POLL_ATTEMPTS
        &&& self.phase is Submitted ==> self.attempts == 0
        &&& self.phase is Polling ==> self.attempts < MAX_POLL_ATTEMPTS
    }

    /// Starts a run: checks the state rules against a run without records,
    /// so that a rule that cannot be evaluated never costs a remote run, and
    /// builds the body of the submission. The action to perform on the run
    /// that comes back is [`Action::Submit`].
    pub fn start(request: JobRequest, ctx: Context) -> (r: Result<JobRun, JobError>)
        ensures
            match r {
                Ok(run) => start_spec(
                    request.target@,
                    request.payload@,
                    views(request.key_mapping@),
                    owned_rules(request.state_mapping),
                    request.state@,
                    ctx,
                ) == Ok::<RunView, JobError>(run@),
                Err(error) => start_spec(
                    request.target@,
                    request.payload@,
                    views(request.key_mapping@),
                    owned_rules(request.state_mapping),
                    request.state@,
                    ctx,
                ) == Err::<RunView, JobError>(error),
            },
    {
        let none: Vec<ExportItem> = Vec::new();
        match update_state_core(&none, request.state.as_str(), request.state_mapping.as_ref(), ctx) {
            Ok(_) => {},
            Err(error) => {
                return Err(JobError::Validation(error));
            },
        }
        let body = match body_with_state(
            request.payload,
            request.state.as_str(),
            request.state_mapping.as_ref(),
        ) {
            Ok(body) => body,
            Err(error) => {
                return Err(JobError::Validation(error));
            },
        };
        Ok(
            JobRun {
                phase: Phase::Submitted,
                attempts: 0,
                target: request.target,
                body,
                handle: None,
                key_mapping: request.key_mapping,
                state_mapping: request.state_mapping,
                state: request.state,
                ctx,
            },
        )
    }

    /// Where the run stands.
    pub fn phase(&self) -> (r: Phase)
        ensures
            r == self@.phase,
    {
        self.phase
    }

    /// The polls that found the job not ended, or found nothing.
    pub fn attempts(&self) -> (r: u32)
        ensures
            r == self@.attempts,
            r <= MAX_POLL_ATTEMPTS,
    {
        proof {
            use_type_invariant(self);
        }
        self.attempts
    }

    /// The actor to run.
    pub fn target(&self) -> (r: &String)
        ensures
            r@ == self@.target,
    {
        &self.target
    }

    /// The body of the request that starts the run.
    pub fn body(&self) -> (r: &JsonObject)
        ensures
            r@ == self@.body,
    {
        &self.body
    }

    /// What the platform handed back when it accepted the job.
    pub fn handle(&self) -> (r: Option<&RunHandle>)
        ensures
            match r {
                Some(handle) => self@.handle == Some(handle@),
                None => self@.handle is None,
            },
    {
        self.handle.as_ref()
    }

    /// Takes what came of the last action and says what to do next.
    pub fn step(self, event: Event) -> (r: (JobRun, Action))
        ensures
            (r.0@, r.1@) == step_spec(self@, event@),
    {
        proof {
            use_type_invariant(&self);
        }
        match (self.phase, event) {
            (Phase::Submitted, Event::SubmitSucceeded(handle)) => (
                JobRun { phase: Phase::Polling, handle: Some(handle), ..self },
                Action::Poll,
            ),
            (Phase::Submitted, Event::SubmitFailed) => (
                JobRun { phase: Phase::Closed, ..self },
                Action::Abort(JobError::RemoteSubmit),
            ),
            (Phase::Polling, Event::Status(State::Succeeded)) => (
                JobRun { phase: Phase::Succeeded, ..self },
                Action::Fetch,
            ),
            (Phase::Polling, Event::Status(State::Failed)) => (
                JobRun { phase: Phase::RemoteFailed, ..self },
                Action::Abort(JobError::RemoteFailed),
            ),
            (Phase::Polling, Event::Status(State::Running))
            | (Phase::Polling, Event::StatusUnavailable) => {
                if self.attempts + 1 >= MAX_POLL_ATTEMPTS {
                    (
                        JobRun { phase: Phase::TimedOut, attempts: self.attempts + 1, ..self },
                        Action::Abort(JobError::Timeout),
                    )
                } else {
                    (JobRun { attempts: self.attempts + 1, ..self }, Action::PollAfterDelay)
                }
            },
            (Phase::Succeeded, Event::Fetched(records)) => {
                let result = extract_export_items(records, self.key_mapping.as_slice());
                let action = match update_state_core(
                    &result,
                    self.state.as_str(),
                    self.state_mapping.as_ref(),
                    self.ctx,
                ) {
                    Ok(state) => Action::Finish(Response { state, result }),
                    Err(_) => Action::Abort(JobError::Expression),
                };
                (JobRun { phase: Phase::Closed, ..self }, action)
            },
            (Phase::Succeeded, Event::FetchFailed) => (
                JobRun { phase: Phase::Closed, ..self },
                Action::Abort(JobError::RemoteFetch),
            ),
            _ => (self, Action::Abort(JobError::Unexpected)),
        }
    }

    /// Takes a sequence of events, one after the other, and hands back the
    /// run after the last of them with the action that each was answered with.
    pub fn replay(self, events: Vec<Event>) -> (r: (JobRun, Vec<Action>))
        ensures
            (r.0@, views(r.1@)) == run_spec(self@, views(events@)),
    {
        let ghost all = views(events@);
        let ghost first = self@;
        let mut run = self;
        let mut actions: Vec<Action> = Vec::new();
        assert(views(actions@) =~= Seq::<ActionView>::empty());
        for event in iter: events
            invariant
                all == views(events@),
                iter.seq() == events@,
                run_spec(first, all.take(iter.index() as int)) == (run@, views(actions@)),
        {
            let ghost n = iter.index() as int;
            let ghost before = views(actions@);
            proof {
                assert(all.take(n + 1).drop_last() =~= all.take(n));
                assert(all.take(n + 1).last() == event@);
            }
            let next = run.step(event);
            run = next.0;
            actions.push(next.1);
            assert(views(actions@) =~= before.push(next.1@));
        }
        assert(all.take(all.len() as int) =~= all);
        (run, actions)
    }
}

} // verus!
