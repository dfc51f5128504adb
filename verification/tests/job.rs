use apify_connector::client::{DatasetId, State};
use apify_connector::dto::{
    ArbitraryActorJob, ArbitraryActorSettings, DataKind, JobCreation, KeyMapping, RunId, Settings,
    StateMapping, Timestamp,
};
use apify_connector::extraction::RawRecord;
use apify_connector::job::{
    merge_state, prepare_arbitrary_body, prepare_body, validate_state_mapping, Action, Event,
    JobError, JobRequest, JobRun, Phase, RunHandle, MAX_POLL_ATTEMPTS, POLL_INTERVAL_SECS,
};
use apify_connector::json::{JsonObject, JsonValue};
use apify_connector::mapping_utils::{Context, StateError};

// 2024-01-05T13:45:10Z
const START: i64 = 1_704_462_310;

fn ctx() -> Context {
    Context { start: Timestamp { secs: START, nanos: 0 } }
}

fn json(text: &str) -> serde_json::Value {
    serde_json::from_str(text).unwrap()
}

fn text(s: &str) -> JsonValue {
    JsonValue::Text(s.to_string())
}

fn object(fields: Vec<(&str, JsonValue)>) -> JsonObject {
    let mut object = JsonObject::new();
    for (key, value) in fields {
        object.insert(key.to_string(), value);
    }
    object
}

fn state_rule(from: &str, to: &str, update: &str) -> StateMapping {
    StateMapping { from: from.to_string(), to: to.to_string(), update: update.to_string() }
}

fn key_rules() -> Vec<KeyMapping> {
    vec![
        KeyMapping {
            from: "date".to_string(),
            to: "date".to_string(),
            kind: DataKind::Date { format: "%Y-%m-%d".to_string() },
        },
        KeyMapping { from: "content".to_string(), to: "content".to_string(), kind: DataKind::String },
    ]
}

fn request(state: &str, state_mapping: Option<Vec<StateMapping>>) -> JobRequest {
    JobRequest {
        target: "apify/web-scraper".to_string(),
        payload: object(vec![("maxPages", JsonValue::Other(json("3")))]),
        key_mapping: key_rules(),
        state_mapping,
        state: state.to_string(),
    }
}

fn handle() -> RunHandle {
    RunHandle { run_id: RunId("run-1".to_string()), dataset_id: DatasetId("set-1".to_string()) }
}

fn records() -> Vec<RawRecord> {
    vec![
        RawRecord::Object(object(vec![("content", text("one")), ("date", text("2024-01-01"))])),
        RawRecord::NotObject,
        RawRecord::Object(object(vec![("content", text("two")), ("date", text("2024-01-02"))])),
    ]
}

struct Trace {
    status_checks: usize,
    delays: usize,
    fetches: usize,
    end: Action,
    phase: Phase,
    attempts: u32,
}

/// Plays the platform: accepts the job, answers each status check with the
/// next entry of `statuses` (`None` for a check that fails), and hands out
/// `records` when asked to.
fn play(run: JobRun, statuses: Vec<Option<State>>) -> Trace {
    let mut statuses = statuses.into_iter();
    let mut trace = Trace {
        status_checks: 0,
        delays: 0,
        fetches: 0,
        end: Action::Submit,
        phase: Phase::Submitted,
        attempts: 0,
    };
    let (mut run, mut action) = run.step(Event::SubmitSucceeded(handle()));
    loop {
        let event = match action {
            Action::Submit => panic!("the job is submitted once"),
            Action::Poll | Action::PollAfterDelay => {
                if action == Action::PollAfterDelay {
                    trace.delays += 1;
                }
                trace.status_checks += 1;
                match statuses.next().expect("a status check beyond the script") {
                    Some(state) => Event::Status(state),
                    None => Event::StatusUnavailable,
                }
            }
            Action::Fetch => {
                trace.fetches += 1;
                Event::Fetched(records())
            }
            end => {
                trace.end = end;
                trace.phase = run.phase();
                trace.attempts = run.attempts();
                return trace;
            }
        };
        let next = run.step(event);
        run = next.0;
        action = next.1;
    }
}

#[test]
fn attempt_bound_and_interval() {
    assert_eq!(MAX_POLL_ATTEMPTS, 300);
    assert_eq!(POLL_INTERVAL_SECS, 1);
}

#[test]
fn five_running_then_succeeded() {
    let run = JobRun::start(request("{}", None), ctx()).unwrap();
    let mut statuses = vec![Some(State::Running); 5];
    statuses.push(Some(State::Succeeded));
    let trace = play(run, statuses);
    assert_eq!(trace.status_checks, 6);
    assert_eq!(trace.delays, 5);
    assert_eq!(trace.fetches, 1);
    assert_eq!(trace.phase, Phase::Closed);
    assert_eq!(trace.attempts, 5);
    match trace.end {
        Action::Finish(response) => {
            assert_eq!(json(&response.state), json("{}"));
            let contents: Vec<&str> = response.result.iter().map(|i| i.content.as_str()).collect();
            assert_eq!(contents, vec!["one", "two"]);
        }
        other => panic!("unexpected end: {:?}", other),
    }
}

#[test]
fn succeeded_at_the_first_check() {
    let run = JobRun::start(request("{}", None), ctx()).unwrap();
    let trace = play(run, vec![Some(State::Succeeded)]);
    assert_eq!(trace.status_checks, 1);
    assert_eq!(trace.delays, 0);
    assert_eq!(trace.fetches, 1);
    assert!(matches!(trace.end, Action::Finish(_)));
}

#[test]
fn three_hundred_running_time_out() {
    let run = JobRun::start(request("{}", None), ctx()).unwrap();
    let trace = play(run, vec![Some(State::Running); 300]);
    assert_eq!(trace.end, Action::Abort(JobError::Timeout));
    assert_eq!(trace.status_checks, 300);
    assert_eq!(trace.fetches, 0);
    assert_eq!(trace.phase, Phase::TimedOut);
    assert_eq!(trace.attempts, 300);
}

#[test]
fn failed_checks_count_like_running() {
    let run = JobRun::start(request("{}", None), ctx()).unwrap();
    let statuses: Vec<Option<State>> =
        (0..300).map(|i| if i % 3 == 0 { None } else { Some(State::Running) }).collect();
    let trace = play(run, statuses);
    assert_eq!(trace.end, Action::Abort(JobError::Timeout));
    assert_eq!(trace.status_checks, 300);
    assert_eq!(trace.fetches, 0);
}

#[test]
fn success_at_the_last_attempt() {
    let run = JobRun::start(request("{}", None), ctx()).unwrap();
    let mut statuses = vec![None; 299];
    statuses.push(Some(State::Succeeded));
    let trace = play(run, statuses);
    assert_eq!(trace.status_checks, 300);
    assert_eq!(trace.fetches, 1);
    assert!(matches!(trace.end, Action::Finish(_)));
}

#[test]
fn failed_status_ends_the_run_at_once() {
    for waits in [0usize, 1, 7, 299] {
        let run = JobRun::start(request("{}", None), ctx()).unwrap();
        let mut statuses = vec![Some(State::Running); waits];
        statuses.push(Some(State::Failed));
        let trace = play(run, statuses);
        assert_eq!(trace.end, Action::Abort(JobError::RemoteFailed));
        assert_eq!(trace.status_checks, waits + 1);
        assert_eq!(trace.fetches, 0);
        assert_eq!(trace.phase, Phase::RemoteFailed);
    }
}

#[test]
fn ended_run_asks_for_nothing_more() {
    let run = JobRun::start(request("{}", None), ctx()).unwrap();
    let (run, _) = run.step(Event::SubmitSucceeded(handle()));
    let (run, action) = run.step(Event::Status(State::Failed));
    assert_eq!(action, Action::Abort(JobError::RemoteFailed));
    let (run, action) = run.step(Event::Status(State::Succeeded));
    assert_eq!(action, Action::Abort(JobError::Unexpected));
    let (run, action) = run.step(Event::Fetched(records()));
    assert_eq!(action, Action::Abort(JobError::Unexpected));
    assert_eq!(run.phase(), Phase::RemoteFailed);
}

#[test]
fn submission_that_fails_ends_the_run() {
    let run = JobRun::start(request("{}", None), ctx()).unwrap();
    assert_eq!(run.phase(), Phase::Submitted);
    assert!(run.handle().is_none());
    let (run, action) = run.step(Event::SubmitFailed);
    assert_eq!(action, Action::Abort(JobError::RemoteSubmit));
    assert_eq!(run.phase(), Phase::Closed);
}

#[test]
fn fetch_that_fails_ends_the_run() {
    let run = JobRun::start(request("{}", None), ctx()).unwrap();
    let (run, action) = run.step(Event::SubmitSucceeded(handle()));
    assert_eq!(action, Action::Poll);
    assert_eq!(run.phase(), Phase::Polling);
    assert_eq!(run.handle().unwrap().run_id.0, "run-1");
    assert_eq!(run.handle().unwrap().dataset_id.0, "set-1");
    let (run, action) = run.step(Event::Status(State::Succeeded));
    assert_eq!(action, Action::Fetch);
    assert_eq!(run.phase(), Phase::Succeeded);
    let (run, action) = run.step(Event::FetchFailed);
    assert_eq!(action, Action::Abort(JobError::RemoteFetch));
    assert_eq!(run.phase(), Phase::Closed);
}

#[test]
fn event_out_of_turn_changes_nothing() {
    let run = JobRun::start(request("{}", None), ctx()).unwrap();
    let (run, action) = run.step(Event::Status(State::Succeeded));
    assert_eq!(action, Action::Abort(JobError::Unexpected));
    assert_eq!(run.phase(), Phase::Submitted);
    let (run, _) = run.step(Event::SubmitSucceeded(handle()));
    let (run, action) = run.step(Event::Fetched(vec![]));
    assert_eq!(action, Action::Abort(JobError::Unexpected));
    assert_eq!(run.phase(), Phase::Polling);
    assert_eq!(run.attempts(), 0);
}

#[test]
fn malformed_rule_is_refused_before_submission() {
    let rules = vec![state_rule("k", "_", "$format_date(")];
    assert_eq!(
        JobRun::start(request("{}", Some(rules)), ctx()).err(),
        Some(JobError::Validation(StateError::Expression))
    );
}

#[test]
fn unreadable_state_is_refused_before_submission() {
    assert_eq!(
        JobRun::start(request("[]", None), ctx()).err(),
        Some(JobError::Validation(StateError::InvalidState))
    );
}

#[test]
fn run_ends_with_items_and_new_state() {
    let rules = vec![
        state_rule("runDate", "_", "$format_date(start_date, \"%Y-%m-%d\")"),
        state_rule("cursor", "since", "literal"),
    ];
    let run = JobRun::start(request(r#"{"cursor": 17, "runs": 4}"#, Some(rules)), ctx()).unwrap();
    assert_eq!(run.target(), "apify/web-scraper");
    assert_eq!(run.body().len(), 2);
    assert_eq!(run.body().get("maxPages"), Some(&JsonValue::Other(json("3"))));
    assert_eq!(run.body().get("since"), Some(&JsonValue::Other(json("17"))));
    let trace = play(run, vec![None, Some(State::Running), Some(State::Succeeded)]);
    match trace.end {
        Action::Finish(response) => {
            assert_eq!(
                json(&response.state),
                json(r#"{"cursor": "cursor", "runs": 4, "runDate": "2024-01-05"}"#)
            );
            assert_eq!(response.result.len(), 2);
        }
        other => panic!("unexpected end: {:?}", other),
    }
}

#[test]
fn state_values_pass_into_the_body() {
    let body = object(vec![("keep", text("k")), ("over", text("old"))]);
    let state = object(vec![("a", text("x")), ("n", JsonValue::Other(json("[1, 2]")))]);
    let rules = vec![
        state_rule("a", "over", "u"),
        state_rule("n", "list", "u"),
        state_rule("missing", "never", "u"),
        state_rule("a", "twice", "u"),
    ];
    let merged = merge_state(body, &state, &rules);
    assert_eq!(merged.len(), 4);
    assert_eq!(merged.get("keep"), Some(&text("k")));
    assert_eq!(merged.get("over"), Some(&text("x")));
    assert_eq!(merged.get("list"), Some(&JsonValue::Other(json("[1,2]"))));
    assert_eq!(merged.get("twice"), Some(&text("x")));
    assert_eq!(merged.get("never"), None);
}

fn job(state: &str, state_mapping: Option<Vec<StateMapping>>) -> JobCreation {
    JobCreation {
        settings: Settings {
            actor_config: serde_json::Value::Null,
            token: "t".to_string(),
            key_mapping: key_rules(),
            state_mapping,
        },
        state: state.to_string(),
    }
}

#[test]
fn body_of_a_typed_job() {
    let config_body = object(vec![("startUrls", JsonValue::Other(json(r#"["https://a.example"]"#)))]);
    let job = job(r#"{"page": "7"}"#, Some(vec![state_rule("page", "offset", "x")]));
    let body = prepare_body(config_body, &job).unwrap();
    assert_eq!(body.len(), 2);
    assert_eq!(body.get("offset"), Some(&text("7")));
    let unreadable = prepare_body(JsonObject::new(), &job_with_state("nope"));
    assert_eq!(unreadable.err(), Some(StateError::InvalidState));
}

fn job_with_state(state: &str) -> JobCreation {
    job(state, None)
}

fn arbitrary(input: Option<JsonObject>, state: &str, rules: Option<Vec<StateMapping>>) -> ArbitraryActorJob {
    ArbitraryActorJob {
        settings: ArbitraryActorSettings {
            actor_id: "Hvp4YfFGyLM635Q2F".to_string(),
            actor_input: input,
            token: "t".to_string(),
            key_mapping: key_rules(),
            state_mapping: rules,
        },
        state: state.to_string(),
    }
}

#[test]
fn body_of_an_arbitrary_job() {
    let with_input = arbitrary(
        Some(object(vec![("url", text("https://a.example"))])),
        r#"{"page": 7}"#,
        Some(vec![state_rule("page", "offset", "x")]),
    );
    let body = prepare_arbitrary_body(&with_input).unwrap();
    assert_eq!(body.len(), 2);
    assert_eq!(body.get("url"), Some(&text("https://a.example")));
    assert_eq!(body.get("offset"), Some(&JsonValue::Other(json("7"))));
    let without_input = arbitrary(None, "{}", None);
    assert_eq!(prepare_arbitrary_body(&without_input).unwrap().len(), 0);
    let unreadable = arbitrary(None, "", None);
    assert_eq!(prepare_arbitrary_body(&unreadable).err(), Some(StateError::InvalidState));
}

#[test]
fn request_of_an_arbitrary_job() {
    let request = JobRequest::for_arbitrary_actor(arbitrary(None, "{}", None));
    assert_eq!(request.target, "Hvp4YfFGyLM635Q2F");
    assert_eq!(request.payload.len(), 0);
    assert_eq!(request.key_mapping.len(), 2);
    assert!(request.state_mapping.is_none());
    assert_eq!(request.state, "{}");
}

#[test]
fn request_of_a_typed_job() {
    let payload = object(vec![("maxPages", JsonValue::Other(json("3")))]);
    let request = JobRequest::for_actor(
        "apify/web-scraper".to_string(),
        payload,
        job("{}", Some(vec![state_rule("a", "b", "c")])),
    );
    assert_eq!(request.target, "apify/web-scraper");
    assert_eq!(request.payload.len(), 1);
    assert_eq!(request.state_mapping.unwrap().len(), 1);
}

#[test]
fn state_mapping_is_validated_without_records() {
    assert_eq!(validate_state_mapping(&job("{}", None), ctx()), Ok(()));
    let fine = Some(vec![state_rule("d", "_", "$format_date(start_date, \"%Y\")")]);
    assert_eq!(validate_state_mapping(&job("{}", fine), ctx()), Ok(()));
    let broken = Some(vec![state_rule("d", "_", "$nothing_like_this()")]);
    assert_eq!(validate_state_mapping(&job("{}", broken), ctx()), Err(StateError::Expression));
    assert_eq!(validate_state_mapping(&job("{", None), ctx()), Err(StateError::InvalidState));
}

fn submitted_then(statuses: Vec<Option<State>>) -> Vec<Event> {
    let mut events = vec![Event::SubmitSucceeded(handle())];
    for status in statuses {
        events.push(match status {
            Some(state) => Event::Status(state),
            None => Event::StatusUnavailable,
        });
    }
    events
}

fn status_checks(actions: &[Action]) -> usize {
    actions.iter().filter(|a| matches!(a, Action::Poll | Action::PollAfterDelay)).count()
}

fn fetches(actions: &[Action]) -> usize {
    actions.iter().filter(|a| matches!(a, Action::Fetch)).count()
}

#[test]
fn replay_of_five_running_then_succeeded() {
    let run = JobRun::start(request("{}", None), ctx()).unwrap();
    let mut statuses = vec![Some(State::Running); 5];
    statuses.push(Some(State::Succeeded));
    let (run, actions) = run.replay(submitted_then(statuses));
    assert_eq!(actions.len(), 7);
    assert_eq!(actions[0], Action::Poll);
    for action in &actions[1..6] {
        assert_eq!(action, &Action::PollAfterDelay);
    }
    assert_eq!(actions[6], Action::Fetch);
    assert_eq!(status_checks(&actions), 6);
    assert_eq!(fetches(&actions), 1);
    assert_eq!(run.phase(), Phase::Succeeded);
    assert_eq!(run.attempts(), 5);
}

#[test]
fn replay_of_three_hundred_pending_answers() {
    let run = JobRun::start(request("{}", None), ctx()).unwrap();
    let statuses: Vec<Option<State>> =
        (0..300).map(|i| if i % 2 == 0 { Some(State::Running) } else { None }).collect();
    let (run, actions) = run.replay(submitted_then(statuses));
    assert_eq!(actions.len(), 301);
    assert_eq!(actions[300], Action::Abort(JobError::Timeout));
    assert_eq!(status_checks(&actions), 300);
    assert_eq!(fetches(&actions), 0);
    assert_eq!(run.phase(), Phase::TimedOut);
}

#[test]
fn replay_of_a_failure_and_what_follows() {
    let run = JobRun::start(request("{}", None), ctx()).unwrap();
    let mut events = submitted_then(vec![Some(State::Running), None, Some(State::Failed)]);
    events.push(Event::Status(State::Succeeded));
    events.push(Event::Fetched(records()));
    events.push(Event::StatusUnavailable);
    let (run, actions) = run.replay(events);
    assert_eq!(
        actions,
        vec![
            Action::Poll,
            Action::PollAfterDelay,
            Action::PollAfterDelay,
            Action::Abort(JobError::RemoteFailed),
            Action::Abort(JobError::Unexpected),
            Action::Abort(JobError::Unexpected),
            Action::Abort(JobError::Unexpected),
        ]
    );
    assert_eq!(status_checks(&actions), 3);
    assert_eq!(fetches(&actions), 0);
    assert_eq!(run.phase(), Phase::RemoteFailed);
    assert_eq!(run.attempts(), 2);
}

#[test]
fn replay_of_nothing() {
    let run = JobRun::start(request("{}", None), ctx()).unwrap();
    let (run, actions) = run.replay(vec![]);
    assert!(actions.is_empty());
    assert_eq!(run.phase(), Phase::Submitted);
}
