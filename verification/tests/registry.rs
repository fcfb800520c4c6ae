use std::sync::mpsc::channel;

use serde_json::Value;
use worker_registry::config::Config;
use worker_registry::polling::PollingError;
use worker_registry::polling::PollingState;
use worker_registry::system::outcome_of_read;
use worker_registry::system::ServState;
use worker_registry::system::WorkerProp;
use worker_registry::trusted::ChannelRead;

fn empty_config() -> Config {
    Config::new()
}

#[test]
fn job_lifecycle_pending_done_not_exist() {
    let mut state = ServState::new(empty_config());
    let (tx, rx) = channel::<Value>();
    let prop = WorkerProp::new("test".to_string(), 1, rx);

    let started = state.enqueue(prop);
    let handle = match started {
        PollingState::Started(h) => h,
        _ => panic!("enqueue must return Started"),
    };
    assert_eq!(handle, 0);

    // The job has sent nothing yet: polling reports Pending.
    assert!(matches!(state.get(handle), PollingState::Pending));
    assert!(matches!(state.get(handle), PollingState::Pending));

    // The job completes.
    tx.send(Value::String("Ok!!!".to_string())).unwrap();
    match state.get(handle) {
        PollingState::Done(v) => assert_eq!(v, Value::String("Ok!!!".to_string())),
        _ => panic!("a sent value must be observed as Done"),
    }

    // Completion is observed at most once: the record is gone.
    assert!(matches!(
        state.get(handle),
        PollingState::Error(PollingError::NotExist)
    ));
    assert_eq!(state.job_num("test"), 0);
}

#[test]
fn handles_are_strictly_increasing_and_distinct() {
    let mut state = ServState::new(empty_config());
    let mut previous: Option<u64> = None;
    for _ in 0..5 {
        let (_tx, rx) = channel::<Value>();
        let prop = WorkerProp::new("seq".to_string(), 0, rx);
        match state.enqueue(prop) {
            PollingState::Started(h) => {
                if let Some(p) = previous {
                    assert!(p < h);
                }
                previous = Some(h);
            }
            _ => panic!("enqueue must return Started"),
        }
    }
}

#[test]
fn disconnected_job_record_remains() {
    let mut state = ServState::new(empty_config());
    let (tx, rx) = channel::<Value>();
    let prop = WorkerProp::new("crashy".to_string(), 2, rx);
    let handle = match state.enqueue(prop) {
        PollingState::Started(h) => h,
        _ => panic!("enqueue must return Started"),
    };

    // The execution unit ends abruptly, without ever sending a result.
    drop(tx);

    assert!(matches!(
        state.get(handle),
        PollingState::Error(PollingError::Disconnected)
    ));
    // Unlike Done, Disconnected leaves the record in place: the registry
    // still counts it and a further poll reports the same outcome.
    assert_eq!(state.job_num("crashy"), 1);
    assert!(matches!(
        state.get(handle),
        PollingState::Error(PollingError::Disconnected)
    ));
}

#[test]
fn kind_limits_govern_availability() {
    let config = Config {
        allow_tokens: Vec::new(),
        job_limits: vec![("batch".to_string(), 2)],
    };
    let mut state = ServState::new(config);
    assert_eq!(state.job_limit("batch"), 2);
    assert!(state.job_available("batch"));

    let (_tx1, rx1) = channel::<Value>();
    let first = match state.enqueue(WorkerProp::new("batch".to_string(), 0, rx1)) {
        PollingState::Started(h) => h,
        _ => panic!("enqueue must return Started"),
    };
    assert!(state.job_available("batch"));

    let (_tx2, rx2) = channel::<Value>();
    state.enqueue(WorkerProp::new("batch".to_string(), 0, rx2));
    assert_eq!(state.job_num("batch"), 2);
    assert!(!state.job_available("batch"));

    // Removing one brings the kind back under its limit.
    let (outcome, _unit) = state.remove(first);
    assert!(matches!(outcome, PollingState::Removed));
    assert_eq!(state.job_num("batch"), 1);
    assert!(state.job_available("batch"));
}

#[test]
fn unconfigured_kind_is_unlimited() {
    let mut state = ServState::new(empty_config());
    assert_eq!(state.job_limit("anything"), u64::MAX);
    for _ in 0..3 {
        let (_tx, rx) = channel::<Value>();
        state.enqueue(WorkerProp::new("anything".to_string(), 0, rx));
        assert!(state.job_available("anything"));
    }
}

#[test]
fn job_num_counts_only_matching_names() {
    let mut state = ServState::new(empty_config());
    for name in ["a", "b", "a"] {
        let (_tx, rx) = channel::<Value>();
        state.enqueue(WorkerProp::new(name.to_string(), 0, rx));
    }
    assert_eq!(state.job_num("a"), 2);
    assert_eq!(state.job_num("b"), 1);
    assert_eq!(state.job_num("c"), 0);
}

#[test]
fn remove_on_never_issued_handle() {
    let mut state = ServState::new(empty_config());
    let (outcome, unit) = state.remove(999999);
    assert!(matches!(
        outcome,
        PollingState::Error(PollingError::NotExist)
    ));
    assert!(unit.is_none());
}

#[test]
fn poll_on_never_issued_handle() {
    let mut state = ServState::new(empty_config());
    assert!(matches!(
        state.get(123456),
        PollingState::Error(PollingError::NotExist)
    ));
}

#[test]
fn remove_running_job_reports_its_unit_at_once() {
    let mut state = ServState::new(empty_config());
    let (_tx, rx) = channel::<Value>();
    // The job is mid-execution: its sender is alive and nothing was sent.
    let handle = match state.enqueue(WorkerProp::new("busy".to_string(), 42, rx)) {
        PollingState::Started(h) => h,
        _ => panic!("enqueue must return Started"),
    };

    // Removal does not wait for the job: it returns Removed at once and
    // hands back the execution unit against which termination is issued.
    let (outcome, unit) = state.remove(handle);
    assert!(matches!(outcome, PollingState::Removed));
    assert_eq!(unit, Some(42));

    // The handle is gone afterwards.
    assert!(matches!(
        state.get(handle),
        PollingState::Error(PollingError::NotExist)
    ));
}

#[test]
fn fresh_record_timestamps_start_equal() {
    let (_tx, rx) = channel::<Value>();
    let prop = WorkerProp::new("fresh".to_string(), 0, rx);
    assert_eq!(prop.create_time, prop.last_query);
}

#[test]
fn channel_reads_map_to_their_outcomes() {
    let done = outcome_of_read(ChannelRead::Received(Value::String("v".to_string())));
    match done {
        PollingState::Done(v) => assert_eq!(v, Value::String("v".to_string())),
        _ => panic!("a received value must become Done"),
    }
    assert!(matches!(
        outcome_of_read(ChannelRead::Empty),
        PollingState::Pending
    ));
    assert!(matches!(
        outcome_of_read(ChannelRead::Disconnected),
        PollingState::Error(PollingError::Disconnected)
    ));
}

#[test]
fn verify_token_checks_the_allow_list() {
    let config = Config {
        allow_tokens: vec!["alpha".to_string(), "beta".to_string()],
        job_limits: Vec::new(),
    };
    let state = ServState::new(config);
    assert!(state.verify_token("alpha"));
    assert!(state.verify_token("beta"));
    assert!(!state.verify_token("gamma"));
    assert!(!state.verify_token(""));
}

#[test]
fn later_limit_entry_overrides_earlier() {
    let config = Config {
        allow_tokens: Vec::new(),
        job_limits: vec![("batch".to_string(), 5), ("batch".to_string(), 1)],
    };
    let state = ServState::new(config);
    assert_eq!(state.job_limit("batch"), 1);
}

#[test]
fn debug_snapshot_of_empty_registry_is_empty() {
    let state = ServState::new(empty_config());
    assert_eq!(state.debug_info(), String::new());
}

#[test]
fn debug_snapshot_lists_jobs_and_consumes_results() {
    let mut state = ServState::new(empty_config());
    let (tx, rx) = channel::<Value>();
    let handle = match state.enqueue(WorkerProp::new("snap".to_string(), 3, rx)) {
        PollingState::Started(h) => h,
        _ => panic!("enqueue must return Started"),
    };
    tx.send(Value::String("done".to_string())).unwrap();

    // The snapshot performs the same consuming channel read that a poll
    // does: the job's only result message is swallowed by it.
    let dump = state.debug_info();
    assert!(dump.contains(&handle.to_string()));
    assert!(dump.contains("snap"));

    // The sender is still alive but its message is gone: the job now
    // polls as Pending forever.
    assert!(matches!(state.get(handle), PollingState::Pending));
}
