use svc_nats_client::client::SubscribeError;
use svc_nats_client::config::{Config, ConsumerConfig, SubscribeDurableConfig};
use svc_nats_client::consumer::{
    inner_step, next_suspend_interval, outcome_of, supervisor_step, take_suspend,
    CompletionReason, FailureKind, FailureKindExt, HandleMessageFailure, HandleMessageOutcome,
    InnerState, LogSentry, StreamEvent, SupervisorAction, SupervisorEvent, SupervisorState,
};
use svc_nats_client::error::AckKind;

fn cfg() -> ConsumerConfig {
    ConsumerConfig {
        suspend_interval: 1,
        max_suspend_interval: 10,
        suspend_sentry_interval: 10,
        resubscribe_interval: 3,
    }
}

#[test]
fn outcome_mapping() {
    assert_eq!(
        outcome_of(&Ok::<(), HandleMessageFailure<String>>(())),
        HandleMessageOutcome::Processed
    );
    assert_eq!(
        outcome_of(&Err(HandleMessageFailure::Transient("e".to_string()))),
        HandleMessageOutcome::ProcessLater
    );
    assert_eq!(
        outcome_of(&Err(HandleMessageFailure::Permanent("e".to_string()))),
        HandleMessageOutcome::WontProcess
    );
}

#[test]
fn failure_kind_lifting() {
    let r: Result<(), String> = Err("boom".to_string());
    assert_eq!(
        r.clone().transient(),
        Err(HandleMessageFailure::Transient("boom".to_string()))
    );
    assert_eq!(
        r.permanent(),
        Err(HandleMessageFailure::Permanent("boom".to_string()))
    );
    let ok: Result<i32, String> = Ok(5);
    assert_eq!(ok.transient(), Ok(5));
}

#[test]
fn failure_kind_map_keeps_the_kind() {
    let t: Result<(), HandleMessageFailure<i32>> = Err(HandleMessageFailure::Transient(3));
    assert_eq!(
        t.map_failure_err(|e| e + 1),
        Err(HandleMessageFailure::Transient(4))
    );
    let p: Result<(), HandleMessageFailure<i32>> = Err(HandleMessageFailure::Permanent(3));
    assert_eq!(
        p.map_failure_err(|e| e * 2),
        Err(HandleMessageFailure::Permanent(6))
    );
}

#[test]
fn backoff_doubles_then_clamps() {
    let c = cfg();
    assert_eq!(next_suspend_interval(0, &c), 1);
    assert_eq!(next_suspend_interval(1, &c), 2);
    assert_eq!(next_suspend_interval(2, &c), 4);
    assert_eq!(next_suspend_interval(3, &c), 8);
    assert_eq!(next_suspend_interval(4, &c), 10);
    assert_eq!(next_suspend_interval(5, &c), 10);
    assert_eq!(next_suspend_interval(63, &c), 10);
    assert_eq!(next_suspend_interval(u32::MAX, &c), 10);
}

#[test]
fn transient_backoff_sequence_and_reset() {
    // Five transient failures then success: sleeps 2, 4, 8, 10, 10; the
    // next transient after the success sleeps 2 again.
    let c = cfg();
    let mut st = InnerState::initial();
    let mut sleeps: Vec<u64> = Vec::new();
    for _ in 0..5 {
        let r = inner_step(
            &StreamEvent::Item(HandleMessageOutcome::ProcessLater),
            &mut st,
            &c,
        );
        assert_eq!(r.ack, Some(AckKind::Nak(None)));
        assert!(r.log_error);
        sleeps.push(take_suspend(&mut st).unwrap());
    }
    assert_eq!(sleeps, vec![2, 4, 8, 10, 10]);

    let r = inner_step(
        &StreamEvent::Item(HandleMessageOutcome::Processed),
        &mut st,
        &c,
    );
    assert_eq!(r.ack, Some(AckKind::Ack));
    assert_eq!(st.retry_count, 0);
    assert_eq!(take_suspend(&mut st), None);

    inner_step(
        &StreamEvent::Item(HandleMessageOutcome::ProcessLater),
        &mut st,
        &c,
    );
    assert_eq!(take_suspend(&mut st), Some(2));
}

#[test]
fn processed_acks_positively_and_resets_retry() {
    let c = cfg();
    let mut st = InnerState {
        retry_count: 4,
        suspend_until: None,
    };
    let r = inner_step(
        &StreamEvent::Item(HandleMessageOutcome::Processed),
        &mut st,
        &c,
    );
    assert_eq!(r.ack, Some(AckKind::Ack));
    assert_eq!(st.retry_count, 0);
    assert!(r.complete.is_none());
    assert!(!r.report);
}

#[test]
fn permanent_terminates_without_positive_ack() {
    let c = cfg();
    let mut st = InnerState {
        retry_count: 2,
        suspend_until: None,
    };
    let r = inner_step(
        &StreamEvent::Item(HandleMessageOutcome::WontProcess),
        &mut st,
        &c,
    );
    assert_eq!(r.ack, Some(AckKind::Term));
    assert!(r.report);
    // The retry counter is untouched and no suspension is scheduled.
    assert_eq!(st.retry_count, 2);
    assert_eq!(st.suspend_until, None);
}

#[test]
fn item_error_is_reported_and_skipped() {
    let c = cfg();
    let mut st = InnerState {
        retry_count: 3,
        suspend_until: None,
    };
    let r = inner_step(&StreamEvent::ItemError, &mut st, &c);
    assert!(r.report);
    assert_eq!(r.ack, None);
    assert!(r.complete.is_none());
    assert_eq!(st.retry_count, 3);
    assert_eq!(st.suspend_until, None);
}

#[test]
fn shutdown_preempts_pending_suspension() {
    // A 10-second suspension is pending; the shutdown event completes the
    // loop at once, with no acknowledgement and no further sleep taken.
    let c = cfg();
    let mut st = InnerState {
        retry_count: 4,
        suspend_until: Some(10),
    };
    let r = inner_step(&StreamEvent::Shutdown, &mut st, &c);
    assert_eq!(r.complete, Some(CompletionReason::Shutdown));
    assert_eq!(r.ack, None);

    let mut sup = SupervisorState::Running;
    let (action, report) = supervisor_step(
        &mut sup,
        SupervisorEvent::InnerCompleted(CompletionReason::Shutdown),
        &c,
    );
    assert_eq!(sup, SupervisorState::ShuttingDown);
    assert_eq!(action, SupervisorAction::Stop);
    assert!(report.is_none());
}

#[test]
fn stream_close_triggers_resubscribe_after_interval() {
    // The supervisor subscribes, the stream closes after a message, and a
    // second subscribe attempt follows a resubscribe_interval sleep.
    let c = cfg();
    let mut sup = SupervisorState::Subscribing;
    let mut subscribe_calls = 1; // the initial subscribe in flight

    let (action, _) = supervisor_step(&mut sup, SupervisorEvent::SubscribeOk, &c);
    assert_eq!(action, SupervisorAction::RunStream);
    assert_eq!(sup, SupervisorState::Running);

    let (action, report) = supervisor_step(
        &mut sup,
        SupervisorEvent::InnerCompleted(CompletionReason::StreamClosed),
        &c,
    );
    assert_eq!(action, SupervisorAction::Sleep(3));
    assert!(report.is_some());
    assert_eq!(sup, SupervisorState::Backoff);

    let (action, _) = supervisor_step(&mut sup, SupervisorEvent::Slept, &c);
    assert_eq!(action, SupervisorAction::OpenStream);
    assert_eq!(sup, SupervisorState::Subscribing);
    subscribe_calls += 1;
    assert!(subscribe_calls >= 2);
}

#[test]
fn subscribe_failure_backs_off_and_retries() {
    let c = cfg();
    let mut sup = SupervisorState::Subscribing;
    let (action, report) = supervisor_step(
        &mut sup,
        SupervisorEvent::SubscribeFailed(SubscribeError::SubscribeConfigNotFound),
        &c,
    );
    assert_eq!(action, SupervisorAction::Sleep(3));
    assert!(report.is_some());
    assert_eq!(sup, SupervisorState::Backoff);
}

#[test]
fn sentry_first_report_is_forwarded() {
    let c = cfg();
    let mut sentry = LogSentry::new(100, &c);
    assert_eq!(sentry.last_sent, 80);
    assert!(sentry.log_notify(100));
    assert_eq!(sentry.last_sent, 100);
    // Right away again: threshold of 1 second not yet passed.
    assert!(!sentry.log_notify(100));
}

#[test]
fn sentry_forwarded_count_matches_ceiling() {
    // threshold 5, errors every 2 seconds: period k = ceil(5/2) = 3; out
    // of 7 errors ceil(7/3) = 3 are forwarded, all 7 are logged.
    let c = ConsumerConfig {
        suspend_interval: 5,
        max_suspend_interval: 10,
        suspend_sentry_interval: 10,
        resubscribe_interval: 3,
    };
    let mut sentry = LogSentry::new(100, &c);
    let mut forwarded = 0;
    let mut logged = 0;
    for i in 0..7u64 {
        logged += 1;
        if sentry.log_notify(100 + i * 2) {
            forwarded += 1;
        }
    }
    assert_eq!(logged, 7);
    assert_eq!(forwarded, 3);
}

#[test]
fn config_sections_are_independently_optional() {
    let config = Config {
        url: "nats://localhost:4222".to_string(),
        creds: "/etc/nats/user.creds".to_string(),
        subscribe_durable: Some(SubscribeDurableConfig {
            stream: "events".to_string(),
            consumer: "worker".to_string(),
            batch: 32,
            idle_heartbeat: 5,
        }),
        subscribe_ephemeral: None,
    };
    assert_eq!(config.durable().unwrap().stream, "events");
    assert!(matches!(
        config.ephemeral().unwrap_err(),
        SubscribeError::SubscribeConfigNotFound
    ));
}
