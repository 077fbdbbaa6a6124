use scylla_core::errors::{DbError, RequestAttemptError, RequestError};
use scylla_core::speculative_execution::{
    can_be_ignored, percentile_retry_interval_ms, Context, Event, Race,
    SimpleSpeculativeExecutionPolicy, SpeculativeExecutionPolicy, Step,
    FALLBACK_RETRY_INTERVAL_MS,
};
use std::time::Duration;

fn db_error(kind: DbError) -> RequestError {
    RequestError::LastAttemptError(RequestAttemptError::DbError(kind, String::from("msg")))
}

fn overloaded() -> RequestError {
    db_error(DbError::Overloaded)
}

fn broken(what: &str) -> RequestError {
    RequestError::LastAttemptError(RequestAttemptError::BrokenConnectionError(String::from(what)))
}

fn waiting(step: Step<u32>) -> Race {
    match step {
        Step::Wait(race) => race,
        other => panic!("the race should wait, not {:?}", other),
    }
}

fn launching(step: Step<u32>) -> Race {
    match step {
        Step::Launch(race) => race,
        other => panic!("the race should launch, not {:?}", other),
    }
}

fn finished(step: Step<u32>) -> Result<u32, RequestError> {
    match step {
        Step::Finish(result) => result,
        other => panic!("the race should be over, not {:?}", other),
    }
}

#[test]
fn simple_policy_answers_with_its_fields() {
    let policy = SimpleSpeculativeExecutionPolicy {
        max_retry_count: 3,
        retry_interval: Duration::from_millis(25),
    };
    let context = Context::new();
    assert_eq!(policy.max_retry_count(&context), 3);
    assert_eq!(policy.retry_interval(&context), Duration::from_millis(25));
}

#[test]
fn percentile_interval_falls_back_to_100_ms() {
    assert_eq!(FALLBACK_RETRY_INTERVAL_MS, 100);
    assert_eq!(percentile_retry_interval_ms::<String>(Ok(7)), 7);
    assert_eq!(percentile_retry_interval_ms::<String>(Ok(0)), 0);
    assert_eq!(percentile_retry_interval_ms(Err(String::from("no samples"))), 100);
}

#[test]
fn success_is_never_ignorable() {
    assert!(!can_be_ignored::<u32>(&Ok(1)));
}

#[test]
fn request_level_errors_are_classified() {
    assert!(!can_be_ignored::<u32>(&Err(RequestError::EmptyPlan)));
    assert!(!can_be_ignored::<u32>(&Err(RequestError::RequestTimeout(
        Duration::from_secs(1)
    ))));
    assert!(can_be_ignored::<u32>(&Err(RequestError::ConnectionPoolError(
        String::from("pool is empty")
    ))));
}

#[test]
fn attempt_errors_are_classified() {
    let text = || String::from("x");
    let never = [
        RequestAttemptError::SerializationError(text()),
        RequestAttemptError::CqlRequestSerialization(text()),
        RequestAttemptError::BodyExtensionsParseError(text()),
        RequestAttemptError::CqlResultParseError(text()),
        RequestAttemptError::CqlErrorParseError(text()),
        RequestAttemptError::UnexpectedResponse(text()),
        RequestAttemptError::RepreparedIdChanged {
            statement: text(),
            expected_id: vec![1],
            reprepared_id: vec![2],
        },
        RequestAttemptError::RepreparedIdMissingInBatch,
        RequestAttemptError::NonfinishedPagingState,
    ];
    for e in never {
        assert!(!can_be_ignored::<u32>(&Err(RequestError::LastAttemptError(e))));
    }
    let always = [
        RequestAttemptError::BrokenConnectionError(text()),
        RequestAttemptError::UnableToAllocStreamId,
    ];
    for e in always {
        assert!(can_be_ignored::<u32>(&Err(RequestError::LastAttemptError(e))));
    }
}

#[test]
fn db_errors_are_ignorable_when_retry_safe() {
    let safe = [
        DbError::Unavailable,
        DbError::Overloaded,
        DbError::IsBootstrapping,
        DbError::ReadTimeout,
        DbError::WriteTimeout,
        DbError::ReadFailure,
        DbError::WriteFailure,
        DbError::Unprepared,
        DbError::ServerError,
        DbError::RateLimitReached,
    ];
    for kind in safe {
        assert!(kind.can_speculative_retry());
        assert!(can_be_ignored::<u32>(&Err(db_error(kind))));
    }
    let not_safe = [
        DbError::SyntaxError,
        DbError::Invalid,
        DbError::AlreadyExists,
        DbError::FunctionFailure,
        DbError::AuthenticationError,
        DbError::Unauthorized,
        DbError::ConfigError,
        DbError::TruncateError,
        DbError::ProtocolError,
        DbError::Other(0x1234),
    ];
    for kind in not_safe {
        assert!(!kind.can_speculative_retry());
        assert!(!can_be_ignored::<u32>(&Err(db_error(kind))));
    }
}

#[test]
fn race_starts_from_the_policy() {
    let policy = SimpleSpeculativeExecutionPolicy {
        max_retry_count: 2,
        retry_interval: Duration::from_millis(40),
    };
    let race = Race::start(&policy, &Context::new());
    assert_eq!(race.retries_remaining(), 2);
    assert_eq!(race.retry_interval(), Duration::from_millis(40));
}

#[test]
fn immediate_success_launches_nothing() {
    let race = Race::new(5, Duration::from_millis(10));
    let result = finished(race.step(Event::AttemptFinished(Some(Ok(17)))));
    assert_eq!(result, Ok(17));
}

#[test]
fn two_retries_are_launched_and_no_more() {
    let interval = Duration::from_millis(30);
    let race = Race::new(2, interval);
    let race = launching(race.step(Event::TimerFired));
    assert_eq!(race.retries_remaining(), 1);
    assert_eq!(race.retry_interval(), interval);
    let race = launching(race.step(Event::TimerFired));
    assert_eq!(race.retries_remaining(), 0);
    assert_eq!(race.retry_interval(), interval);
    let race = waiting(race.step(Event::TimerFired));
    let race = waiting(race.step(Event::TimerFired));
    assert_eq!(race.retries_remaining(), 0);
    // the second speculative attempt answers first
    let result = finished(race.step(Event::AttemptFinished(Some(Ok(3)))));
    assert_eq!(result, Ok(3));
}

#[test]
fn last_ignorable_error_is_returned() {
    let race = Race::new(2, Duration::from_millis(30));
    let race = launching(race.step(Event::TimerFired));
    let race = waiting(race.step(Event::AttemptFinished(Some(Err(broken("first"))))));
    let race = launching(race.step(Event::TimerFired));
    let race = waiting(race.step(Event::AttemptFinished(Some(Err(overloaded())))));
    let result = finished(race.step(Event::AttemptFinished(Some(Err(broken("last"))))));
    assert_eq!(result, Err(broken("last")));
}

#[test]
fn race_waits_for_retries_when_no_attempt_is_in_flight() {
    let race = Race::new(1, Duration::from_millis(30));
    let race = waiting(race.step(Event::AttemptFinished(Some(Err(overloaded())))));
    assert_eq!(race.retries_remaining(), 1);
    let race = launching(race.step(Event::TimerFired));
    let result = finished(race.step(Event::AttemptFinished(Some(Err(broken("second"))))));
    assert_eq!(result, Err(broken("second")));
}

#[test]
fn non_ignorable_error_ends_the_race_at_once() {
    let race = Race::new(4, Duration::from_millis(30));
    let race = launching(race.step(Event::TimerFired));
    let race = launching(race.step(Event::TimerFired));
    let result = finished(race.step(Event::AttemptFinished(Some(Err(db_error(
        DbError::SyntaxError,
    ))))));
    assert_eq!(result, Err(db_error(DbError::SyntaxError)));
}

#[test]
fn non_ignorable_error_of_the_first_attempt_to_arrive_wins() {
    let race = Race::new(4, Duration::from_millis(30));
    let result = finished(race.step(Event::AttemptFinished(Some(Err(
        RequestError::RequestTimeout(Duration::from_secs(2)),
    )))));
    assert_eq!(
        result,
        Err(RequestError::RequestTimeout(Duration::from_secs(2)))
    );
}

#[test]
fn silent_attempt_is_passed_over() {
    let race = Race::new(1, Duration::from_millis(30));
    let race = launching(race.step(Event::TimerFired));
    let race = waiting(race.step(Event::AttemptFinished(Some(Err(overloaded())))));
    // the other attempt has nothing to report: the remembered error is returned
    let result = finished(race.step(Event::AttemptFinished(None)));
    assert_eq!(result, Err(overloaded()));
}

#[test]
fn silent_first_attempt_without_retries_gives_empty_plan() {
    let race = Race::new(0, Duration::from_millis(30));
    let result = finished(race.step(Event::AttemptFinished(None)));
    assert_eq!(result, Err(RequestError::EmptyPlan));
}

#[test]
fn timer_without_retries_changes_nothing() {
    let race = Race::new(0, Duration::from_millis(30));
    let race = waiting(race.step(Event::TimerFired));
    assert_eq!(race.retries_remaining(), 0);
    let result = finished(race.step(Event::AttemptFinished(Some(Err(overloaded())))));
    assert_eq!(result, Err(overloaded()));
}
