use sntp::{
    AttemptFailure, ClockPrecision, Duration, Instant, NTPTimestamps, NtpError, SamplingSession,
    SessionAction, MAX_ATTEMPTS, NUM_TIMINGS,
};

fn good(k: i64) -> Result<NTPTimestamps, NtpError> {
    Ok(NTPTimestamps {
        t1: Instant::from_unix_nanos(1_000 * k),
        t2: Instant::from_unix_nanos(1_000 * k + 500 + k),
        t3: Instant::from_unix_nanos(1_000 * k + 510 + k),
        t4: Instant::from_unix_nanos(1_000 * k + 40 + k),
    })
}

fn lost() -> Result<NTPTimestamps, NtpError> {
    Err(NtpError::TransportError(String::from("timed out")))
}

// Runs a session over the outcomes that `outcome_of` gives for each attempt,
// and returns what it ends with and the accounts of the failed attempts.
fn drive(outcome_of: &dyn Fn(usize) -> Result<NTPTimestamps, NtpError>) -> (Result<sntp::NTPResults, NtpError>, Vec<AttemptFailure>, usize) {
    let mut session = SamplingSession::new(ClockPrecision::from_nanos(1));
    let mut failures = Vec::new();
    let mut exchanges = 0;
    loop {
        match session.next_action() {
            SessionAction::Exchange { attempt } => {
                exchanges += 1;
                assert_eq!(attempt, exchanges);
                if let Some(failure) = session.record(outcome_of(attempt)) {
                    failures.push(failure);
                }
            }
            SessionAction::Finish => break,
        }
    }
    (session.finish(), failures, exchanges)
}

#[test]
fn budget_and_target() {
    assert_eq!(NUM_TIMINGS, 8);
    assert_eq!(MAX_ATTEMPTS, 24);
}

#[test]
fn five_successes_in_the_whole_budget_are_insufficient() {
    let (outcome, failures, exchanges) = drive(&|attempt| if attempt % 5 == 3 { good(attempt as i64) } else { lost() });
    assert_eq!(exchanges, 24);
    assert_eq!(failures.len(), 19);
    assert!(matches!(outcome, Err(NtpError::InsufficientSamples(5))));
}

#[test]
fn five_successes_first_and_then_only_failures_are_insufficient() {
    let (outcome, failures, exchanges) = drive(&|attempt| if attempt <= 5 { good(attempt as i64) } else { Err(NtpError::ResponseMismatch) });
    assert_eq!(exchanges, 24);
    assert_eq!(failures.len(), 19);
    assert_eq!(outcome.unwrap_err(), NtpError::InsufficientSamples(5));
}

#[test]
fn no_success_at_all_is_insufficient_with_zero() {
    let (outcome, failures, exchanges) = drive(&|_| lost());
    assert_eq!(exchanges, 24);
    assert_eq!(failures.len(), 24);
    assert_eq!(outcome.unwrap_err(), NtpError::InsufficientSamples(0));
}

#[test]
fn seven_successes_are_one_too_few() {
    let (outcome, _, exchanges) = drive(&|attempt| if attempt <= 7 { good(attempt as i64) } else { lost() });
    assert_eq!(exchanges, 24);
    assert_eq!(outcome.unwrap_err(), NtpError::InsufficientSamples(7));
}

#[test]
fn eight_successes_in_a_row_end_the_session_early() {
    let (outcome, failures, exchanges) = drive(&|attempt| good(attempt as i64));
    assert_eq!(exchanges, 8);
    assert!(failures.is_empty());
    let results = outcome.unwrap();
    assert_eq!(results.len(), 8);
}

#[test]
fn the_eighth_success_may_come_with_the_last_attempt() {
    let (outcome, failures, exchanges) = drive(&|attempt| if attempt % 3 == 0 { good(attempt as i64) } else { lost() });
    assert_eq!(exchanges, 24);
    assert_eq!(failures.len(), 16);
    assert_eq!(outcome.unwrap().len(), 8);
}

#[test]
fn failures_between_successes_do_not_end_the_session() {
    let (outcome, failures, exchanges) = drive(&|attempt| if attempt % 2 == 0 { good(attempt as i64) } else { lost() });
    assert_eq!(exchanges, 16);
    assert_eq!(failures.len(), 8);
    assert_eq!(outcome.unwrap().len(), 8);
}

#[test]
fn every_failed_attempt_is_accounted_for_with_its_number_and_cause() {
    let causes = |attempt: usize| match attempt {
        1 => Err(NtpError::MalformedResponse),
        2 => Err(NtpError::UnexpectedMode(5)),
        3 => good(3),
        4 => Err(NtpError::ServerUnsynchronized),
        5 => Err(NtpError::InvalidTimestamp),
        6 => Err(NtpError::ResponseMismatch),
        7 => Err(NtpError::TransportError(String::from("connection refused"))),
        _ => good(attempt as i64),
    };
    let (outcome, failures, exchanges) = drive(&causes);
    assert_eq!(exchanges, 14);
    assert_eq!(outcome.unwrap().len(), 8);
    let seen: Vec<(usize, NtpError)> = failures.into_iter().map(|f| (f.attempt, f.cause)).collect();
    assert_eq!(
        seen,
        vec![
            (1, NtpError::MalformedResponse),
            (2, NtpError::UnexpectedMode(5)),
            (4, NtpError::ServerUnsynchronized),
            (5, NtpError::InvalidTimestamp),
            (6, NtpError::ResponseMismatch),
            (7, NtpError::TransportError(String::from("connection refused"))),
        ]
    );
}

#[test]
fn samples_are_the_offsets_and_delays_in_the_order_of_the_attempts() {
    let (outcome, _, _) = drive(&|attempt| if attempt == 2 { lost() } else { good(attempt as i64) });
    let results = outcome.unwrap();
    // attempt k gives the offset ((500 + k) + (470)) / 2 and the delay (40 + k) + 10
    let expected = [1usize, 3, 4, 5, 6, 7, 8, 9];
    for (place, k) in expected.iter().enumerate() {
        let k = *k as i64;
        assert_eq!(
            results.get(place),
            Some((Duration::nanoseconds((500 + k + 470) / 2), Duration::nanoseconds(50 + k)))
        );
    }
    assert_eq!(results.min_delay(), Duration::nanoseconds(51));
    assert_eq!(results.min_offset(), Duration::nanoseconds(485));
}

#[test]
fn delays_are_held_at_the_precision_of_the_session() {
    let mut session = SamplingSession::new(ClockPrecision::from_nanos(75));
    for k in 1..=8 {
        assert!(session.record(good(k)).is_none());
    }
    let results = session.finish().unwrap();
    for place in 0..8 {
        assert_eq!(results.get(place).unwrap().1, Duration::nanoseconds(75));
    }
}

#[test]
fn a_new_session_asks_for_the_first_attempt() {
    let session = SamplingSession::new(ClockPrecision::from_nanos(1));
    assert_eq!(session.attempts(), 0);
    assert_eq!(session.successes(), 0);
    assert_eq!(session.next_action(), SessionAction::Exchange { attempt: 1 });
}

#[test]
fn attempts_and_successes_are_counted() {
    let mut session = SamplingSession::new(ClockPrecision::from_nanos(1));
    assert!(session.record(lost()).is_some());
    assert!(session.record(good(2)).is_none());
    assert!(session.record(lost()).is_some());
    assert_eq!(session.attempts(), 3);
    assert_eq!(session.successes(), 1);
    assert_eq!(session.next_action(), SessionAction::Exchange { attempt: 4 });
}

#[test]
fn a_finished_session_takes_no_more_outcomes() {
    let mut session = SamplingSession::new(ClockPrecision::from_nanos(1));
    for k in 1..=8 {
        session.record(good(k));
    }
    assert_eq!(session.next_action(), SessionAction::Finish);
    assert!(session.record(good(9)).is_none());
    assert!(session.record(lost()).is_none());
    assert_eq!(session.attempts(), 8);
    assert_eq!(session.successes(), 8);
    assert_eq!(session.finish().unwrap().len(), 8);

    let mut session = SamplingSession::new(ClockPrecision::from_nanos(1));
    for _ in 0..24 {
        assert!(session.record(lost()).is_some());
    }
    assert_eq!(session.next_action(), SessionAction::Finish);
    assert!(session.record(good(1)).is_none());
    assert_eq!(session.attempts(), 24);
    assert_eq!(session.successes(), 0);
    assert_eq!(session.finish().unwrap_err(), NtpError::InsufficientSamples(0));
}

#[test]
fn a_session_ended_before_its_time_is_insufficient() {
    let mut session = SamplingSession::new(ClockPrecision::from_nanos(1));
    session.record(good(1));
    session.record(good(2));
    assert_eq!(session.finish().unwrap_err(), NtpError::InsufficientSamples(2));
}

#[test]
fn a_session_holds_the_first_eight_records_and_no_later_one() {
    // attempts 2, 4, 6, ... are records; the session is offered thirty
    let mut session = SamplingSession::new(ClockPrecision::from_nanos(60));
    for attempt in 1..=30 {
        let outcome = if attempt % 2 == 0 { good(attempt) } else { lost() };
        session.record(outcome);
    }
    assert_eq!(session.attempts(), 16);
    let results = session.finish().unwrap();
    assert_eq!(results.len(), 8);
    for place in 0..8 {
        let k = 2 * (place as i64 + 1);
        // record k has the offset ((500 + k) + 470) / 2 and the delay 50 + k, held at 60
        let delay = if 50 + k > 60 { 50 + k } else { 60 };
        assert_eq!(
            results.get(place),
            Some((Duration::nanoseconds((970 + k) / 2), Duration::nanoseconds(delay)))
        );
        assert!(results.get(place).unwrap().1 >= Duration::nanoseconds(60));
    }
}
