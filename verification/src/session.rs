//! The bookkeeping of a sampling session: what to do next, what an attempt's
//! outcome adds, and how the session ends. The session itself performs no
//! exchange; whoever drives it does, and reports each outcome back.
//!
//! `SessionState` is the session as a mathematical value, and its functions
//! say what the session does; `SamplingSession` is the value that runs.

use crate::error::NtpError;
use crate::precision::ClockPrecision;
use crate::roundtrip::NTPTimestamps;
use crate::stats::NTPResults;
use vstd::prelude::*;

verus! {

/// The number of samples that completes a session.
pub const NUM_TIMINGS: usize = 8;

/// The number of attempts after which a session gives up.
pub const MAX_ATTEMPTS: usize = 24;

/// What the driver of a session is to do next.
#[derive(Clone, Copy, Debug, PartialEq, Eq, Structural)]
pub enum SessionAction {
    /// Make one more exchange; `attempt` counts the attempts from one.
    Exchange { attempt: usize },
    /// Make no more exchanges and call `finish`.
    Finish,
}

/// The account of an attempt that gave no sample.
#[derive(Debug)]
pub struct AttemptFailure {
    /// The number of the attempt, counted from one.
    pub attempt: usize,
    pub cause: NtpError,
}

/// A session as the contracts see it: the precision of the clock that the
/// delays are held against, the number of attempts whose outcome was taken,
/// and the samples gathered in them, each an offset and a delay in
/// nanoseconds.
pub struct SessionState {
    pub precision: ClockPrecision,
    pub attempts: nat,
    pub samples: Seq<(int, int)>,
}

/// The number of records among the outcomes.
pub open spec fn successes(outcomes: Seq<Result<NTPTimestamps, NtpError>>) -> nat
    decreases outcomes.len(),
{
    if outcomes.len() == 0 {
        0
    } else {
        successes(outcomes.drop_last()) + if outcomes.last() is Ok {
            1nat
        } else {
            0nat
        }
    }
}

/// The outcomes that fall inside the budget of attempts: the first
/// `MAX_ATTEMPTS` of them.
pub open spec fn within_budget(outcomes: Seq<Result<NTPTimestamps, NtpError>>) -> Seq<
    Result<NTPTimestamps, NtpError>,
> {
    if outcomes.len() > MAX_ATTEMPTS {
        outcomes.take(MAX_ATTEMPTS as int)
    } else {
        outcomes
    }
}

/// The samples that the records among the outcomes give, in the order of
/// the outcomes: of each record its offset, and its delay held at the
/// precision of the clock.
pub open spec fn samples_of(
    precision: ClockPrecision,
    outcomes: Seq<Result<NTPTimestamps, NtpError>>,
) -> Seq<(int, int)>
    decreases outcomes.len(),
{
    if outcomes.len() == 0 {
        Seq::empty()
    } else {
        let before = samples_of(precision, outcomes.drop_last());
        match outcomes.last() {
            Ok(record) => before.push((record.offset_nanos(), record.delay_nanos(precision))),
            Err(_) => before,
        }
    }
}

/// The first `NUM_TIMINGS` of the samples, and all of them where there are
/// fewer.
pub open spec fn first_timings(samples: Seq<(int, int)>) -> Seq<(int, int)> {
    if samples.len() > NUM_TIMINGS {
        samples.take(NUM_TIMINGS as int)
    } else {
        samples
    }
}

/// Every record among the outcomes has a delay above zero: the outcomes are
/// such as `record` takes.
pub open spec fn delays_are_positive(
    precision: ClockPrecision,
    outcomes: Seq<Result<NTPTimestamps, NtpError>>,
) -> bool {
    forall|k: int|
        0 <= k < outcomes.len() ==> ((#[trigger] outcomes[k]) matches Ok(record)
            ==> record.delay_nanos(precision) > 0)
}

impl SessionState {
    /// A session before its first attempt.
    pub open spec fn start(precision: ClockPrecision) -> SessionState {
        SessionState { precision, attempts: 0, samples: Seq::empty() }
    }

    /// No session makes more than `MAX_ATTEMPTS` attempts or holds more than
    /// `NUM_TIMINGS` samples, and none holds more samples than it made
    /// attempts.
    pub open spec fn wf(self) -> bool {
        &&& self.attempts <= MAX_ATTEMPTS
        &&& self.samples.len() <= NUM_TIMINGS
        &&& self.samples.len() <= self.attempts
    }

    /// The session takes no more outcomes: the samples are complete, or the
    /// attempts are used up.
    pub open spec fn is_finished(self) -> bool {
        self.samples.len() >= NUM_TIMINGS || self.attempts >= MAX_ATTEMPTS
    }

    /// What the driver is to do next.
    pub open spec fn action(self) -> SessionAction {
        if self.is_finished() {
            SessionAction::Finish
        } else {
            SessionAction::Exchange { attempt: (self.attempts + 1) as usize }
        }
    }

    /// The session after the outcome of one more attempt. A record adds its
    /// offset and its delay to the samples; a failure adds nothing; a
    /// finished session stays as it is.
    pub open spec fn after(self, outcome: Result<NTPTimestamps, NtpError>) -> SessionState {
        if self.is_finished() {
            self
        } else {
            match outcome {
                Ok(record) => SessionState {
                    attempts: self.attempts + 1,
                    samples: self.samples.push(
                        (record.offset_nanos(), record.delay_nanos(self.precision)),
                    ),
                    ..self
                },
                Err(_) => SessionState { attempts: self.attempts + 1, ..self },
            }
        }
    }

    /// The account that is given of the attempt with this outcome: none of a
    /// record, and none once the session is finished.
    pub open spec fn account(self, outcome: Result<NTPTimestamps, NtpError>) -> Option<
        AttemptFailure,
    > {
        if self.is_finished() {
            None
        } else {
            match outcome {
                Ok(_) => None,
                Err(cause) => Some(
                    AttemptFailure { attempt: (self.attempts + 1) as usize, cause },
                ),
            }
        }
    }

    /// The session after the outcomes of a sequence of attempts, in order.
    pub open spec fn after_all(
        self,
        outcomes: Seq<Result<NTPTimestamps, NtpError>>,
    ) -> SessionState
        decreases outcomes.len(),
    {
        if outcomes.len() == 0 {
            self
        } else {
            self.after_all(outcomes.drop_last()).after(outcomes.last())
        }
    }

    /// What the session ends with: its samples where `NUM_TIMINGS` of them
    /// were gathered, and else the complaint that they were not, with their
    /// number.
    pub open spec fn verdict(self) -> Result<Seq<(int, int)>, NtpError> {
        if self.samples.len() < NUM_TIMINGS {
            Err(NtpError::InsufficientSamples(self.samples.len() as usize))
        } else {
            Ok(self.samples)
        }
    }
}

/// A session stays inside its budget whatever outcome it takes.
pub proof fn lemma_session_stays_within_budget(
    state: SessionState,
    outcome: Result<NTPTimestamps, NtpError>,
)
    requires
        state.wf(),
    ensures
        SessionState::start(state.precision).wf(),
        state.after(outcome).wf(),
        state.after(outcome).precision == state.precision,
{
}

/// Of the outcomes that a session is given from its start, it takes those
/// inside the budget of attempts until `NUM_TIMINGS` of them were records.
/// So it holds as many samples as there are records inside the budget, and
/// no more than `NUM_TIMINGS`; and while it holds fewer, every outcome
/// inside the budget counted as an attempt.
pub proof fn lemma_session_gathers(
    precision: ClockPrecision,
    outcomes: Seq<Result<NTPTimestamps, NtpError>>,
)
    ensures
        ({
            let state = SessionState::start(precision).after_all(outcomes);
            let records = successes(within_budget(outcomes));
            &&& state.wf()
            &&& state.precision == precision
            &&& state.samples.len() == if records < NUM_TIMINGS {
                records
            } else {
                NUM_TIMINGS as nat
            }
            &&& state.samples.len() < NUM_TIMINGS ==> state.attempts == within_budget(
                outcomes,
            ).len()
        }),
    decreases outcomes.len(),
{
    if outcomes.len() > 0 {
        let front = outcomes.drop_last();
        lemma_session_gathers(precision, front);
        if front.len() >= MAX_ATTEMPTS {
            assert(within_budget(outcomes) =~= within_budget(front));
        } else {
            assert(within_budget(front) == front);
            assert(within_budget(outcomes) == outcomes);
        }
    }
}

/// There is one sample to each record among the outcomes. No sample has a
/// delay below the precision of the clock, and where the delay of every
/// record is above zero, so is that of every sample.
pub proof fn lemma_samples_of(
    precision: ClockPrecision,
    outcomes: Seq<Result<NTPTimestamps, NtpError>>,
)
    ensures
        samples_of(precision, outcomes).len() == successes(outcomes),
        forall|i: int|
            0 <= i < samples_of(precision, outcomes).len() ==> (#[trigger] samples_of(
                precision,
                outcomes,
            )[i]).1 >= precision@,
        delays_are_positive(precision, outcomes) ==> forall|i: int|
            0 <= i < samples_of(precision, outcomes).len() ==> (#[trigger] samples_of(
                precision,
                outcomes,
            )[i]).1 > 0,
    decreases outcomes.len(),
{
    if outcomes.len() > 0 {
        let front = outcomes.drop_last();
        lemma_samples_of(precision, front);
        let before = samples_of(precision, front);
        let all = samples_of(precision, outcomes);
        assert forall|i: int| 0 <= i < all.len() implies (#[trigger] all[i]).1 >= precision@ by {
            if i < before.len() {
                assert(all[i] == before[i]);
            }
        }
        if delays_are_positive(precision, outcomes) {
            assert forall|k: int| 0 <= k < front.len() implies ((#[trigger] front[k]) matches Ok(
                record,
            ) ==> record.delay_nanos(precision) > 0) by {
                assert(front[k] == outcomes[k]);
            }
            assert(outcomes.last() == outcomes[outcomes.len() - 1]);
            assert forall|i: int| 0 <= i < all.len() implies (#[trigger] all[i]).1 > 0 by {
                if i < before.len() {
                    assert(all[i] == before[i]);
                }
            }
        }
    }
}

/// The samples that a session holds are those of the first `NUM_TIMINGS`
/// records inside its budget of attempts, in the order of the attempts: of
/// each its offset, and its delay held at the precision of the clock.
pub proof fn lemma_session_holds_first_records(
    precision: ClockPrecision,
    outcomes: Seq<Result<NTPTimestamps, NtpError>>,
)
    ensures
        SessionState::start(precision).after_all(outcomes).samples == first_timings(
            samples_of(precision, within_budget(outcomes)),
        ),
    decreases outcomes.len(),
{
    if outcomes.len() > 0 {
        let front = outcomes.drop_last();
        lemma_session_holds_first_records(precision, front);
        lemma_session_gathers(precision, front);
        lemma_samples_of(precision, within_budget(front));
        let before = samples_of(precision, within_budget(front));
        if front.len() >= MAX_ATTEMPTS {
            assert(within_budget(outcomes) =~= within_budget(front));
        } else {
            assert(within_budget(front) == front);
            assert(within_budget(outcomes) == outcomes);
            let all = samples_of(precision, outcomes);
            if before.len() >= NUM_TIMINGS {
                assert(first_timings(all) =~= first_timings(before));
            }
        }
    }
}

/// No sample of a session has a delay below the precision of the clock; and
/// where the delay of every record that the session is given is above zero,
/// as `record` asks, so is the delay of every sample.
pub proof fn lemma_session_delays_are_clamped(
    precision: ClockPrecision,
    outcomes: Seq<Result<NTPTimestamps, NtpError>>,
)
    ensures
        forall|i: int|
            0 <= i < SessionState::start(precision).after_all(outcomes).samples.len() ==> (
            #[trigger] SessionState::start(precision).after_all(outcomes).samples[i]).1
                >= precision@,
        delays_are_positive(precision, outcomes) ==> forall|i: int|
            0 <= i < SessionState::start(precision).after_all(outcomes).samples.len() ==> (
            #[trigger] SessionState::start(precision).after_all(outcomes).samples[i]).1 > 0,
{
    let taken = within_budget(outcomes);
    let all = samples_of(precision, taken);
    let held = SessionState::start(precision).after_all(outcomes).samples;
    lemma_session_holds_first_records(precision, outcomes);
    lemma_samples_of(precision, taken);
    assert forall|i: int| 0 <= i < held.len() implies (#[trigger] held[i]).1 >= precision@ by {
        assert(held[i] == all[i]);
    }
    if delays_are_positive(precision, outcomes) {
        assert forall|k: int| 0 <= k < taken.len() implies ((#[trigger] taken[k]) matches Ok(
            record,
        ) ==> record.delay_nanos(precision) > 0) by {
            assert(taken[k] == outcomes[k]);
        }
        assert forall|i: int| 0 <= i < held.len() implies (#[trigger] held[i]).1 > 0 by {
            assert(held[i] == all[i]);
        }
    }
}

/// A session that is given the outcomes of its whole budget of attempts, of
/// which fewer than `NUM_TIMINGS` are records, ends with the complaint that
/// the samples are insufficient, and with the number of those records.
pub proof fn lemma_few_records_are_insufficient(
    precision: ClockPrecision,
    outcomes: Seq<Result<NTPTimestamps, NtpError>>,
)
    requires
        outcomes.len() >= MAX_ATTEMPTS,
        successes(within_budget(outcomes)) < NUM_TIMINGS,
    ensures
        SessionState::start(precision).after_all(outcomes).is_finished(),
        SessionState::start(precision).after_all(outcomes).verdict() == Err::<
            Seq<(int, int)>,
            NtpError,
        >(NtpError::InsufficientSamples(successes(within_budget(outcomes)) as usize)),
{
    lemma_session_gathers(precision, outcomes);
}

/// A session that is given at least `NUM_TIMINGS` records inside its budget
/// of attempts ends with exactly `NUM_TIMINGS` samples.
pub proof fn lemma_enough_records_complete(
    precision: ClockPrecision,
    outcomes: Seq<Result<NTPTimestamps, NtpError>>,
)
    requires
        successes(within_budget(outcomes)) >= NUM_TIMINGS,
    ensures
        SessionState::start(precision).after_all(outcomes).is_finished(),
        SessionState::start(precision).after_all(outcomes).verdict() matches Ok(samples)
            && samples.len() == NUM_TIMINGS,
{
    lemma_session_gathers(precision, outcomes);
}

/// A session in progress.
#[derive(Debug)]
pub struct SamplingSession {
    precision: ClockPrecision,
    attempts: usize,
    results: NTPResults,
}

impl View for SamplingSession {
    type V = SessionState;

    closed spec fn view(&self) -> SessionState {
        SessionState {
            precision: self.precision,
            attempts: self.attempts as nat,
            samples: self.results@,
        }
    }
}

impl SamplingSession {
    #[verifier::type_invariant]
    spec fn inside_budget(self) -> bool {
        self@.wf()
    }

    /// A session before its first attempt, for a clock of this precision.
    pub fn new(precision: ClockPrecision) -> (session: SamplingSession)
        ensures
            session@ == SessionState::start(precision),
    {
        SamplingSession { precision, attempts: 0, results: NTPResults::new() }
    }

    /// The number of attempts made so far.
    pub fn attempts(&self) -> (attempts: usize)
        ensures
            attempts == self@.attempts,
            self@.wf(),
    {
        proof {
            use_type_invariant(self);
        }
        self.attempts
    }

    /// The number of samples gathered so far.
    pub fn successes(&self) -> (successes: usize)
        ensures
            successes == self@.samples.len(),
            self@.wf(),
    {
        proof {
            use_type_invariant(self);
        }
        self.results.len()
    }

    /// What to do next: another exchange while fewer than `NUM_TIMINGS`
    /// samples are there and fewer than `MAX_ATTEMPTS` attempts were made.
    pub fn next_action(&self) -> (action: SessionAction)
        ensures
            action == self@.action(),
    {
        proof {
            use_type_invariant(self);
        }
        if self.results.len() >= NUM_TIMINGS || self.attempts >= MAX_ATTEMPTS {
            SessionAction::Finish
        } else {
            SessionAction::Exchange { attempt: self.attempts + 1 }
        }
    }

    /// Takes the outcome of one attempt.
    ///
    /// A record adds its offset and its delay to the samples. A failure adds
    /// nothing and comes back as the account of the attempt, so that no
    /// attempt is dropped unseen; the session goes on after it. Once the
    /// session is finished an outcome changes nothing.
    ///
    /// A record whose delay does not come out above zero is a defect of the
    /// measurement and is not taken: test it with `checked_delay` first.
    pub fn record(&mut self, outcome: Result<NTPTimestamps, NtpError>) -> (failure: Option<
        AttemptFailure,
    >)
        requires
            outcome matches Ok(record) ==> record.delay_nanos(old(self)@.precision) > 0,
        ensures
            final(self)@ == old(self)@.after(outcome),
            failure == old(self)@.account(outcome),
    {
        proof {
            use_type_invariant(&*self);
        }
        if self.results.len() >= NUM_TIMINGS || self.attempts >= MAX_ATTEMPTS {
            return None;
        }
        self.attempts += 1;
        match outcome {
            Ok(record) => {
                let offset = record.offset();
                let delay = record.delay(self.precision);
                let mut results = NTPResults::new();
                std::mem::swap(&mut results, &mut self.results);
                results.push(offset, delay);
                self.results = results;
                None
            },
            Err(cause) => Some(AttemptFailure { attempt: self.attempts, cause }),
        }
    }

    /// Ends the session: the samples where `NUM_TIMINGS` of them were
    /// gathered, and else the complaint that they were not, with their number.
    pub fn finish(self) -> (outcome: Result<NTPResults, NtpError>)
        ensures
            match outcome {
                Ok(results) => self@.verdict() == Ok::<Seq<(int, int)>, NtpError>(results@),
                Err(complaint) => self@.verdict() == Err::<Seq<(int, int)>, NtpError>(complaint),
            },
    {
        if self.results.len() < NUM_TIMINGS {
            Err(NtpError::InsufficientSamples(self.results.len()))
        } else {
            Ok(self.results)
        }
    }
}

} // verus!
