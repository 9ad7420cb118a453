//! The precision of the local clock: the least step that two consecutive
//! readings of it were seen to differ by.

use crate::time::Instant;
use chrono::DateTime;
use std::time::{SystemTime, UNIX_EPOCH};
use vstd::prelude::*;

verus! {

/// The precision that stands where no pair of readings shows a step that is
/// not negative: 100 seconds.
pub const COARSEST_NANOS: u64 = 100_000_000_000;

/// How many pairs of readings `clock_precision` takes.
pub const READING_PAIRS: usize = 7;

/// The precision of the local clock. Its view is the precision in
/// nanoseconds, never negative.
#[derive(Clone, Copy, Debug, PartialEq, Eq, Structural, PartialOrd, Ord, Hash)]
pub struct ClockPrecision {
    pub nanos: u64,
}

impl View for ClockPrecision {
    type V = int;

    open spec fn view(&self) -> int {
        self.nanos as int
    }
}

/// The nanoseconds of a precision that may not be there yet.
pub open spec fn nanos_of(precision: Option<ClockPrecision>) -> Option<int> {
    match precision {
        Some(precision) => Some(precision@),
        None => None,
    }
}

/// The least step after one more pair of readings that differ by `step`
/// nanoseconds. A negative step, of a clock that went backwards, is left
/// out; any other step is taken where it is the first or below the least so
/// far.
pub open spec fn refined(least: Option<int>, step: int) -> Option<int> {
    if step < 0 {
        least
    } else {
        match least {
            Some(so_far) => Some(
                if step < so_far {
                    step
                } else {
                    so_far
                },
            ),
            None => Some(step),
        }
    }
}

/// The least step that is not negative in a sequence of pairs of consecutive
/// readings, and `None` where there is no such step.
pub open spec fn least_step(readings: Seq<(Instant, Instant)>) -> Option<int>
    decreases readings.len(),
{
    if readings.len() == 0 {
        None
    } else {
        refined(least_step(readings.drop_last()), readings.last().1@ - readings.last().0@)
    }
}

/// The precision that a sequence of pairs of consecutive readings shows:
/// the least step among them that is not negative, whatever its size, and
/// 100 seconds where there is none.
pub open spec fn precision_of(readings: Seq<(Instant, Instant)>) -> int {
    match least_step(readings) {
        Some(step) => step,
        None => COARSEST_NANOS as int,
    }
}

/// The least step of a sequence of readings is one of its steps, is not
/// negative, and is no more than any of its steps that is not negative; and
/// there is one exactly where some step is not negative.
pub proof fn lemma_least_step(readings: Seq<(Instant, Instant)>)
    ensures
        least_step(readings) is None <==> forall|i: int|
            0 <= i < readings.len() ==> (#[trigger] readings[i]).1@ < readings[i].0@,
        least_step(readings) matches Some(least) ==> {
            &&& 0 <= least <= u64::MAX
            &&& forall|i: int|
                0 <= i < readings.len() && readings[i].1@ >= readings[i].0@ ==> least <= (
                #[trigger] readings[i]).1@ - readings[i].0@
            &&& exists|i: int|
                0 <= i < readings.len() && least == (#[trigger] readings[i]).1@ - readings[i].0@
        },
    decreases readings.len(),
{
    if readings.len() > 0 {
        let front = readings.drop_last();
        let last = readings.len() - 1;
        lemma_least_step(front);
        assert(readings.last() == readings[last]);
        assert forall|i: int| 0 <= i < front.len() implies front[i] == readings[i] by {}
        match least_step(readings) {
            None => {
                assert forall|i: int| 0 <= i < readings.len() implies (#[trigger] readings[i]).1@
                    < readings[i].0@ by {
                    if i < front.len() {
                        assert(front[i] == readings[i]);
                    }
                }
            },
            Some(least) => {
                assert(readings[last].1@ >= readings[last].0@ || least_step(front) is Some);
                assert forall|i: int|
                    0 <= i < readings.len() && readings[i].1@ >= readings[i].0@ implies least <= (
                #[trigger] readings[i]).1@ - readings[i].0@ by {
                    if i < front.len() {
                        assert(front[i] == readings[i]);
                    }
                }
                if least == readings[last].1@ - readings[last].0@ {
                } else {
                    let before = least_step(front).unwrap();
                    let i = choose|i: int|
                        0 <= i < front.len() && before == (#[trigger] front[i]).1@ - front[i].0@;
                    assert(front[i] == readings[i]);
                    assert(least == readings[i].1@ - readings[i].0@);
                }
            },
        }
    }
}

impl ClockPrecision {
    pub fn from_nanos(nanos: u64) -> (precision: ClockPrecision)
        ensures
            precision@ == nanos,
    {
        ClockPrecision { nanos }
    }

    /// The precision that stands where no step was seen.
    pub fn coarsest() -> (precision: ClockPrecision)
        ensures
            precision@ == COARSEST_NANOS,
    {
        ClockPrecision { nanos: COARSEST_NANOS }
    }

    /// The least step after one more pair of consecutive readings: `least`
    /// is the least step of the pairs before it, and `None` where there was
    /// none yet.
    pub fn observe(least: Option<ClockPrecision>, first: Instant, second: Instant) -> (refined:
        Option<ClockPrecision>)
        ensures
            nanos_of(refined) == crate::precision::refined(nanos_of(least), second@ - first@),
    {
        let step: i128 = second.unix_nanos as i128 - first.unix_nanos as i128;
        if step < 0 {
            return least;
        }
        match least {
            Some(so_far) => {
                if step < so_far.nanos as i128 {
                    Some(ClockPrecision { nanos: step as u64 })
                } else {
                    Some(so_far)
                }
            },
            None => Some(ClockPrecision { nanos: step as u64 }),
        }
    }

    /// The precision that pairs of consecutive readings show: the least step
    /// among them that is not negative, and 100 seconds where there is none.
    pub fn from_readings(readings: &[(Instant, Instant)]) -> (precision: ClockPrecision)
        ensures
            precision@ == precision_of(readings@),
    {
        let mut least: Option<ClockPrecision> = None;
        let mut i: usize = 0;
        assert(readings@.take(0) =~= Seq::empty());
        while i < readings.len()
            invariant
                i <= readings.len(),
                nanos_of(least) == least_step(readings@.take(i as int)),
            decreases readings.len() - i,
        {
            assert(readings@.take(i + 1).drop_last() =~= readings@.take(i as int));
            assert(readings@.take(i + 1).last() == readings@[i as int]);
            least = ClockPrecision::observe(least, readings[i].0, readings[i].1);
            i += 1;
        }
        assert(readings@.take(i as int) =~= readings@);
        match least {
            Some(precision) => precision,
            None => ClockPrecision::coarsest(),
        }
    }
}

/// Reads the system clock as nanoseconds since the Unix epoch, by the calls
/// that `chrono::Utc::now` makes, with every failure given back as `None` in
/// place of a panic: `SystemTime::now` and `SystemTime::duration_since` of
/// std, then `chrono::DateTime::from_timestamp` and
/// `DateTime::timestamp_nanos_opt`. `None` stands for a clock before 1970 and
/// for a date that 64 bits of nanoseconds cannot hold. Nothing is claimed of
/// the reading.
#[verifier::external_body]
fn system_clock_nanos() -> Option<i64> {
    let since_epoch = SystemTime::now().duration_since(UNIX_EPOCH).ok()?;
    let seconds = i64::try_from(since_epoch.as_secs()).ok()?;
    DateTime::from_timestamp(seconds, since_epoch.subsec_nanos())?.timestamp_nanos_opt()
}

/// Measures the precision of the system clock: reads the clock twice in
/// immediate succession, seven times over, and gives the least step that is
/// not negative. A pair with a reading that is not to be had is passed over.
///
/// Whatever the clock reads, the result is the precision of at most seven
/// pairs of readings; which it is for given readings is said by
/// `ClockPrecision::from_readings`.
pub fn clock_precision() -> (precision: ClockPrecision)
    ensures
        exists|readings: Seq<(Instant, Instant)>|
            readings.len() <= READING_PAIRS && precision@ == #[trigger] precision_of(readings),
{
    let mut readings: Vec<(Instant, Instant)> = Vec::new();
    let mut round: usize = 0;
    while round < READING_PAIRS
        invariant
            readings@.len() <= round <= READING_PAIRS,
        decreases READING_PAIRS - round,
    {
        let first = system_clock_nanos();
        let second = system_clock_nanos();
        match (first, second) {
            (Some(t1), Some(t2)) => {
                readings.push((Instant::from_unix_nanos(t1), Instant::from_unix_nanos(t2)));
            },
            _ => {},
        }
        round += 1;
    }
    ClockPrecision::from_readings(readings.as_slice())
}

} // verus!
