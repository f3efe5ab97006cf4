use std::time::Duration;
use std::time::Instant;
use vstd::prelude::*;

verus! {

/// `std::time::Instant`, a point on the monotonic clock. Nothing is known of
/// a value of it.
#[verifier::external_type_specification]
#[verifier::external_body]
pub struct ExInstant(Instant);

/// `Instant::now` reads the monotonic clock. Nothing is claimed of the
/// reading.
pub assume_specification[ Instant::now ]() -> (now: Instant);

/// `Instant::elapsed` measures the time since the instant was taken. Nothing
/// is claimed of the duration.
pub assume_specification[ Instant::elapsed ](at: &Instant) -> (since: Duration);

/// `Duration::as_millis` gives a duration in whole milliseconds. Nothing is
/// claimed of the number.
pub assume_specification[ Duration::as_millis ](duration: &Duration) -> (millis: u128);

/// Timer ticks per second of real time.
pub const TICKS_PER_SECOND: u128 = 60;

/// What a timer holds: the value it was last armed with, and whether it has
/// been armed at all.
pub struct TimerModel {
    pub value: u8,
    pub armed: bool,
}

impl TimerModel {
    /// Whole ticks in `millis` milliseconds.
    pub open spec fn ticks(millis: int) -> int {
        millis * TICKS_PER_SECOND / 1000
    }

    /// What the timer reads `millis` milliseconds after it was armed: the
    /// stored value less the ticks gone by, never below zero. A timer that
    /// was never armed reads zero.
    pub open spec fn remaining(self, millis: int) -> int {
        if !self.armed || Self::ticks(millis) >= self.value {
            0
        } else {
            self.value - Self::ticks(millis)
        }
    }

    /// The readings that a timer can give, whatever time has gone by.
    pub open spec fn may_read(self, reading: u8) -> bool {
        exists|millis: u128| reading == #[trigger] self.remaining(millis as int)
    }
}

/// A timer never reads more later than it did earlier, and reads zero from
/// the moment as many ticks have gone by as it was armed with.
pub proof fn law_timer_decays(timer: TimerModel, earlier: int, later: int)
    requires
        0 <= earlier <= later,
    ensures
        0 <= timer.remaining(later) <= timer.remaining(earlier) <= timer.value,
        TimerModel::ticks(earlier) >= timer.value ==> timer.remaining(later) == 0,
{
}

/// A timer reads zero once a sixtieth of a second has gone by for each unit
/// it was armed with: armed with 60, from one second on.
pub proof fn law_timer_runs_out(timer: TimerModel, millis: int)
    requires
        millis * TICKS_PER_SECOND >= timer.value * 1000,
    ensures
        timer.remaining(millis) == 0,
{
}

/// The readings of an armed timer are the numbers up to its stored value,
/// each of them reached at some time; an unarmed timer only reads zero.
pub proof fn law_timer_readings(timer: TimerModel, reading: u8)
    ensures
        timer.may_read(reading) <==> if timer.armed {
            reading <= timer.value
        } else {
            reading == 0
        },
{
    if timer.armed && reading <= timer.value {
        let gone = timer.value - reading;
        let millis = ((50 * gone + 2) / 3) as u128;
        assert(TimerModel::ticks(millis as int) == gone);
        assert(reading == timer.remaining(millis as int));
    }
    if !timer.armed && reading == 0 {
        assert(reading == timer.remaining(0u128 as int));
    }
}

/// A countdown timer that decays with real time. It keeps the value it was
/// armed with and when that was; the current value is worked out on reading.
#[derive(Debug)]
pub struct Timer {
    value: u8,
    armed_at: Option<Instant>,
}

impl View for Timer {
    type V = TimerModel;

    closed spec fn view(&self) -> TimerModel {
        TimerModel { value: self.value, armed: self.armed_at is Some }
    }
}

impl Timer {
    /// A timer that has never been armed.
    pub fn new() -> (timer: Timer)
        ensures
            timer@ == (TimerModel { value: 0, armed: false }),
    {
        Timer { value: 0, armed_at: None }
    }

    /// Arms the timer with `value`, counting from now.
    pub fn arm(&mut self, value: u8)
        ensures
            final(self)@ == (TimerModel { value, armed: true }),
    {
        self.value = value;
        self.armed_at = Some(Instant::now());
    }

    /// The value the timer was last armed with.
    pub fn stored(&self) -> (value: u8)
        ensures
            value == self@.value,
    {
        self.value
    }

    /// Whether the timer has been armed.
    pub fn is_armed(&self) -> (armed: bool)
        ensures
            armed == self@.armed,
    {
        self.armed_at.is_some()
    }

    /// What the timer reads once `elapsed_millis` milliseconds have gone by
    /// since it was armed.
    pub fn remaining_after(&self, elapsed_millis: u128) -> (reading: u8)
        ensures
            reading == self@.remaining(elapsed_millis as int),
    {
        if self.armed_at.is_none() || elapsed_millis >= 5000 {
            return 0;
        }
        let ticks: u128 = elapsed_millis * TICKS_PER_SECOND / 1000;
        if ticks >= self.value as u128 {
            0
        } else {
            self.value - ticks as u8
        }
    }

    /// The milliseconds gone by since the timer was armed, by the clock; zero
    /// for a timer that was never armed. Of an armed timer's reading of the
    /// clock nothing is known.
    pub fn elapsed_millis(&self) -> (millis: u128)
        ensures
            !self@.armed ==> millis == 0,
    {
        match &self.armed_at {
            Some(at) => at.elapsed().as_millis(),
            None => 0,
        }
    }

    /// The timer's current value. It depends on the clock, so all that is
    /// known is that it is the value remaining after some elapsed time: at
    /// most the stored value, and zero for a timer that was never armed.
    pub fn read(&self) -> (reading: u8)
        ensures
            self@.may_read(reading),
            reading <= self@.value,
            !self@.armed ==> reading == 0,
    {
        let elapsed_millis: u128 = self.elapsed_millis();
        self.remaining_after(elapsed_millis)
    }
}

} // verus!
