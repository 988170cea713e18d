//! A repeating frame clock over whole nanoseconds.

use vstd::prelude::*;

verus! {

/// What a [`FrameClock`] stands for: a period and the time accumulated
/// towards it, both in nanoseconds.
pub struct ClockState {
    pub period: nat,
    pub elapsed: nat,
}

impl ClockState {
    /// Whether advancing by `delta` crosses the fire threshold.
    pub open spec fn fires(self, delta: nat) -> bool {
        self.elapsed + delta >= self.period
    }

    /// The clock after advancing by `delta`. A clock that fires wraps
    /// around, keeping what is left over of a single period or of many:
    /// however far the time overshoots, one advance is one fire.
    pub open spec fn advanced(self, delta: nat) -> ClockState {
        ClockState {
            period: self.period,
            elapsed: if !self.fires(delta) {
                self.elapsed + delta
            } else if self.period == 0 {
                0
            } else {
                (((self.elapsed + delta) as int) % (self.period as int)) as nat
            },
        }
    }

    /// The clock with its elapsed time moved up to the period, so that the
    /// next advance fires whatever its delta.
    pub open spec fn reset_to_period(self) -> ClockState {
        ClockState { period: self.period, elapsed: self.period }
    }

    /// Elapsed time never runs past the period.
    pub open spec fn within_period(self) -> bool {
        self.elapsed <= self.period
    }
}

/// A repeating timer: time accumulates until it reaches the period, at which
/// point the clock fires and wraps around.
///
/// The elapsed time never exceeds the period. It equals the period only
/// after [`FrameClock::reset_to_period`] (or on a clock of period zero,
/// which fires on every advance).
#[derive(Debug)]
pub struct FrameClock {
    period: u64,
    elapsed: u64,
}

impl View for FrameClock {
    type V = ClockState;

    closed spec fn view(&self) -> ClockState {
        ClockState { period: self.period as nat, elapsed: self.elapsed as nat }
    }
}

impl Clone for FrameClock {
    fn clone(&self) -> (clock: FrameClock)
        ensures
            clock@ == self@,
    {
        proof {
            use_type_invariant(self);
        }
        FrameClock { period: self.period, elapsed: self.elapsed }
    }
}

impl FrameClock {
    #[verifier::type_invariant]
    spec fn inv(self) -> bool {
        self.elapsed <= self.period
    }

    /// A clock of the given period with no time elapsed.
    pub fn new(period: u64) -> (clock: FrameClock)
        ensures
            clock@ == (ClockState { period: period as nat, elapsed: 0 }),
    {
        FrameClock { period, elapsed: 0 }
    }

    /// A clock of the given period that has already accumulated `elapsed`,
    /// or `None` where `elapsed` runs past the period.
    pub fn with_elapsed(period: u64, elapsed: u64) -> (clock: Option<FrameClock>)
        ensures
            elapsed <= period ==> clock.is_some() && clock.unwrap()@ == (ClockState {
                period: period as nat,
                elapsed: elapsed as nat,
            }),
            elapsed > period ==> clock.is_none(),
    {
        if elapsed <= period {
            Some(FrameClock { period, elapsed })
        } else {
            None
        }
    }

    pub fn period(&self) -> (period: u64)
        ensures
            period == self@.period,
    {
        self.period
    }

    pub fn elapsed(&self) -> (elapsed: u64)
        ensures
            elapsed == self@.elapsed,
            self@.within_period(),
    {
        proof {
            use_type_invariant(self);
        }
        self.elapsed
    }

    /// Adds `delta` to the elapsed time and reports whether the clock fired.
    pub fn advance(&mut self, delta: u64) -> (fired: bool)
        ensures
            fired == old(self)@.fires(delta as nat),
            final(self)@ == old(self)@.advanced(delta as nat),
    {
        proof {
            use_type_invariant(&*self);
        }
        let remaining: u64 = self.period - self.elapsed;
        if delta < remaining {
            self.elapsed = self.elapsed + delta;
            false
        } else if self.period == 0 {
            true
        } else {
            let over: u64 = delta - remaining;
            proof {
                lemma_wrap(self.period as int, self.elapsed as int, delta as int);
            }
            self.elapsed = over % self.period;
            true
        }
    }

    /// Moves the elapsed time up to the period: the next advance fires.
    pub fn reset_to_period(&mut self)
        ensures
            final(self)@ == old(self)@.reset_to_period(),
    {
        self.elapsed = self.period;
    }

}

/// Taking one period off before reducing modulo the period changes nothing.
proof fn lemma_wrap(period: int, elapsed: int, delta: int)
    requires
        0 < period,
        0 <= elapsed <= period,
        delta >= period - elapsed,
    ensures
        (elapsed + delta) % period == (delta - (period - elapsed)) % period,
{
    vstd::arithmetic::div_mod::lemma_mod_sub_multiples_vanish(elapsed + delta, period);
}

/// A fired clock of non-zero period has wrapped to strictly inside it.
pub proof fn lemma_advanced_within_period(clock: ClockState, delta: nat)
    requires
        clock.within_period(),
    ensures
        clock.advanced(delta).within_period(),
        clock.fires(delta) && clock.period > 0 ==> clock.advanced(delta).elapsed < clock.period,
{
    if clock.fires(delta) && clock.period > 0 {
        vstd::arithmetic::div_mod::lemma_mod_bound(
            (clock.elapsed + delta) as int,
            clock.period as int,
        );
    }
}

} // verus!
