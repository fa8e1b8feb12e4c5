//! The weight schedule of a pooled asset: its weight drifts linearly from a
//! start value to an end value over the pool's time window.

use crate::fixed_point::{FixedFloat, INTEGER_LIMIT, ONE_BITS};
use vstd::arithmetic::div_mod::{lemma_div_is_ordered, lemma_fundamental_div_mod};
use vstd::prelude::*;

verus! {

/// The start and end weight of one asset and the window over which the
/// weight moves from the one to the other. Times are Unix seconds.
#[derive(Clone, Copy, Debug, PartialEq, Eq, Structural)]
pub struct WeightSchedule {
    pub start_weight: u128,
    pub end_weight: u128,
    pub start_time: u64,
    pub end_time: u64,
}

/// The part of the window that has passed at `now`, as the scaled integer of
/// a fixed-point number rounded down, for `start_time < now < end_time`.
pub open spec fn progress_bits(start_time: u64, end_time: u64, now: u64) -> int {
    (now - start_time) * ONE_BITS / (end_time - start_time)
}

impl WeightSchedule {
    /// Both weights are positive and have a fixed-point representation, and
    /// the window is not empty.
    pub open spec fn wf(&self) -> bool {
        &&& 0 < self.start_weight < INTEGER_LIMIT
        &&& 0 < self.end_weight < INTEGER_LIMIT
        &&& self.start_time < self.end_time
    }

    /// The scaled integer of the weight at `now`: that of the start weight
    /// until the window opens, that of the end weight once it has closed,
    /// and in between that of `start_weight + (end_weight - start_weight) *
    /// (now - start_time) / (end_time - start_time)`, with the passed part of
    /// the window rounded down to a multiple of `2^-64`.
    pub open spec fn weight_bits_at(&self, now: u64) -> int {
        if now <= self.start_time {
            self.start_weight * ONE_BITS
        } else if now >= self.end_time {
            self.end_weight * ONE_BITS
        } else {
            self.start_weight * ONE_BITS + (self.end_weight - self.start_weight) * progress_bits(
                self.start_time,
                self.end_time,
                now,
            )
        }
    }

    /// The weight at `now`.
    pub open spec fn weight_at(&self, now: u64) -> FixedFloat {
        FixedFloat { bits: self.weight_bits_at(now) as i128 }
    }

    /// Inside the window the passed part lies between zero and one and grows
    /// with time.
    pub proof fn lemma_progress(&self, earlier: u64, later: u64)
        requires
            self.wf(),
            self.start_time < earlier <= later < self.end_time,
        ensures
            0 <= progress_bits(self.start_time, self.end_time, earlier) <= progress_bits(
                self.start_time,
                self.end_time,
                later,
            ) <= ONE_BITS,
    {
        let one = ONE_BITS as int;
        let length = self.end_time - self.start_time;
        let a = (earlier - self.start_time) * one;
        let b = (later - self.start_time) * one;
        lemma_div_is_ordered(a, b, length);
        lemma_div_is_ordered(0, a, length);
        lemma_div_is_ordered(b, length * one, length);
        lemma_fundamental_div_mod(length * one, length);
        assert(length * one / length == one) by (nonlinear_arith)
            requires
                length > 0,
        ;
    }

    /// At every time the weight lies between the start weight and the end
    /// weight, so it is at least one and has a fixed-point representation.
    pub proof fn lemma_weight_bounds(&self, now: u64)
        requires
            self.wf(),
        ensures
            self.start_weight <= self.end_weight ==> self.start_weight * ONE_BITS
                <= self.weight_bits_at(now) <= self.end_weight * ONE_BITS,
            self.start_weight >= self.end_weight ==> self.end_weight * ONE_BITS
                <= self.weight_bits_at(now) <= self.start_weight * ONE_BITS,
            ONE_BITS <= self.weight_bits_at(now) < INTEGER_LIMIT * ONE_BITS,
            self.weight_at(now).bits == self.weight_bits_at(now),
    {
        if self.start_time < now < self.end_time {
            self.lemma_progress(now, now);
            let progress = progress_bits(self.start_time, self.end_time, now);
            let delta = self.end_weight - self.start_weight;
            let one = ONE_BITS as int;
            assert(delta >= 0 ==> 0 <= delta * progress <= delta * one) by (nonlinear_arith)
                requires
                    0 <= progress <= one,
            ;
            assert(delta <= 0 ==> delta * one <= delta * progress <= 0) by (nonlinear_arith)
                requires
                    0 <= progress <= one,
            ;
        }
    }

    /// The weight never moves against the direction from the start weight to
    /// the end weight: it does not fall where the end weight is the larger,
    /// and does not rise where it is the smaller.
    pub proof fn lemma_weight_monotonic(&self, earlier: u64, later: u64)
        requires
            self.wf(),
            earlier <= later,
        ensures
            self.start_weight <= self.end_weight ==> self.weight_at(earlier).bits
                <= self.weight_at(later).bits,
            self.start_weight >= self.end_weight ==> self.weight_at(earlier).bits
                >= self.weight_at(later).bits,
    {
        self.lemma_weight_bounds(earlier);
        self.lemma_weight_bounds(later);
        if self.start_time < earlier && later < self.end_time {
            self.lemma_progress(earlier, later);
            let p = progress_bits(self.start_time, self.end_time, earlier);
            let q = progress_bits(self.start_time, self.end_time, later);
            let delta = self.end_weight - self.start_weight;
            assert(delta >= 0 ==> delta * p <= delta * q) by (nonlinear_arith)
                requires
                    p <= q,
            ;
            assert(delta <= 0 ==> delta * p >= delta * q) by (nonlinear_arith)
                requires
                    p <= q,
            ;
        }
    }

    /// Whether the schedule is well formed.
    pub fn is_well_formed(&self) -> (r: bool)
        ensures
            r == self.wf(),
    {
        0 < self.start_weight && self.start_weight < INTEGER_LIMIT && 0 < self.end_weight
            && self.end_weight < INTEGER_LIMIT && self.start_time < self.end_time
    }

    /// The weight of the asset at `now`.
    pub fn current_weight(&self, now: u64) -> (weight: FixedFloat)
        requires
            self.wf(),
        ensures
            weight == self.weight_at(now),
            now <= self.start_time ==> weight.bits == self.start_weight * ONE_BITS,
            now >= self.end_time ==> weight.bits == self.end_weight * ONE_BITS,
            weight.bits >= ONE_BITS,
    {
        proof {
            self.lemma_weight_bounds(now);
        }
        let one: u128 = ONE_BITS as u128;
        if now <= self.start_time {
            FixedFloat { bits: (self.start_weight * one) as i128 }
        } else if now >= self.end_time {
            FixedFloat { bits: (self.end_weight * one) as i128 }
        } else {
            proof {
                self.lemma_progress(now, now);
            }
            let elapsed: u128 = (now - self.start_time) as u128;
            let length: u128 = (self.end_time - self.start_time) as u128;
            let progress: u128 = elapsed * one / length;
            let start: u128 = self.start_weight * one;
            if self.end_weight >= self.start_weight {
                let delta: u128 = self.end_weight - self.start_weight;
                assert(delta * progress <= delta * one) by (nonlinear_arith)
                    requires
                        progress <= one,
                ;
                FixedFloat { bits: (start + delta * progress) as i128 }
            } else {
                let delta: u128 = self.start_weight - self.end_weight;
                assert(delta * progress <= delta * one) by (nonlinear_arith)
                    requires
                        progress <= one,
                ;
                assert((self.end_weight - self.start_weight) * progress == -(delta * progress))
                    by (nonlinear_arith)
                    requires
                        delta == self.start_weight - self.end_weight,
                ;
                FixedFloat { bits: (start - delta * progress) as i128 }
            }
        }
    }
}

} // verus!
