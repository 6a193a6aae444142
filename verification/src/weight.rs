//! Priority weights for installed filter descriptors.

use vstd::prelude::*;

verus! {

/// Weight the counter starts from.
pub const INITIAL_WEIGHT: u64 = 1000;

/// Step taken for a rule that carries a remote-address spec.
pub const REMOTE_ADDRESS_STEP: u64 = 10;

/// Step taken for every other rule.
pub const PLAIN_STEP: u64 = 1;

/// The step by which one installation raises the counter.
pub open spec fn weight_step(has_remote_address: bool) -> int {
    if has_remote_address {
        REMOTE_ADDRESS_STEP as int
    } else {
        PLAIN_STEP as int
    }
}

/// A monotonically increasing source of filter weights.
///
/// The counter is an ordinary value handed to whoever installs filters, so
/// two installers that must not share weights share one counter.
#[derive(Clone, Copy, Debug, PartialEq, Eq, Structural)]
pub struct WeightCounter {
    pub value: u64,
}

impl WeightCounter {
    /// A counter at its starting weight.
    pub fn new() -> (counter: WeightCounter)
        ensures
            counter.value == INITIAL_WEIGHT,
    {
        WeightCounter { value: INITIAL_WEIGHT }
    }

    /// A counter that continues from `value`.
    pub fn starting_at(value: u64) -> (counter: WeightCounter)
        ensures
            counter.value == value,
    {
        WeightCounter { value }
    }

    /// The weight handed out last (or the starting weight).
    pub fn current(&self) -> (value: u64)
        ensures
            value == self.value,
    {
        self.value
    }

    /// Advances the counter by the step of the rule's shape and returns the
    /// new value as the weight of the descriptor being installed.
    ///
    /// `None` is returned, and the counter left alone, only when the step
    /// would leave the range of `u64`.
    pub fn next_weight(&mut self, has_remote_address: bool) -> (weight: Option<u64>)
        ensures
            old(self).value + weight_step(has_remote_address) <= u64::MAX ==> weight == Some(
                (old(self).value + weight_step(has_remote_address)) as u64,
            ) && final(self).value == old(self).value + weight_step(has_remote_address),
            old(self).value + weight_step(has_remote_address) > u64::MAX ==> weight.is_none()
                && final(self).value == old(self).value,
    {
        let step: u64 = if has_remote_address {
            REMOTE_ADDRESS_STEP
        } else {
            PLAIN_STEP
        };
        match self.value.checked_add(step) {
            Some(next) => {
                self.value = next;
                Some(next)
            },
            None => None,
        }
    }
}

/// Successive weights strictly increase: a weight handed out is greater than
/// the counter was before the call, by exactly ten for a rule with a
/// remote-address spec and by exactly one otherwise.
pub proof fn lemma_weights_strictly_increase(before: u64, has_remote_address: bool)
    ensures
        before + weight_step(has_remote_address) > before,
        has_remote_address ==> weight_step(has_remote_address) == 10,
        !has_remote_address ==> weight_step(has_remote_address) == 1,
{
}

} // verus!
