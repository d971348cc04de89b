//! Sharing a resource between tasks of different priority without a lock:
//! for the time of an access the running task raises its priority threshold
//! to the ceiling of the resource, so that no other task that uses the
//! resource can interrupt it.
//!
//! A task interrupts the running one exactly if its priority is above the
//! running one's threshold. A higher number is a higher priority.

use vstd::prelude::*;

verus! {

/// One above the highest priority a threshold can take.
pub const LEVELS: u8 = 16;

/// Priority of the task that transmits the queued readings.
pub const TRANSMIT_PRIORITY: u8 = 0;

/// Priority of the task that sends the status messages.
pub const STATUS_PRIORITY: u8 = 1;

/// Priority of the edge-capture interrupt.
pub const CAPTURE_PRIORITY: u8 = 3;

/// Ceiling of the transmitter: the highest priority among the tasks that
/// write to it.
pub const TRANSMITTER_CEILING: u8 = 1;

/// Whether a task of priority `priority` interrupts a task that runs with
/// the threshold `threshold`.
pub open spec fn preempts(priority: u8, threshold: u8) -> bool {
    priority > threshold
}

/// The threshold that a claim of a resource with this ceiling leads to.
pub open spec fn raised(threshold: u8, ceiling: u8) -> u8 {
    if threshold < ceiling {
        ceiling
    } else {
        threshold
    }
}

/// The value of the base-priority mask register that enforces
/// `threshold`: zero masks nothing, and a smaller value other than zero
/// masks more.
pub open spec fn mask_of(threshold: u8) -> u8 {
    if threshold == 0 {
        0
    } else {
        ((LEVELS - threshold) * 16) as u8
    }
}

/// The priority threshold of the running task.
pub struct Threshold {
    value: u8,
}

impl View for Threshold {
    type V = u8;

    /// The priority up to which other tasks are held off.
    closed spec fn view(&self) -> u8 {
        self.value
    }
}

/// An access in progress: what the threshold was before it began.
pub struct Claim {
    before: u8,
}

impl View for Claim {
    type V = u8;

    /// The threshold to go back to when the access ends.
    closed spec fn view(&self) -> u8 {
        self.before
    }
}

impl Claim {
    /// The threshold to go back to is one that a task can have.
    #[verifier::type_invariant]
    pub open spec fn wf(&self) -> bool {
        self@ < LEVELS
    }
}

impl Threshold {
    /// A threshold stays below the number of levels.
    #[verifier::type_invariant]
    pub open spec fn wf(&self) -> bool {
        self@ < LEVELS
    }

    /// The threshold of a task that has just started at `priority`.
    pub fn new(priority: u8) -> (threshold: Self)
        requires
            priority < LEVELS,
        ensures
            threshold@ == priority,
    {
        Self { value: priority }
    }

    /// The priority up to which other tasks are held off.
    pub fn value(&self) -> (value: u8)
        ensures
            value == self@,
            value < LEVELS,
    {
        proof {
            use_type_invariant(self);
        }
        self.value
    }

    /// Begins an access to a resource with the given ceiling: the
    /// threshold rises to the ceiling, unless it is there already.
    pub fn claim(&mut self, ceiling: u8) -> (claim: Claim)
        requires
            ceiling < LEVELS,
        ensures
            final(self)@ == raised(old(self)@, ceiling),
            claim@ == old(self)@,
    {
        proof {
            use_type_invariant(&*self);
        }
        let before = self.value;
        if before < ceiling {
            *self = Threshold { value: ceiling };
        }
        Claim { before }
    }

    /// Ends the access that `claim` stands for: the threshold is what it
    /// was before.
    pub fn release(&mut self, claim: Claim)
        ensures
            final(self)@ == claim@,
    {
        proof {
            use_type_invariant(&claim);
        }
        *self = Threshold { value: claim.before };
    }

    /// The value of the base-priority mask register that enforces this
    /// threshold.
    pub fn mask(&self) -> (mask: u8)
        ensures
            mask == mask_of(self@),
    {
        proof {
            use_type_invariant(self);
        }
        if self.value == 0 {
            0
        } else {
            let steps: u8 = LEVELS - self.value;
            assert(steps << 4 == steps * 16) by (bit_vector)
                requires
                    steps < 16,
            ;
            steps << 4
        }
    }
}

/// While a task holds a claim, no task that uses the same resource can
/// interrupt it: all of them have a priority of at most the ceiling.
pub proof fn claim_holds_off_the_sharers(threshold: u8, ceiling: u8, priority: u8)
    requires
        priority <= ceiling,
    ensures
        !preempts(priority, raised(threshold, ceiling)),
{
}

/// A claim delays no task above the ceiling that could run before it: the
/// edge capture is never held off by an access to the transmitter.
pub proof fn claim_lets_the_urgent_through(threshold: u8, ceiling: u8, priority: u8)
    requires
        preempts(priority, threshold),
        priority > ceiling,
    ensures
        preempts(priority, raised(threshold, ceiling)),
        preempts(CAPTURE_PRIORITY, raised(TRANSMIT_PRIORITY, TRANSMITTER_CEILING)),
        preempts(CAPTURE_PRIORITY, raised(STATUS_PRIORITY, TRANSMITTER_CEILING)),
{
}

/// The mask register orders thresholds as the priorities do: a higher
/// threshold gives a smaller mask value other than zero, and only the
/// threshold zero gives the mask that holds off nothing.
pub proof fn mask_follows_threshold(lower: u8, higher: u8)
    requires
        lower < higher < LEVELS,
    ensures
        mask_of(higher) != 0,
        lower > 0 ==> mask_of(higher) < mask_of(lower),
        mask_of(0) == 0,
{
}

} // verus!
