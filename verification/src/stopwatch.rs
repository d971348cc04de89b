//! A 32-bit tick count made of a 16-bit hardware counter and the number of
//! times it has overflowed.

use vstd::prelude::*;

verus! {

pub struct Stopwatch {
    overflow_counter: u16,
}

impl View for Stopwatch {
    type V = nat;

    /// How often the hardware counter has overflowed.
    closed spec fn view(&self) -> nat {
        self.overflow_counter as nat
    }
}

impl Stopwatch {
    /// A stopwatch whose counter has not overflowed yet.
    pub fn new() -> (stopwatch: Self)
        ensures
            stopwatch@ == 0,
    {
        Self { overflow_counter: 0 }
    }

    /// How often the hardware counter has overflowed.
    pub fn overflows(&self) -> (count: u16)
        ensures
            count == self@,
    {
        self.overflow_counter
    }

    /// Counts one overflow of the hardware counter.
    pub fn on_overflow(&mut self)
        requires
            old(self)@ < u16::MAX,
        ensures
            final(self)@ == old(self)@ + 1,
    {
        self.overflow_counter += 1;
    }

    /// The tick count when the hardware counter reads `raw_value`.
    pub fn now(&self, raw_value: u16) -> (ticks: u32)
        ensures
            ticks == self@ * 65536 + raw_value,
    {
        let high: u32 = self.overflow_counter as u32;
        assert(high << 16 == high * 65536) by (bit_vector)
            requires
                high < 65536,
        ;
        (high << 16) + (raw_value as u32)
    }
}

} // verus!
