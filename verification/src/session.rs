//! The host's view of a session: which tick frequency is known, and what
//! each decoded message means for the consumers of calibrated readings.

use crate::data::{ClientHostMessage, Reading};
use vstd::prelude::*;

verus! {

/// Microseconds in a second: the tick frequency divided by this is the
/// number of ticks in a microsecond.
pub const MICROSECONDS_PER_SECOND: u32 = 1_000_000;

/// A tick count together with the number of ticks that make a microsecond.
/// The time in microseconds is the first divided by the second.
#[derive(Debug, PartialEq, Eq, Clone, Copy)]
pub struct CalibratedTime {
    pub ticks: u32,
    pub ticks_per_microsecond: u32,
}

impl CalibratedTime {
    /// The calibration of `ticks` under a tick frequency in hertz.
    pub open spec fn spec_new(frequency: u32, ticks: u32) -> CalibratedTime {
        CalibratedTime { ticks, ticks_per_microsecond: frequency / MICROSECONDS_PER_SECOND }
    }

    #[verifier::when_used_as_spec(spec_new)]
    pub fn new(frequency: u32, ticks: u32) -> (time: CalibratedTime)
        ensures
            time == CalibratedTime::spec_new(frequency, ticks),
    {
        CalibratedTime { ticks, ticks_per_microsecond: frequency / MICROSECONDS_PER_SECOND }
    }

    /// The whole microseconds of this time, where the frequency is at
    /// least one tick per microsecond; below that there is no divisor.
    pub fn whole_microseconds(&self) -> (microseconds: Option<u32>)
        ensures
            self.ticks_per_microsecond == 0 ==> microseconds is None,
            self.ticks_per_microsecond > 0 ==> microseconds == Some(
                self.ticks / self.ticks_per_microsecond,
            ),
    {
        if self.ticks_per_microsecond == 0 {
            None
        } else {
            Some(self.ticks / self.ticks_per_microsecond)
        }
    }
}

/// The levels of the channels at a calibrated time.
#[derive(Debug, PartialEq, Eq, Clone, Copy)]
pub struct CalibratedReading {
    pub channel1: bool,
    pub channel2: bool,
    pub time: CalibratedTime,
}

impl CalibratedReading {
    /// The calibration of `reading` under a tick frequency in hertz.
    pub open spec fn spec_new(frequency: u32, reading: Reading) -> CalibratedReading {
        CalibratedReading {
            channel1: reading.state.channel1(),
            channel2: reading.state.channel2(),
            time: CalibratedTime::new(frequency, reading.time),
        }
    }

    #[verifier::when_used_as_spec(spec_new)]
    pub fn new(frequency: u32, reading: Reading) -> (calibrated: CalibratedReading)
        ensures
            calibrated == CalibratedReading::spec_new(frequency, reading),
    {
        CalibratedReading {
            channel1: reading.state.channel1(),
            channel2: reading.state.channel2(),
            time: CalibratedTime::new(frequency, reading.time),
        }
    }
}

/// What a message led to.
#[derive(Debug, PartialEq, Eq, Clone, Copy)]
pub enum SessionEvent {
    /// A reading to forward to the consumers.
    Reading(CalibratedReading),
    /// The device's current time, to forward to the consumers.
    ClockSync(CalibratedTime),
    /// The tick frequency is now the given number of hertz.
    FrequencyStored(u32),
    /// The device announced a reset of the given channel. Nothing is
    /// cleared on that account.
    ResetNoticed(u8),
    /// The message carried a tick count and no frequency is known yet: it
    /// is dropped, and not kept for later.
    Uncalibrated,
}

impl SessionEvent {
    /// Whether this event goes out to the consumers.
    pub open spec fn forwarded(&self) -> bool {
        *self is Reading || *self is ClockSync
    }
}

/// The frequency that is known once `message` was handled.
pub open spec fn next_frequency(frequency: Option<u32>, message: ClientHostMessage) -> Option<u32> {
    match message {
        ClientHostMessage::FrequencyHertz(hertz) => Some(hertz),
        _ => frequency,
    }
}

/// What `message` leads to while `frequency` is what is known.
pub open spec fn event_of(frequency: Option<u32>, message: ClientHostMessage) -> SessionEvent {
    match message {
        ClientHostMessage::FrequencyHertz(hertz) => SessionEvent::FrequencyStored(hertz),
        ClientHostMessage::Reading(reading) => match frequency {
            Some(hertz) => SessionEvent::Reading(CalibratedReading::new(hertz, reading)),
            None => SessionEvent::Uncalibrated,
        },
        ClientHostMessage::CurrentTime(ticks) => match frequency {
            Some(hertz) => SessionEvent::ClockSync(CalibratedTime::new(hertz, ticks)),
            None => SessionEvent::Uncalibrated,
        },
        ClientHostMessage::Reset(channel) => SessionEvent::ResetNoticed(channel),
    }
}

/// Keeps the tick frequency of the session and calibrates what arrives.
pub struct HostSessionController {
    frequency: Option<u32>,
}

impl View for HostSessionController {
    type V = Option<u32>;

    /// The tick frequency in hertz, once the device has announced it.
    closed spec fn view(&self) -> Option<u32> {
        self.frequency
    }
}

impl HostSessionController {
    /// A session in which no frequency is known yet.
    pub fn new() -> (controller: Self)
        ensures
            controller@ == None::<u32>,
    {
        Self { frequency: None }
    }

    /// The tick frequency in hertz, once the device has announced it.
    pub fn frequency(&self) -> (frequency: Option<u32>)
        ensures
            frequency == self@,
    {
        self.frequency
    }

    /// Handles one decoded message: a frequency is stored over any earlier
    /// one; a reading or a time is calibrated with the stored frequency,
    /// or dropped while there is none; a reset is passed on as a notice.
    pub fn handle(&mut self, message: ClientHostMessage) -> (event: SessionEvent)
        ensures
            event == event_of(old(self)@, message),
            final(self)@ == next_frequency(old(self)@, message),
    {
        match message {
            ClientHostMessage::FrequencyHertz(hertz) => {
                self.frequency = Some(hertz);
                SessionEvent::FrequencyStored(hertz)
            },
            ClientHostMessage::Reading(reading) => match self.frequency {
                Some(hertz) => SessionEvent::Reading(CalibratedReading::new(hertz, reading)),
                None => SessionEvent::Uncalibrated,
            },
            ClientHostMessage::CurrentTime(ticks) => match self.frequency {
                Some(hertz) => SessionEvent::ClockSync(CalibratedTime::new(hertz, ticks)),
                None => SessionEvent::Uncalibrated,
            },
            ClientHostMessage::Reset(channel) => SessionEvent::ResetNoticed(channel),
        }
    }
}

/// The frequency that is known once `messages` were handled in order.
pub open spec fn frequency_after(frequency: Option<u32>, messages: Seq<ClientHostMessage>) -> Option<
    u32,
>
    decreases messages.len(),
{
    if messages.len() == 0 {
        frequency
    } else {
        next_frequency(frequency_after(frequency, messages.drop_last()), messages.last())
    }
}

/// The events that handling `messages` in order leads to, one for each
/// message and in the same order.
pub open spec fn events_of(frequency: Option<u32>, messages: Seq<ClientHostMessage>) -> Seq<
    SessionEvent,
> {
    Seq::new(
        messages.len(),
        |i: int| event_of(frequency_after(frequency, messages.take(i)), messages[i]),
    )
}

/// As long as the device has not announced its frequency, nothing is
/// forwarded: a session that starts without a frequency and sees no
/// `FrequencyHertz` drops every reading and every time, and still knows no
/// frequency afterwards.
pub proof fn nothing_forwarded_before_frequency(messages: Seq<ClientHostMessage>)
    requires
        forall|i: int| 0 <= i < messages.len() ==> !(#[trigger] messages[i] is FrequencyHertz),
    ensures
        frequency_after(None, messages) == None::<u32>,
        forall|i: int|
            0 <= i < messages.len() ==> !(#[trigger] events_of(None, messages)[i]).forwarded(),
    decreases messages.len(),
{
    if messages.len() > 0 {
        nothing_forwarded_before_frequency(messages.drop_last());
    }
    assert forall|i: int| 0 <= i < messages.len() implies !(#[trigger] events_of(
        None,
        messages,
    )[i]).forwarded() by {
        nothing_forwarded_before_frequency(messages.take(i));
    }
}

/// Once a frequency was announced, a reading that follows is forwarded,
/// calibrated with the frequency announced last.
pub proof fn forwarded_after_frequency(
    frequency: Option<u32>,
    messages: Seq<ClientHostMessage>,
    last: int,
    at: int,
)
    requires
        0 <= last < at < messages.len(),
        messages[last] is FrequencyHertz,
        forall|i: int| last < i < at ==> !(#[trigger] messages[i] is FrequencyHertz),
    ensures
        frequency_after(frequency, messages.take(at)) == Some(messages[last]->FrequencyHertz_0),
        messages[at] matches ClientHostMessage::Reading(reading) ==> events_of(
            frequency,
            messages,
        )[at] == SessionEvent::Reading(
            CalibratedReading::new(messages[last]->FrequencyHertz_0, reading),
        ),
        messages[at] matches ClientHostMessage::CurrentTime(ticks) ==> events_of(
            frequency,
            messages,
        )[at] == SessionEvent::ClockSync(
            CalibratedTime::new(messages[last]->FrequencyHertz_0, ticks),
        ),
    decreases at - last,
{
    let before = messages.take(at);
    assert(before.last() == messages[at - 1]);
    assert(before.drop_last() == messages.take(at - 1));
    if at - 1 > last {
        forwarded_after_frequency(frequency, messages, last, at - 1);
    }
}

} // verus!
