//! The frames of the hardware link: a tag byte, then the fields with the
//! most significant byte first.

use crate::data::Reading;
use crate::error::Error;
use crate::util::{put_u32_be, u32_be_bytes};
use vstd::prelude::*;

verus! {

/// Tag byte of `HardwareMessage::Frequency`.
pub const TAG_FREQUENCY: u8 = 1;

/// Tag byte of `HardwareMessage::Reading`.
pub const TAG_READING: u8 = 2;

/// What the hardware reports: its tick frequency, or a captured reading.
#[derive(Debug, PartialEq, Eq, Clone, Copy)]
pub enum HardwareMessage {
    Frequency(u32),
    Reading(Reading),
}

impl HardwareMessage {
    /// The bytes of the frame: the tag, then the frequency, or the state
    /// byte and the time.
    pub open spec fn wire(&self) -> Seq<u8> {
        match *self {
            HardwareMessage::Frequency(hertz) => seq![TAG_FREQUENCY] + u32_be_bytes(hertz),
            HardwareMessage::Reading(reading) => seq![TAG_READING, reading.state.bits()]
                + u32_be_bytes(reading.time),
        }
    }

    /// Writes the frame to the head of `buf` and returns its length. A
    /// buffer that is too short for the whole frame is not touched.
    pub fn encode(&self, buf: &mut [u8]) -> (result: Result<usize, Error>)
        ensures
            old(buf)@.len() >= self.wire().len() ==> {
                &&& result == Ok::<usize, Error>(self.wire().len() as usize)
                &&& final(buf)@ == self.wire() + old(buf)@.skip(self.wire().len() as int)
            },
            old(buf)@.len() < self.wire().len() ==> {
                &&& result == Err::<usize, Error>(
                    Error::BufferTooSmall(old(buf)@.len() as usize, self.wire().len() as usize),
                )
                &&& final(buf)@ == old(buf)@
            },
    {
        let length = match self.check_message_length(buf) {
            Ok(length) => length,
            Err(error) => { return Err(error); },
        };
        match *self {
            HardwareMessage::Frequency(hertz) => {
                buf[0] = TAG_FREQUENCY;
                put_u32_be(buf, 1, hertz);
            },
            HardwareMessage::Reading(ref reading) => {
                buf[0] = TAG_READING;
                buf[1] = reading.state.byte();
                put_u32_be(buf, 2, reading.time);
            },
        }
        Ok(length)
    }

    /// The length of the frame, if `buf` has room for it.
    pub fn check_message_length(&self, buf: &mut [u8]) -> (result: Result<usize, Error>)
        ensures
            final(buf)@ == old(buf)@,
            old(buf)@.len() >= self.wire().len() ==> result == Ok::<usize, Error>(
                self.wire().len() as usize,
            ),
            old(buf)@.len() < self.wire().len() ==> result == Err::<usize, Error>(
                Error::BufferTooSmall(old(buf)@.len() as usize, self.wire().len() as usize),
            ),
    {
        let length: usize = match *self {
            HardwareMessage::Frequency(_) => 5,
            HardwareMessage::Reading(_) => 6,
        };
        if buf.len() < length {
            Err(Error::BufferTooSmall(buf.len(), length))
        } else {
            Ok(length)
        }
    }
}

/// What the host asks of the device.
#[derive(Debug, PartialEq, Eq, Clone, Copy)]
pub enum ControlMessage {
    /// Announce the tick frequency and reset the channels.
    GetFrequency,
}

impl ControlMessage {
    /// The single byte that stands for this request on the wire.
    pub fn byte(&self) -> (byte: u8)
        ensures
            byte == 0,
    {
        match *self {
            ControlMessage::GetFrequency => 0,
        }
    }
}

} // verus!
