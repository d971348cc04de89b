//! The control messages that the device sends beside the readings.

use crate::data::{ClientHostMessage, Message};
use crate::frame::{encode_frame, Frame};
use vstd::prelude::*;

verus! {

/// The first channel whose reset the device announces.
pub const FIRST_CHANNEL: u8 = 1;

/// The second channel whose reset the device announces.
pub const SECOND_CHANNEL: u8 = 2;

/// What the device sends on each period of its status timer: the tick
/// count at that moment.
pub fn on_timer(ticks: u32) -> (frame: Frame)
    ensures
        frame@ == ClientHostMessage::CurrentTime(ticks).wire(),
{
    encode_frame(&ClientHostMessage::CurrentTime(ticks))
}

/// What the device answers to the host's handshake byte: its tick
/// frequency, then a reset for each channel.
pub fn on_rx(frequency: u32) -> (frames: [Frame; 3])
    ensures
        frames@[0]@ == ClientHostMessage::FrequencyHertz(frequency).wire(),
        frames@[1]@ == ClientHostMessage::Reset(FIRST_CHANNEL).wire(),
        frames@[2]@ == ClientHostMessage::Reset(SECOND_CHANNEL).wire(),
{
    [
        encode_frame(&ClientHostMessage::FrequencyHertz(frequency)),
        encode_frame(&ClientHostMessage::Reset(FIRST_CHANNEL)),
        encode_frame(&ClientHostMessage::Reset(SECOND_CHANNEL)),
    ]
}

} // verus!
