//! The interrupt lines behind the logical channels.

use vstd::prelude::*;

verus! {

#[derive(Debug, PartialEq, Eq, Clone, Copy)]
pub enum Error {
    NoSuchChannel(u8),
}

/// Interrupt line of channel 0.
pub const LINE_CHANNEL_0: u8 = 8;

/// Interrupt line of channel 1.
pub const LINE_CHANNEL_1: u8 = 9;

/// The external interrupt line that the channel with this index is wired
/// to.
pub fn channel_line(index: u8) -> (line: Result<u8, Error>)
    ensures
        index == 0 ==> line == Ok::<u8, Error>(LINE_CHANNEL_0),
        index == 1 ==> line == Ok::<u8, Error>(LINE_CHANNEL_1),
        index > 1 ==> line == Err::<u8, Error>(Error::NoSuchChannel(index)),
{
    match index {
        0 => Ok(LINE_CHANNEL_0),
        1 => Ok(LINE_CHANNEL_1),
        _ => Err(Error::NoSuchChannel(index)),
    }
}

} // verus!
