//! One encoded message in a scratch buffer, ready for the transmitter.

use crate::data::{ClientHostMessage, Message};
use vstd::prelude::*;

verus! {

/// Size of the scratch buffer a message is encoded into.
pub const FRAME_SIZE: usize = 10;

/// The wire image of one message.
#[derive(Debug, Clone, Copy)]
pub struct Frame {
    bytes: [u8; 10],
    used: usize,
}

impl View for Frame {
    type V = Seq<u8>;

    /// The bytes to transmit, in order.
    closed spec fn view(&self) -> Seq<u8> {
        self.bytes@.take(self.used as int)
    }
}

impl Frame {
    /// No more bytes are in use than the buffer has.
    #[verifier::type_invariant]
    closed spec fn fits(&self) -> bool {
        self.used <= FRAME_SIZE
    }

    /// The number of bytes to transmit.
    pub fn len(&self) -> (count: usize)
        ensures
            count == self@.len(),
            count <= FRAME_SIZE,
    {
        proof {
            use_type_invariant(self);
        }
        self.used
    }

    /// The bytes to transmit, in order.
    pub fn as_slice(&self) -> (bytes: &[u8])
        ensures
            bytes@ == self@,
    {
        proof {
            use_type_invariant(self);
        }
        let all = self.bytes.as_slice();
        let bytes = &all[0..self.used];
        assert(bytes@ == self.bytes@.take(self.used as int));
        bytes
    }

    /// The byte to transmit at position `index`.
    pub fn byte(&self, index: usize) -> (byte: u8)
        requires
            index < self@.len(),
        ensures
            byte == self@[index as int],
    {
        proof {
            use_type_invariant(self);
        }
        self.bytes[index]
    }
}

/// Encodes `message` into a fresh scratch buffer, which is large enough
/// for every message.
pub fn encode_frame(message: &ClientHostMessage) -> (frame: Frame)
    ensures
        frame@ == message.wire(),
{
    let mut bytes = [0u8; 10];
    match message.encode(&mut bytes) {
        Ok(used) => Frame { bytes, used },
        Err(_) => Frame { bytes, used: 0 },
    }
}

} // verus!
