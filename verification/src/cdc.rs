//! The pieces of the device's serial port class that are plain logic: the
//! buffer between the receiving endpoint and the reader, and the choice of
//! the control requests that the class answers.

use vstd::prelude::*;

verus! {

pub const USB_CLASS_CDC: u8 = 0x02;

/// Class request that sets the line coding.
pub const REQ_SET_LINE_CODING: u8 = 0x20;

/// Class request that sets the control line state.
pub const REQ_SET_CONTROL_LINE_STATE: u8 = 0x22;

/// Size of a packet of the receiving endpoint.
pub const PACKET_SIZE: usize = 64;

/// Whether the class accepts a control request: one of class type, sent to
/// the interface, that sets the line coding or the control line state.
pub fn accepts_request(class_type: bool, to_interface: bool, request: u8) -> (accepted: bool)
    ensures
        accepted == (class_type && to_interface && (request == REQ_SET_LINE_CODING || request
            == REQ_SET_CONTROL_LINE_STATE)),
{
    if class_type && to_interface {
        return match request {
            REQ_SET_LINE_CODING => true,
            REQ_SET_CONTROL_LINE_STATE => true,
            _ => false,
        };
    }
    false
}

/// One received packet, handed to the reader in as many pieces as the
/// reader asks for.
pub struct Buf {
    buf: [u8; 64],
    len: usize,
}

impl View for Buf {
    type V = Seq<u8>;

    /// The bytes received and not yet read, in order.
    closed spec fn view(&self) -> Seq<u8> {
        self.buf@.take(self.len as int)
    }
}

impl Buf {
    /// No more bytes wait than a packet holds.
    #[verifier::type_invariant]
    closed spec fn fits(&self) -> bool {
        self.len <= PACKET_SIZE
    }

    /// A buffer in which nothing waits.
    pub fn new() -> (buffer: Self)
        ensures
            buffer@ == Seq::<u8>::empty(),
    {
        Self { buf: [0u8; 64], len: 0 }
    }

    /// The number of bytes that wait, never more than a packet.
    pub fn len(&self) -> (count: usize)
        ensures
            count == self@.len(),
            count <= PACKET_SIZE,
    {
        proof {
            use_type_invariant(self);
        }
        self.len
    }

    /// Takes in the first `count` bytes of a packet that was just
    /// received. Whatever still waited is replaced.
    pub fn refill(&mut self, packet: &[u8; 64], count: usize)
        requires
            count <= PACKET_SIZE,
        ensures
            final(self)@ == packet@.take(count as int),
    {
        *self = Buf { buf: *packet, len: count };
    }

    /// Moves as many waiting bytes to the head of `data` as it has room
    /// for, oldest first, and returns their number. The bytes that did
    /// not fit keep waiting, in order.
    pub fn read(&mut self, data: &mut [u8]) -> (count: usize)
        ensures
            count == if old(data)@.len() < old(self)@.len() {
                old(data)@.len()
            } else {
                old(self)@.len()
            },
            final(data)@ == old(self)@.take(count as int) + old(data)@.skip(count as int),
            final(self)@ == old(self)@.skip(count as int),
    {
        proof {
            use_type_invariant(&*self);
        }
        let count: usize = if data.len() < self.len { data.len() } else { self.len };
        let mut index: usize = 0;
        while index < count
            invariant
                index <= count,
                count <= self.len,
                self.len <= PACKET_SIZE,
                count <= data@.len(),
                data@.len() == old(data)@.len(),
                *self == *old(self),
                data@ == old(self)@.take(index as int) + old(data)@.skip(index as int),
            decreases count - index,
        {
            data[index] = self.buf[index];
            index = index + 1;
        }
        let remaining: usize = self.len - count;
        let mut shifted: [u8; 64] = [0u8; 64];
        let mut index: usize = 0;
        while index < remaining
            invariant
                index <= remaining,
                remaining + count == self.len,
                self.len <= PACKET_SIZE,
                *self == *old(self),
                forall|i: int| 0 <= i < index ==> shifted@[i] == self.buf@[i + count],
            decreases remaining - index,
        {
            shifted[index] = self.buf[index + count];
            index = index + 1;
        }
        *self = Buf { buf: shifted, len: remaining };
        count
    }
}

} // verus!
