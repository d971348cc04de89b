//! Reassembly of messages from the byte stream that the link delivers in
//! arbitrary pieces.

use crate::data::{ClientHostMessage, DecodingError, Message};
use crate::round_trip::message_parse_sound;
use vstd::prelude::*;

verus! {

/// The messages that one pass over `bytes` yields, in stream order.
///
/// The pass decodes at the head. A message is taken with exactly its own
/// bytes; a byte that cannot start or continue a message is dropped alone;
/// a message that is cut short ends the pass.
pub open spec fn drain_messages(bytes: Seq<u8>) -> Seq<ClientHostMessage>
    decreases bytes.len(),
{
    match ClientHostMessage::parse(bytes) {
        Ok((used, message)) => {
            proof {
                message_parse_sound(bytes);
            }
            seq![message] + drain_messages(bytes.skip(used as int))
        },
        Err(DecodingError::EndOfBytes) => Seq::empty(),
        Err(DecodingError::UnexpectedByte(_, _)) => drain_messages(bytes.skip(1)),
    }
}

/// The bytes that one pass over `bytes` leaves for the next: the start of
/// a message that is not complete yet, or nothing.
pub open spec fn drain_rest(bytes: Seq<u8>) -> Seq<u8>
    decreases bytes.len(),
{
    match ClientHostMessage::parse(bytes) {
        Ok((used, _)) => {
            proof {
                message_parse_sound(bytes);
            }
            drain_rest(bytes.skip(used as int))
        },
        Err(DecodingError::EndOfBytes) => bytes,
        Err(DecodingError::UnexpectedByte(_, _)) => drain_rest(bytes.skip(1)),
    }
}

/// How many bytes one pass over `bytes` drops to find the next message.
pub open spec fn drain_dropped(bytes: Seq<u8>) -> nat
    decreases bytes.len(),
{
    match ClientHostMessage::parse(bytes) {
        Ok((used, _)) => {
            proof {
                message_parse_sound(bytes);
            }
            drain_dropped(bytes.skip(used as int))
        },
        Err(DecodingError::EndOfBytes) => 0,
        Err(DecodingError::UnexpectedByte(_, _)) => 1 + drain_dropped(bytes.skip(1)),
    }
}

/// What one pass over the pending bytes produced.
#[derive(Debug)]
pub struct Drained {
    /// The decoded messages, in stream order.
    pub messages: Vec<ClientHostMessage>,
    /// The number of bytes dropped to get back in step with the stream.
    pub dropped: usize,
}

/// Takes every complete message off the head of `data`, dropping one byte
/// wherever no message can start, and leaves in `data` the bytes of a
/// message that is still incomplete.
pub fn decode_messages(data: &mut Vec<u8>) -> (drained: Drained)
    ensures
        drained.messages@ == drain_messages(old(data)@),
        drained.dropped == drain_dropped(old(data)@),
        final(data)@ == drain_rest(old(data)@),
        drained.messages@.len() + drained.dropped + final(data)@.len() <= old(data)@.len(),
{
    proof {
        drain_terminates(data@);
    }
    let mut messages: Vec<ClientHostMessage> = Vec::new();
    let mut dropped: usize = 0;
    let mut at: usize = 0;
    let total: usize = data.len();
    assert(data@.skip(0) == data@);
    loop
        invariant
            data@ == old(data)@,
            total == data@.len(),
            at <= total,
            dropped <= at,
            drain_messages(data@) == messages@ + drain_messages(data@.skip(at as int)),
            drain_dropped(data@) == dropped + drain_dropped(data@.skip(at as int)),
            drain_rest(data@) == drain_rest(data@.skip(at as int)),
        ensures
            at <= total,
            data@ == old(data)@,
            total == data@.len(),
            drain_messages(data@) == messages@,
            drain_dropped(data@) == dropped,
            drain_rest(data@) == data@.skip(at as int),
        decreases total - at,
    {
        let pending = &data.as_slice()[at..total];
        proof {
            if ClientHostMessage::parse(pending@) is Ok {
                message_parse_sound(pending@);
                let used = ClientHostMessage::parse(pending@)->Ok_0.0;
                assert(pending@.skip(used as int) == data@.skip(at + used));
            } else {
                assert(pending@.len() > 0 ==> pending@.skip(1) == data@.skip(at + 1));
            }
        }
        match ClientHostMessage::decode(pending) {
            Ok((used, message)) => {
                proof {
                    assert(messages@.push(message) + drain_messages(data@.skip(at + used))
                        == messages@ + (seq![message] + drain_messages(data@.skip(at + used))));
                }
                messages.push(message);
                at = at + used;
            },
            Err(DecodingError::EndOfBytes) => {
                break ;
            },
            Err(DecodingError::UnexpectedByte(_, _)) => {
                at = at + 1;
                dropped = dropped + 1;
            },
        }
    }
    let rest = data.split_off(at);
    *data = rest;
    Drained { messages, dropped }
}

/// Accumulates the bytes read from the link and turns them into messages
/// as they become complete.
pub struct HostStreamDecoder {
    buffer: Vec<u8>,
}

impl View for HostStreamDecoder {
    type V = Seq<u8>;

    /// The bytes received and not yet decoded or dropped.
    closed spec fn view(&self) -> Seq<u8> {
        self.buffer@
    }
}

impl HostStreamDecoder {
    /// A decoder that has received nothing.
    pub fn new() -> (decoder: Self)
        ensures
            decoder@ == Seq::<u8>::empty(),
    {
        Self { buffer: Vec::new() }
    }

    /// The number of bytes that wait for the rest of their message.
    pub fn pending(&self) -> (count: usize)
        ensures
            count == self@.len(),
    {
        self.buffer.len()
    }

    /// Appends newly received bytes behind those already pending.
    pub fn feed(&mut self, bytes: &[u8])
        ensures
            final(self)@ == old(self)@ + bytes@,
    {
        let mut index: usize = 0;
        while index < bytes.len()
            invariant
                index <= bytes@.len(),
                self.buffer@ == old(self)@ + bytes@.take(index as int),
            decreases bytes@.len() - index,
        {
            self.buffer.push(bytes[index]);
            index = index + 1;
            assert(bytes@.take(index as int) == bytes@.take(index - 1).push(bytes@[index - 1]));
        }
        assert(bytes@.take(index as int) == bytes@);
    }

    /// Decodes what has become complete; see `decode_messages`.
    pub fn drain(&mut self) -> (drained: Drained)
        ensures
            drained.messages@ == drain_messages(old(self)@),
            drained.dropped == drain_dropped(old(self)@),
            final(self)@ == drain_rest(old(self)@),
            drained.messages@.len() + drained.dropped + final(self)@.len() <= old(self)@.len(),
    {
        decode_messages(&mut self.buffer)
    }
}

/// The number of steps of one pass over `bytes`: one for each message
/// taken and one for each byte dropped.
pub open spec fn drain_steps(bytes: Seq<u8>) -> nat {
    drain_messages(bytes).len() + drain_dropped(bytes)
}

/// The wire images of `messages`, one behind the other.
pub open spec fn stream_of(messages: Seq<ClientHostMessage>) -> Seq<u8>
    decreases messages.len(),
{
    if messages.len() == 0 {
        Seq::empty()
    } else {
        messages[0].wire() + stream_of(messages.skip(1))
    }
}

/// A pass takes no more steps than it was given bytes: every message uses
/// up at least two bytes, every resynchronisation one, and what is left
/// over was not touched.
pub proof fn drain_terminates(bytes: Seq<u8>)
    ensures
        drain_steps(bytes) <= bytes.len(),
        2 * drain_messages(bytes).len() + drain_dropped(bytes) + drain_rest(bytes).len()
            <= bytes.len(),
    decreases bytes.len(),
{
    match ClientHostMessage::parse(bytes) {
        Ok((used, _)) => {
            message_parse_sound(bytes);
            drain_terminates(bytes.skip(used as int));
        },
        Err(DecodingError::EndOfBytes) => {},
        Err(DecodingError::UnexpectedByte(_, _)) => {
            drain_terminates(bytes.skip(1));
        },
    }
}

/// What a pass leaves behind is the tail of its input, is shorter than the
/// longest message, and holds no complete message: a second pass over it
/// yields nothing and drops nothing.
pub proof fn drain_rest_is_partial(bytes: Seq<u8>)
    ensures
        drain_rest(bytes).len() <= bytes.len(),
        drain_rest(bytes) == bytes.skip(bytes.len() - drain_rest(bytes).len()),
        drain_rest(bytes).len() < 6,
        ClientHostMessage::parse(drain_rest(bytes)) == Err::<
            (usize, ClientHostMessage),
            DecodingError,
        >(DecodingError::EndOfBytes),
        drain_messages(drain_rest(bytes)) == Seq::<ClientHostMessage>::empty(),
        drain_dropped(drain_rest(bytes)) == 0,
        drain_rest(drain_rest(bytes)) == drain_rest(bytes),
    decreases bytes.len(),
{
    match ClientHostMessage::parse(bytes) {
        Ok((used, _)) => {
            message_parse_sound(bytes);
            let tail = bytes.skip(used as int);
            drain_rest_is_partial(tail);
            assert(tail.skip(tail.len() - drain_rest(tail).len()) == bytes.skip(
                bytes.len() - drain_rest(tail).len(),
            ));
        },
        Err(DecodingError::EndOfBytes) => {
            assert(bytes.skip(0) == bytes);
        },
        Err(DecodingError::UnexpectedByte(_, _)) => {
            let tail = bytes.skip(1);
            drain_rest_is_partial(tail);
            assert(tail.skip(tail.len() - drain_rest(tail).len()) == bytes.skip(
                bytes.len() - drain_rest(tail).len(),
            ));
        },
    }
}

/// A stream made of the wire images of valid messages decodes to exactly
/// those messages, in order and without loss, and the pass goes on with
/// whatever follows them.
pub proof fn drain_stream_of(messages: Seq<ClientHostMessage>, tail: Seq<u8>)
    requires
        forall|i: int| 0 <= i < messages.len() ==> (#[trigger] messages[i]).wf(),
    ensures
        drain_messages(stream_of(messages) + tail) == messages + drain_messages(tail),
        drain_dropped(stream_of(messages) + tail) == drain_dropped(tail),
        drain_rest(stream_of(messages) + tail) == drain_rest(tail),
    decreases messages.len(),
{
    if messages.len() == 0 {
        assert(stream_of(messages) + tail == tail);
        assert(messages + drain_messages(tail) == drain_messages(tail));
    } else {
        let first = messages[0];
        let others = messages.skip(1);
        let bytes = stream_of(messages) + tail;
        let behind = stream_of(others) + tail;
        assert(bytes == first.wire() + behind);
        crate::round_trip::message_round_trip(first, behind);
        assert(bytes.skip(first.wire().len() as int) == behind);
        assert forall|i: int| 0 <= i < others.len() implies (#[trigger] others[i]).wf() by {
            assert(others[i] == messages[i + 1]);
        }
        drain_stream_of(others, tail);
        assert(seq![first] + (others + drain_messages(tail)) == messages + drain_messages(tail));
    }
}

/// More bytes behind a message, or behind a byte that cannot be decoded,
/// do not change what the head of the stream decodes to.
pub proof fn parse_ignores_what_follows(bytes: Seq<u8>, more: Seq<u8>)
    requires
        ClientHostMessage::parse(bytes) != Err::<(usize, ClientHostMessage), DecodingError>(
            DecodingError::EndOfBytes,
        ),
    ensures
        ClientHostMessage::parse(bytes + more) == ClientHostMessage::parse(bytes),
{
    let longer = bytes + more;
    assert(longer[0] == bytes[0]);
    assert(longer.skip(1) == bytes.skip(1) + more);
    let rest = bytes.skip(1);
    if rest.len() > 0 {
        assert(longer.skip(1)[0] == rest[0]);
    }
    if rest.len() >= 4 {
        assert(longer.skip(1)[1] == rest[1]);
        assert(longer.skip(1)[2] == rest[2]);
        assert(longer.skip(1)[3] == rest[3]);
    }
    if rest.len() >= 5 {
        assert(longer.skip(1).skip(1) == rest.skip(1) + more);
        assert(longer.skip(1).skip(1)[0] == rest.skip(1)[0]);
        assert(longer.skip(1).skip(1)[1] == rest.skip(1)[1]);
        assert(longer.skip(1).skip(1)[2] == rest.skip(1)[2]);
        assert(longer.skip(1).skip(1)[3] == rest.skip(1)[3]);
    }
}

/// However the stream is cut into pieces, the same messages come out: a
/// pass over `first` followed by a pass over what it left and `second`
/// yields what a single pass over both yields.
pub proof fn drain_in_pieces(first: Seq<u8>, second: Seq<u8>)
    ensures
        drain_messages(first + second) == drain_messages(first) + drain_messages(
            drain_rest(first) + second,
        ),
        drain_dropped(first + second) == drain_dropped(first) + drain_dropped(
            drain_rest(first) + second,
        ),
        drain_rest(first + second) == drain_rest(drain_rest(first) + second),
    decreases first.len(),
{
    let whole = first + second;
    match ClientHostMessage::parse(first) {
        Ok((used, message)) => {
            message_parse_sound(first);
            parse_ignores_what_follows(first, second);
            let tail = first.skip(used as int);
            assert(whole.skip(used as int) == tail + second);
            drain_in_pieces(tail, second);
            assert(seq![message] + (drain_messages(tail) + drain_messages(
                drain_rest(tail) + second,
            )) == (seq![message] + drain_messages(tail)) + drain_messages(
                drain_rest(tail) + second,
            ));
        },
        Err(DecodingError::EndOfBytes) => {
            assert(Seq::<ClientHostMessage>::empty() + drain_messages(whole) == drain_messages(
                whole,
            ));
        },
        Err(DecodingError::UnexpectedByte(_, _)) => {
            parse_ignores_what_follows(first, second);
            let tail = first.skip(1);
            assert(whole.skip(1) == tail + second);
            drain_in_pieces(tail, second);
        },
    }
}

} // verus!
