//! What encoding and decoding owe each other.

use crate::data::{ClientHostMessage, DecodingError, Message, Reading, State};
use vstd::prelude::*;

verus! {

/// The little-endian bytes of a number read back give the number.
pub proof fn lemma_u32_bytes_value(value: u32, rest: Seq<u8>)
    ensures
        crate::data::u32_from_le_bytes(crate::data::u32_le_bytes(value) + rest) == value,
{
    let bytes = crate::data::u32_le_bytes(value) + rest;
    assert(bytes[0] == value % 256);
    assert(bytes[1] == value / 256 % 256);
    assert(bytes[2] == value / 65536 % 256);
    assert(bytes[3] == value / 16777216);
}

/// The number read from four bytes has those bytes as its little-endian
/// image.
pub proof fn lemma_u32_value_bytes(bytes: Seq<u8>)
    requires
        bytes.len() >= 4,
    ensures
        crate::data::u32_le_bytes(crate::data::u32_from_le_bytes(bytes)) == bytes.take(4),
{
    let value = crate::data::u32_from_le_bytes(bytes);
    let total = bytes[0] + 256 * bytes[1] + 65536 * bytes[2] + 16777216 * bytes[3];
    assert(value == total);
    assert(value % 256 == bytes[0]);
    assert(value / 256 % 256 == bytes[1]);
    assert(value / 65536 % 256 == bytes[2]);
    assert(value / 16777216 == bytes[3]);
    assert(crate::data::u32_le_bytes(value) =~= bytes.take(4));
}

/// Decoding the wire image of a byte, whatever follows it, gives the byte
/// back and takes exactly the image's length.
pub proof fn u8_round_trip(value: u8, rest: Seq<u8>)
    ensures
        u8::parse(value.wire() + rest) == Ok::<(usize, u8), DecodingError>(
            (value.wire().len() as usize, value),
        ),
{
}

/// Decoding the wire image of a number, whatever follows it, gives the
/// number back and takes exactly the image's length.
pub proof fn u32_round_trip(value: u32, rest: Seq<u8>)
    ensures
        u32::parse(value.wire() + rest) == Ok::<(usize, u32), DecodingError>(
            (value.wire().len() as usize, value),
        ),
{
    lemma_u32_bytes_value(value, rest);
}

/// Decoding the wire image of a valid state, whatever follows it, gives
/// the state back and takes exactly the image's length.
pub proof fn state_round_trip(state: State, rest: Seq<u8>)
    requires
        state.wf(),
    ensures
        State::parse(state.wire() + rest) == Ok::<(usize, State), DecodingError>(
            (state.wire().len() as usize, state),
        ),
{
    state.lemma_from_bits();
}

/// Decoding the wire image of a valid reading, whatever follows it, gives
/// the reading back and takes exactly the image's length.
pub proof fn reading_round_trip(reading: Reading, rest: Seq<u8>)
    requires
        reading.wf(),
    ensures
        Reading::parse(reading.wire() + rest) == Ok::<(usize, Reading), DecodingError>(
            (reading.wire().len() as usize, reading),
        ),
{
    let bytes = reading.wire() + rest;
    reading.state.lemma_from_bits();
    lemma_u32_bytes_value(reading.time, rest);
    assert(bytes.skip(1) =~= reading.time.wire() + rest);
}

/// Decoding the wire image of a valid message, whatever follows it, gives
/// the message back and takes exactly the image's length.
pub proof fn message_round_trip(message: ClientHostMessage, rest: Seq<u8>)
    requires
        message.wf(),
    ensures
        ClientHostMessage::parse(message.wire() + rest) == Ok::<
            (usize, ClientHostMessage),
            DecodingError,
        >((message.wire().len() as usize, message)),
{
    let bytes = message.wire() + rest;
    assert(bytes.skip(1) =~= message.payload() + rest);
    match message {
        ClientHostMessage::Reading(reading) => reading_round_trip(reading, rest),
        ClientHostMessage::FrequencyHertz(hertz) => u32_round_trip(hertz, rest),
        ClientHostMessage::Reset(channel) => u8_round_trip(channel, rest),
        ClientHostMessage::CurrentTime(ticks) => u32_round_trip(ticks, rest),
    }
}

/// No two valid messages share a wire image, and none has a wire image
/// that another one's begins with: where two streams agree, they begin
/// with the same message.
pub proof fn wire_names_one_message(
    first: ClientHostMessage,
    second: ClientHostMessage,
    after_first: Seq<u8>,
    after_second: Seq<u8>,
)
    requires
        first.wf(),
        second.wf(),
        first.wire() + after_first == second.wire() + after_second,
    ensures
        first == second,
        after_first == after_second,
{
    message_round_trip(first, after_first);
    message_round_trip(second, after_second);
    let stream = first.wire() + after_first;
    assert(stream.skip(first.wire().len() as int) == after_first);
    assert(stream.skip(second.wire().len() as int) == after_second);
}

/// A message that decodes is valid, was read from at least two and at most
/// six bytes, all of them present, and encodes to exactly the bytes it was
/// read from.
pub proof fn message_parse_sound(bytes: Seq<u8>)
    requires
        ClientHostMessage::parse(bytes) is Ok,
    ensures
        ({
            let (used, message) = ClientHostMessage::parse(bytes)->Ok_0;
            &&& message.wf()
            &&& 2 <= used <= 6
            &&& used <= bytes.len()
            &&& message.wire() == bytes.take(used as int)
        }),
{
    let (used, message) = ClientHostMessage::parse(bytes)->Ok_0;
    let rest = bytes.skip(1);
    match message {
        ClientHostMessage::Reading(reading) => {
            State::lemma_bits(rest[0]);
            lemma_u32_value_bytes(rest.skip(1));
            assert(message.wire() =~= bytes.take(used as int));
        },
        ClientHostMessage::FrequencyHertz(hertz) => {
            lemma_u32_value_bytes(rest);
            assert(message.wire() =~= bytes.take(used as int));
        },
        ClientHostMessage::Reset(channel) => {
            assert(message.wire() =~= bytes.take(used as int));
        },
        ClientHostMessage::CurrentTime(ticks) => {
            lemma_u32_value_bytes(rest);
            assert(message.wire() =~= bytes.take(used as int));
        },
    }
}

} // verus!
