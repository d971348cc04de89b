use monocle::data::{
    ClientHostMessage, DecodingError, EncodingError, Message, Reading, State,
};
use std::fmt::Debug;

#[derive(Debug, PartialEq)]
enum EncodeDecodeFailure<T: Debug + PartialEq> {
    NoMatch(T),
    EncodingError(EncodingError),
    DecodingError(DecodingError),
    UsedWrongAmountOfBytes(usize, usize),
}

fn encode_decode<T>(val: T, buffer: &mut [u8]) -> Result<(), EncodeDecodeFailure<T>>
where
    T: Message<T> + Debug + PartialEq,
{
    let encoded_len = val
        .encode(buffer)
        .map_err(|e| EncodeDecodeFailure::EncodingError(e))?;
    let (decoded_len, decoded) =
        T::decode(buffer).map_err(|e| EncodeDecodeFailure::DecodingError(e))?;
    if decoded_len != encoded_len {
        return Err(EncodeDecodeFailure::UsedWrongAmountOfBytes(
            encoded_len,
            decoded_len,
        ));
    }
    if decoded == val {
        Ok(())
    } else {
        Err(EncodeDecodeFailure::NoMatch(decoded))
    }
}

#[test]
fn u32_test() {
    assert_eq!(encode_decode::<u32>(0, &mut [0; 4]), Ok(()));
    assert_eq!(encode_decode::<u32>(12345678, &mut [0; 4]), Ok(()));
}

#[test]
fn reading_test() {
    assert_eq!(
        encode_decode::<Reading>(Reading::new(123412, true, true), &mut [0; 6]),
        Ok(())
    );
    assert_eq!(
        encode_decode::<Reading>(Reading::new(123412, false, false), &mut [0; 6]),
        Ok(())
    );
}

#[test]
fn state_test() {
    assert_eq!(encode_decode::<State>(State::new(true, true), &mut [0; 1]), Ok(()));
    assert_eq!(encode_decode::<State>(State::new(false, true), &mut [0; 1]), Ok(()));
    assert_eq!(encode_decode::<State>(State::new(true, false), &mut [0; 1]), Ok(()));
    assert_eq!(encode_decode::<State>(State::new(false, false), &mut [0; 1]), Ok(()));
}

#[test]
fn client_host_message_test() {
    let reading = Reading::new(123412, false, false);
    assert_eq!(
        encode_decode::<ClientHostMessage>(
            ClientHostMessage::Reading(reading.clone()),
            &mut [0; 6]
        ),
        Ok(())
    );
    assert_eq!(
        encode_decode::<ClientHostMessage>(ClientHostMessage::FrequencyHertz(12345), &mut [0; 6]),
        Ok(())
    );
    assert_eq!(
        encode_decode::<ClientHostMessage>(ClientHostMessage::Reset(5), &mut [0; 6]),
        Ok(())
    );
    assert_eq!(
        encode_decode::<ClientHostMessage>(ClientHostMessage::CurrentTime(5), &mut [0; 6]),
        Ok(())
    );
}

#[test]
fn every_u8_round_trips() {
    for value in 0..=255u8 {
        assert_eq!(encode_decode::<u8>(value, &mut [0; 1]), Ok(()));
        let mut buffer = [0xAA; 3];
        assert_eq!(value.encode(&mut buffer), Ok(1));
        assert_eq!(buffer, [value, 0xAA, 0xAA]);
        assert_eq!(u8::decode(&buffer), Ok((1, value)));
    }
}

#[test]
fn sampled_u32_round_trip() {
    let samples = [
        0u32, 1, 255, 256, 65535, 65536, 16777215, 16777216, 0x12345678, 0x80000000,
        u32::MAX - 1, u32::MAX,
    ];
    for value in samples {
        assert_eq!(encode_decode::<u32>(value, &mut [0; 4]), Ok(()));
        assert_eq!(encode_decode::<u32>(value, &mut [0; 9]), Ok(()));
    }
}

#[test]
fn u32_is_little_endian_on_the_wire() {
    let mut buffer = [0xAA; 6];
    assert_eq!(0x12345678u32.encode(&mut buffer), Ok(4));
    assert_eq!(buffer, [0x78, 0x56, 0x34, 0x12, 0xAA, 0xAA]);
    assert_eq!(u32::decode(&[0x78, 0x56, 0x34, 0x12, 0xFF]), Ok((4, 0x12345678)));
    assert_eq!(u32::decode(&[0, 0x10, 0, 0]), Ok((4, 4096)));
    assert_eq!(u32::decode(&[0xFF, 0xFF, 0xFF, 0xFF]), Ok((4, u32::MAX)));
}

#[test]
fn every_state_and_reading_round_trips() {
    for channel1 in [false, true] {
        for channel2 in [false, true] {
            let state = State::new(channel1, channel2);
            assert_eq!(state.channel1(), channel1);
            assert_eq!(state.channel2(), channel2);
            assert_eq!(encode_decode::<State>(state, &mut [0; 1]), Ok(()));
            for time in [0u32, 1, 100, 123412, 0xDEADBEEF, u32::MAX] {
                let reading = Reading::new(time, channel1, channel2);
                assert_eq!(reading.time, time);
                assert_eq!(reading.state, state);
                assert_eq!(encode_decode::<Reading>(reading, &mut [0; 5]), Ok(()));
                assert_eq!(
                    encode_decode::<ClientHostMessage>(
                        ClientHostMessage::Reading(reading),
                        &mut [0; 6]
                    ),
                    Ok(())
                );
            }
        }
    }
}

#[test]
fn every_message_variant_round_trips() {
    for value in [0u32, 7, 4096, 1_000_000, 72_000_000, u32::MAX] {
        assert_eq!(
            encode_decode::<ClientHostMessage>(ClientHostMessage::FrequencyHertz(value), &mut [0; 5]),
            Ok(())
        );
        assert_eq!(
            encode_decode::<ClientHostMessage>(ClientHostMessage::CurrentTime(value), &mut [0; 5]),
            Ok(())
        );
    }
    for channel in 0..=255u8 {
        assert_eq!(
            encode_decode::<ClientHostMessage>(ClientHostMessage::Reset(channel), &mut [0; 2]),
            Ok(())
        );
    }
}

#[test]
fn state_packs_channel_one_low_and_channel_two_high() {
    assert_eq!(State::new(false, false).byte(), 0b00);
    assert_eq!(State::new(true, false).byte(), 0b01);
    assert_eq!(State::new(false, true).byte(), 0b10);
    assert_eq!(State::new(true, true).byte(), 0b11);
}

#[test]
fn messages_have_their_exact_wire_image() {
    let mut buffer = [0xAA; 8];
    let reading = ClientHostMessage::Reading(Reading::new(100, true, true));
    assert_eq!(reading.encode(&mut buffer), Ok(6));
    assert_eq!(buffer, [1, 0b11, 100, 0, 0, 0, 0xAA, 0xAA]);

    let mut buffer = [0xAA; 8];
    assert_eq!(ClientHostMessage::FrequencyHertz(4096).encode(&mut buffer), Ok(5));
    assert_eq!(buffer, [2, 0, 0x10, 0, 0, 0xAA, 0xAA, 0xAA]);

    let mut buffer = [0xAA; 8];
    assert_eq!(ClientHostMessage::Reset(9).encode(&mut buffer), Ok(2));
    assert_eq!(buffer, [3, 9, 0xAA, 0xAA, 0xAA, 0xAA, 0xAA, 0xAA]);

    let mut buffer = [0xAA; 8];
    assert_eq!(ClientHostMessage::CurrentTime(0x01020304).encode(&mut buffer), Ok(5));
    assert_eq!(buffer, [4, 4, 3, 2, 1, 0xAA, 0xAA, 0xAA]);

    let mut buffer = [0xAA; 6];
    assert_eq!(Reading::new(0x0A0B0C0D, false, true).encode(&mut buffer), Ok(5));
    assert_eq!(buffer, [0b10, 0x0D, 0x0C, 0x0B, 0x0A, 0xAA]);
}

#[test]
fn decoding_takes_exactly_the_message_and_ignores_what_follows() {
    assert_eq!(
        ClientHostMessage::decode(&[1, 0b01, 1, 2, 3, 4, 0xFF, 0xFF]),
        Ok((6, ClientHostMessage::Reading(Reading::new(0x04030201, true, false))))
    );
    assert_eq!(
        ClientHostMessage::decode(&[2, 0, 0x10, 0, 0, 9]),
        Ok((5, ClientHostMessage::FrequencyHertz(4096)))
    );
    assert_eq!(ClientHostMessage::decode(&[3, 200, 1]), Ok((2, ClientHostMessage::Reset(200))));
    assert_eq!(
        ClientHostMessage::decode(&[4, 0xFF, 0xFF, 0xFF, 0xFF]),
        Ok((5, ClientHostMessage::CurrentTime(u32::MAX)))
    );
    assert_eq!(Reading::decode(&[0b10, 5, 0, 0, 0, 77]), Ok((5, Reading::new(5, false, true))));
    assert_eq!(State::decode(&[0b11, 4]), Ok((1, State::new(true, true))));
}

#[test]
fn invalid_state_byte_is_rejected() {
    assert_eq!(
        State::decode(&[0b100]),
        Err(DecodingError::UnexpectedByte(4, monocle::data::STATE_CONTEXT))
    );
    for byte in 4..=255u8 {
        assert!(matches!(
            State::decode(&[byte]),
            Err(DecodingError::UnexpectedByte(found, _)) if found == byte
        ));
        assert!(matches!(
            Reading::decode(&[byte, 0, 0, 0, 0]),
            Err(DecodingError::UnexpectedByte(found, _)) if found == byte
        ));
        assert!(matches!(
            ClientHostMessage::decode(&[1, byte, 0, 0, 0, 0]),
            Err(DecodingError::UnexpectedByte(found, _)) if found == byte
        ));
    }
    assert!(matches!(
        Reading::decode(&[0b100]),
        Err(DecodingError::UnexpectedByte(4, _))
    ));
}

#[test]
fn truncated_input_is_end_of_bytes() {
    assert_eq!(Reading::decode(&[0b01]), Err(DecodingError::EndOfBytes));
    assert_eq!(Reading::decode(&[]), Err(DecodingError::EndOfBytes));
    assert_eq!(Reading::decode(&[0b01, 1, 2, 3]), Err(DecodingError::EndOfBytes));
    assert_eq!(State::decode(&[]), Err(DecodingError::EndOfBytes));
    assert_eq!(u8::decode(&[]), Err(DecodingError::EndOfBytes));
    assert_eq!(u32::decode(&[1, 2, 3]), Err(DecodingError::EndOfBytes));
    assert_eq!(ClientHostMessage::decode(&[]), Err(DecodingError::EndOfBytes));
    assert_eq!(ClientHostMessage::decode(&[1]), Err(DecodingError::EndOfBytes));
    assert_eq!(ClientHostMessage::decode(&[1, 0b11, 0, 0, 0]), Err(DecodingError::EndOfBytes));
    assert_eq!(ClientHostMessage::decode(&[2, 0, 0, 0]), Err(DecodingError::EndOfBytes));
    assert_eq!(ClientHostMessage::decode(&[3]), Err(DecodingError::EndOfBytes));
    assert_eq!(ClientHostMessage::decode(&[4, 1]), Err(DecodingError::EndOfBytes));
}

#[test]
fn invalid_tag_is_rejected() {
    assert_eq!(
        ClientHostMessage::decode(&[0, 1, 2, 3, 4, 5]),
        Err(DecodingError::UnexpectedByte(0, monocle::data::TAG_CONTEXT))
    );
    assert_eq!(
        ClientHostMessage::decode(&[5, 1, 2, 3, 4, 5]),
        Err(DecodingError::UnexpectedByte(5, monocle::data::TAG_CONTEXT))
    );
    assert_eq!(
        ClientHostMessage::decode(&[5]),
        Err(DecodingError::UnexpectedByte(5, monocle::data::TAG_CONTEXT))
    );
    for tag in 5..=255u8 {
        assert!(matches!(
            ClientHostMessage::decode(&[tag, 0, 0, 0, 0, 0]),
            Err(DecodingError::UnexpectedByte(found, _)) if found == tag
        ));
    }
}

#[test]
fn primitives_leave_a_short_buffer_untouched() {
    let mut empty: [u8; 0] = [];
    assert_eq!(7u8.encode(&mut empty), Err(EncodingError::BufferTooSmall(0, 1)));
    assert_eq!(State::new(true, true).encode(&mut empty), Err(EncodingError::BufferTooSmall(0, 1)));
    for have in 0..4usize {
        let mut buffer = vec![0xAA; have];
        assert_eq!(
            0x01020304u32.encode(&mut buffer),
            Err(EncodingError::BufferTooSmall(have, 4))
        );
        assert_eq!(buffer, vec![0xAA; have]);
    }
}

#[test]
fn a_short_buffer_keeps_what_a_reading_wrote_before_it_ran_out() {
    let reading = Reading::new(0x01020304, true, false);
    let mut empty: [u8; 0] = [];
    assert_eq!(reading.encode(&mut empty), Err(EncodingError::BufferTooSmall(0, 1)));
    for have in 1..5usize {
        let mut buffer = vec![0xAA; have];
        assert_eq!(reading.encode(&mut buffer), Err(EncodingError::BufferTooSmall(have - 1, 4)));
        let mut expected = vec![0xAA; have];
        expected[0] = 0b01;
        assert_eq!(buffer, expected);
    }
}

#[test]
fn a_short_buffer_keeps_the_tag_of_a_message() {
    let mut empty: [u8; 0] = [];
    assert_eq!(
        ClientHostMessage::Reset(1).encode(&mut empty),
        Err(EncodingError::BufferTooSmall(0, 1))
    );

    let mut buffer = [0xAA; 1];
    assert_eq!(
        ClientHostMessage::Reset(1).encode(&mut buffer),
        Err(EncodingError::BufferTooSmall(0, 1))
    );
    assert_eq!(buffer, [3]);

    let mut buffer = [0xAA; 4];
    assert_eq!(
        ClientHostMessage::FrequencyHertz(5).encode(&mut buffer),
        Err(EncodingError::BufferTooSmall(3, 4))
    );
    assert_eq!(buffer, [2, 0xAA, 0xAA, 0xAA]);

    let mut buffer = [0xAA; 4];
    assert_eq!(
        ClientHostMessage::CurrentTime(5).encode(&mut buffer),
        Err(EncodingError::BufferTooSmall(3, 4))
    );
    assert_eq!(buffer, [4, 0xAA, 0xAA, 0xAA]);

    let message = ClientHostMessage::Reading(Reading::new(9, true, true));
    let mut buffer = [0xAA; 1];
    assert_eq!(message.encode(&mut buffer), Err(EncodingError::BufferTooSmall(0, 1)));
    assert_eq!(buffer, [1]);
    let mut buffer = [0xAA; 5];
    assert_eq!(message.encode(&mut buffer), Err(EncodingError::BufferTooSmall(3, 4)));
    assert_eq!(buffer, [1, 0b11, 0xAA, 0xAA, 0xAA]);
}
