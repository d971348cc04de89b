use monocle::data::Reading;
use monocle::error::Error;
use monocle::messages::{ControlMessage, HardwareMessage};
use monocle::util::encode_u32;

#[test]
fn encoding_frequency_works() {
    let hwmessage = HardwareMessage::Frequency(10);
    let mut buffer = [0; 5];
    hwmessage.encode(&mut buffer).unwrap();

    assert_eq!(buffer, [1, 0, 0, 0, 10]);
}

#[test]
fn encoding_reading_works() {
    let hwmessage = HardwareMessage::Reading(Reading::new(10, true, false));
    let mut buffer = [0; 6];
    hwmessage.encode(&mut buffer).unwrap();

    assert_eq!(buffer, [2, 1, 0, 0, 0, 10]);
}

#[test]
fn encoding_into_undersized_buffers() {
    let hwmessage = HardwareMessage::Reading(Reading::new(10, false, true));
    let mut buffer = [0; 5];
    assert!(hwmessage.encode(&mut buffer).is_err());

    let hwmessage = HardwareMessage::Frequency(10);
    let mut buffer = [0; 4];
    assert!(hwmessage.encode(&mut buffer).is_err());
}

#[test]
fn hardware_encode_reports_length_and_keeps_the_tail() {
    let mut buffer = [0xAA; 8];
    assert_eq!(HardwareMessage::Frequency(0x01020304).encode(&mut buffer), Ok(5));
    assert_eq!(buffer, [1, 1, 2, 3, 4, 0xAA, 0xAA, 0xAA]);

    let mut buffer = [0xAA; 8];
    let message = HardwareMessage::Reading(Reading::new(0xA0B0C0D0, false, true));
    assert_eq!(message.encode(&mut buffer), Ok(6));
    assert_eq!(buffer, [2, 0b10, 0xA0, 0xB0, 0xC0, 0xD0, 0xAA, 0xAA]);
}

#[test]
fn hardware_encode_leaves_a_short_buffer_untouched() {
    let mut buffer = [7; 5];
    let message = HardwareMessage::Reading(Reading::new(10, true, true));
    assert_eq!(message.encode(&mut buffer), Err(Error::BufferTooSmall(5, 6)));
    assert_eq!(buffer, [7; 5]);

    let mut buffer = [7; 4];
    assert_eq!(
        HardwareMessage::Frequency(10).encode(&mut buffer),
        Err(Error::BufferTooSmall(4, 5))
    );
    assert_eq!(buffer, [7; 4]);

    let mut empty: [u8; 0] = [];
    assert_eq!(
        HardwareMessage::Frequency(10).encode(&mut empty),
        Err(Error::BufferTooSmall(0, 5))
    );
}

#[test]
fn check_message_length_gives_the_frame_length() {
    let mut buffer = [0; 6];
    assert_eq!(HardwareMessage::Frequency(1).check_message_length(&mut buffer), Ok(5));
    assert_eq!(
        HardwareMessage::Reading(Reading::new(1, true, true)).check_message_length(&mut buffer),
        Ok(6)
    );
    let mut short = [0; 3];
    assert_eq!(
        HardwareMessage::Frequency(1).check_message_length(&mut short),
        Err(Error::BufferTooSmall(3, 5))
    );
    assert_eq!(short, [0; 3]);
}

#[test]
fn encode_u32_is_big_endian() {
    let mut buffer = [0xEE; 6];
    encode_u32(0x12345678, &mut buffer);
    assert_eq!(buffer, [0x12, 0x34, 0x56, 0x78, 0xEE, 0xEE]);

    let mut buffer = [0xEE; 4];
    encode_u32(10, &mut buffer);
    assert_eq!(buffer, [0, 0, 0, 10]);

    let mut buffer = [0; 4];
    encode_u32(u32::MAX, &mut buffer);
    assert_eq!(buffer, [0xFF; 4]);
}

#[test]
fn get_frequency_is_the_zero_byte() {
    assert_eq!(ControlMessage::GetFrequency.byte(), 0);
}
