use monocle::data::{ClientHostMessage, Reading};
use monocle::session::{
    CalibratedReading, CalibratedTime, HostSessionController, SessionEvent,
    MICROSECONDS_PER_SECOND,
};

fn microseconds(time: &CalibratedTime) -> f64 {
    (time.ticks as f64) / (time.ticks_per_microsecond as f64)
}

#[test]
fn readings_are_dropped_until_the_frequency_is_known() {
    let mut session = HostSessionController::new();
    assert_eq!(session.frequency(), None);
    assert_eq!(
        session.handle(ClientHostMessage::Reading(Reading::new(500, true, false))),
        SessionEvent::Uncalibrated
    );
    assert_eq!(session.handle(ClientHostMessage::CurrentTime(500)), SessionEvent::Uncalibrated);
    assert_eq!(session.frequency(), None);

    assert_eq!(
        session.handle(ClientHostMessage::FrequencyHertz(1_000_000)),
        SessionEvent::FrequencyStored(1_000_000)
    );
    assert_eq!(session.frequency(), Some(1_000_000));

    let event = session.handle(ClientHostMessage::Reading(Reading::new(500, true, false)));
    let expected = CalibratedReading {
        channel1: true,
        channel2: false,
        time: CalibratedTime { ticks: 500, ticks_per_microsecond: 1 },
    };
    assert_eq!(event, SessionEvent::Reading(expected));
    assert_eq!(expected.time.whole_microseconds(), Some(500));
    assert_eq!(microseconds(&expected.time), 500.0);
}

#[test]
fn the_current_time_is_calibrated_like_a_reading() {
    let mut session = HostSessionController::new();
    session.handle(ClientHostMessage::FrequencyHertz(72_000_000));
    let event = session.handle(ClientHostMessage::CurrentTime(7200));
    let expected = CalibratedTime { ticks: 7200, ticks_per_microsecond: 72 };
    assert_eq!(event, SessionEvent::ClockSync(expected));
    assert_eq!(expected.whole_microseconds(), Some(100));
    assert_eq!(microseconds(&expected), 100.0);
}

#[test]
fn a_new_frequency_replaces_the_old_one() {
    let mut session = HostSessionController::new();
    session.handle(ClientHostMessage::FrequencyHertz(1_000_000));
    session.handle(ClientHostMessage::FrequencyHertz(8_000_000));
    assert_eq!(session.frequency(), Some(8_000_000));
    assert_eq!(
        session.handle(ClientHostMessage::CurrentTime(80)),
        SessionEvent::ClockSync(CalibratedTime { ticks: 80, ticks_per_microsecond: 8 })
    );
}

#[test]
fn a_reset_is_only_a_notice() {
    let mut session = HostSessionController::new();
    assert_eq!(session.handle(ClientHostMessage::Reset(2)), SessionEvent::ResetNoticed(2));
    assert_eq!(session.frequency(), None);
    session.handle(ClientHostMessage::FrequencyHertz(2_000_000));
    assert_eq!(session.handle(ClientHostMessage::Reset(1)), SessionEvent::ResetNoticed(1));
    assert_eq!(session.frequency(), Some(2_000_000));
}

#[test]
fn the_divisor_is_the_whole_number_of_ticks_in_a_microsecond() {
    assert_eq!(MICROSECONDS_PER_SECOND, 1_000_000);
    assert_eq!(CalibratedTime::new(1_999_999, 10).ticks_per_microsecond, 1);
    assert_eq!(CalibratedTime::new(2_000_000, 10).ticks_per_microsecond, 2);
    assert_eq!(CalibratedTime::new(u32::MAX, 10).ticks_per_microsecond, 4294);
    assert_eq!(CalibratedTime::new(2_000_000, 11).whole_microseconds(), Some(5));
    assert_eq!(CalibratedTime::new(48_000_000, u32::MAX).whole_microseconds(), Some(89478485));

    let slow = CalibratedTime::new(999_999, 10);
    assert_eq!(slow.ticks_per_microsecond, 0);
    assert_eq!(slow.whole_microseconds(), None);
    assert_eq!(CalibratedTime::new(0, 0).whole_microseconds(), None);
}

#[test]
fn a_calibrated_reading_carries_both_levels() {
    for channel1 in [false, true] {
        for channel2 in [false, true] {
            let calibrated =
                CalibratedReading::new(3_000_000, Reading::new(9, channel1, channel2));
            assert_eq!(calibrated.channel1, channel1);
            assert_eq!(calibrated.channel2, channel2);
            assert_eq!(calibrated.time, CalibratedTime { ticks: 9, ticks_per_microsecond: 3 });
        }
    }
}

#[test]
fn a_frequency_below_one_megahertz_leaves_no_divisor() {
    let mut session = HostSessionController::new();
    session.handle(ClientHostMessage::FrequencyHertz(32_768));
    let event = session.handle(ClientHostMessage::CurrentTime(1000));
    let expected = CalibratedTime { ticks: 1000, ticks_per_microsecond: 0 };
    assert_eq!(event, SessionEvent::ClockSync(expected));
    assert_eq!(expected.whole_microseconds(), None);
    assert!(microseconds(&expected).is_infinite());
}

#[test]
fn messages_lead_to_events_in_the_order_they_arrive() {
    let mut session = HostSessionController::new();
    let messages = [
        ClientHostMessage::Reading(Reading::new(1, true, true)),
        ClientHostMessage::FrequencyHertz(3_000_000),
        ClientHostMessage::Reset(1),
        ClientHostMessage::Reading(Reading::new(9, false, true)),
        ClientHostMessage::CurrentTime(12),
        ClientHostMessage::FrequencyHertz(4_000_000),
        ClientHostMessage::CurrentTime(12),
    ];
    let events: Vec<SessionEvent> =
        messages.iter().map(|message| session.handle(*message)).collect();
    assert_eq!(
        events,
        vec![
            SessionEvent::Uncalibrated,
            SessionEvent::FrequencyStored(3_000_000),
            SessionEvent::ResetNoticed(1),
            SessionEvent::Reading(CalibratedReading {
                channel1: false,
                channel2: true,
                time: CalibratedTime { ticks: 9, ticks_per_microsecond: 3 },
            }),
            SessionEvent::ClockSync(CalibratedTime { ticks: 12, ticks_per_microsecond: 3 }),
            SessionEvent::FrequencyStored(4_000_000),
            SessionEvent::ClockSync(CalibratedTime { ticks: 12, ticks_per_microsecond: 4 }),
        ]
    );
}
