use powerdna::daq::{device_mask, needs_config_mode};
use powerdna::dataframe::{enum_name_event, BuzzerEventArgs, Event, ENUM_MAX_EVENT, ENUM_MIN_EVENT};
use powerdna::engine::{InterfaceType, Subsystems};

#[test]
fn event_names_follow_the_schema() {
    assert_eq!(enum_name_event(Event::NONE), "NONE");
    assert_eq!(enum_name_event(Event::SensorFrame), "SensorFrame");
    assert_eq!(enum_name_event(Event::BuzzerEvent), "BuzzerEvent");
}

#[test]
fn event_tags_round_trip() {
    assert_eq!(Event::NONE.value(), 0);
    assert_eq!(Event::SensorFrame.value(), 1);
    assert_eq!(Event::BuzzerEvent.value(), 2);
    for tag in ENUM_MIN_EVENT..=ENUM_MAX_EVENT {
        assert_eq!(Event::from_value(tag).unwrap().value(), tag);
    }
    assert_eq!(Event::from_value(3), None);
    assert_eq!(Event::from_value(255), None);
}

#[test]
fn buzzer_event_defaults_to_time_zero() {
    assert_eq!(BuzzerEventArgs::default(), BuzzerEventArgs { timestamp: 0 });
}

#[test]
fn subsystem_follows_the_direction() {
    let subsystems = Subsystems { input: 11, output: 22 };
    assert_eq!(subsystems.of(InterfaceType::Input), 11);
    assert_eq!(subsystems.of(InterfaceType::Output), 22);
}

#[test]
fn device_masks_have_one_bit() {
    assert_eq!(device_mask(0), Some(1));
    assert_eq!(device_mask(3), Some(8));
    assert_eq!(device_mask(31), Some(0x8000_0000));
    assert_eq!(device_mask(32), None);
    assert_eq!(device_mask(255), None);
}

#[test]
fn config_mode_is_needed_when_the_operation_bit_is_set() {
    assert!(needs_config_mode(0b1010, 0b0010));
    assert!(!needs_config_mode(0b1000, 0b0010));
    assert!(!needs_config_mode(0, 0xffff_ffff));
}
