use argononed::daemon::{handle_event, PowerTransition, UnknownAction, POWEROFF_SENTINEL};
use argononed::fan_control::FAN_SPEED_FULL;
use argononed::power_button_stream::PowerButtonEvent;
use argononed::temperature_stream::{get_temperatures, Error};

#[test]
fn sensor_line_parses_to_millidegrees() {
    let temps = get_temperatures(7, "42000\n".as_bytes()).unwrap();
    assert_eq!(temps.cpu_temp_millidegrees, 42_000);
    assert_eq!(temps.instant_nanos, 7);
}

#[test]
fn surrounding_whitespace_is_ignored() {
    let temps = get_temperatures(0, "  55250\r\n".as_bytes()).unwrap();
    assert_eq!(temps.cpu_temp_millidegrees, 55_250);
    let temps = get_temperatures(0, "\t-5\t ".as_bytes()).unwrap();
    assert_eq!(temps.cpu_temp_millidegrees, -5);
}

#[test]
fn zero_reading_parses() {
    let temps = get_temperatures(0, "0".as_bytes()).unwrap();
    assert_eq!(temps.cpu_temp_millidegrees, 0);
}

#[test]
fn largest_reading_parses() {
    let temps = get_temperatures(0, "9223372036854775807".as_bytes()).unwrap();
    assert_eq!(temps.cpu_temp_millidegrees, i64::MAX);
    let temps = get_temperatures(0, "-9223372036854775807".as_bytes()).unwrap();
    assert_eq!(temps.cpu_temp_millidegrees, -i64::MAX);
}

#[test]
fn malformed_lines_are_rejected() {
    assert_eq!(get_temperatures(0, "".as_bytes()), Err(Error::InvalidReading));
    assert_eq!(get_temperatures(0, " \n".as_bytes()), Err(Error::InvalidReading));
    assert_eq!(get_temperatures(0, "-".as_bytes()), Err(Error::InvalidReading));
    assert_eq!(get_temperatures(0, "41a00".as_bytes()), Err(Error::InvalidReading));
    assert_eq!(get_temperatures(0, "4 2".as_bytes()), Err(Error::InvalidReading));
    assert_eq!(get_temperatures(0, "+42".as_bytes()), Err(Error::InvalidReading));
}

#[test]
fn out_of_range_readings_are_rejected() {
    assert_eq!(get_temperatures(0, "9223372036854775808".as_bytes()), Err(Error::InvalidReading));
    assert_eq!(get_temperatures(0, "99999999999999999999".as_bytes()), Err(Error::InvalidReading));
}

#[test]
fn actions_map_to_transitions() {
    assert_eq!(handle_event(PowerButtonEvent::Reboot), Ok(PowerTransition::Reboot));
    assert_eq!(handle_event(PowerButtonEvent::Poweroff), Ok(PowerTransition::Shutdown));
    assert_eq!(
        handle_event(PowerButtonEvent::Unknown(123)),
        Err(UnknownAction { pulse_nanos: 123 })
    );
}

#[test]
fn poweroff_sentinel_is_no_fan_speed() {
    assert_eq!(POWEROFF_SENTINEL, 0xff);
    assert!(POWEROFF_SENTINEL > FAN_SPEED_FULL);
}
